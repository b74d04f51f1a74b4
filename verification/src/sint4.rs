//! A signed integer confined to four bits, and the algebra that wraps it.
//!
//! The value type is a bare cell. That a result beyond `[-8, 7]` comes back
//! into the range by wraparound is decided by `SInt4Algebra`, not by the cell:
//! another algebra over the same cell could saturate or refuse instead.

use vstd::prelude::*;
use vstd::arithmetic::div_mod::lemma_mod_multiples_vanish;
use vstd::arithmetic::power::{lemma_pow1, lemma_pow_multiplies, lemma_square_is_pow2, pow};
use crate::capability::{
    Addition, Algebra, Assignable, Constructible, Equality, Multiplication, Negatable, Ordered,
    Unity, Zero,
};
use crate::decimal::{parse_within, signed_decimal_within};
use crate::error::AlgebraError;

verus! {

/// The smallest value of the four-bit domain.
pub const SINT4_MIN: i8 = -8;

/// The largest value of the four-bit domain.
pub const SINT4_MAX: i8 = 7;

/// The number of values in the four-bit domain.
pub const SINT4_MODULUS: i8 = 16;

/// A storage cell for a four-bit signed integer. It has no behaviour of its
/// own; the algebra that works on it keeps `val` within `[-8, 7]`.
#[derive(Clone, Copy, Debug, PartialEq, Eq, Structural)]
pub struct SInt4 {
    pub val: i8,
}

/// The algebra of four-bit signed integers in which results wrap around.
#[derive(Clone, Copy, Debug)]
pub struct SInt4Algebra {}

/// The one value of `[-8, 7]` that differs from `x` by a multiple of 16.
pub open spec fn wrap4(x: int) -> int {
    (x + 8) % 16 - 8
}

/// The cell that holds `x` wrapped into the domain.
pub open spec fn wrapped(x: int) -> SInt4 {
    SInt4 { val: wrap4(x) as i8 }
}

/// One step of wraparound: a value above the domain goes down by the modulus,
/// one below it goes up by the modulus.
pub open spec fn wrap_step(x: int) -> int {
    if x > 7 {
        x - 16
    } else if x < -8 {
        x + 16
    } else {
        x
    }
}

/// The product of two values of the domain fits an `i8`.
pub proof fn lemma_product_bound(x: int, y: int)
    requires
        -8 <= x <= 7,
        -8 <= y <= 7,
    ensures
        -56 <= x * y <= 64,
{
    assert(-56 <= x * y <= 64) by (nonlinear_arith)
        requires
            -8 <= x <= 7,
            -8 <= y <= 7,
    ;
}

/// A power is the base times the power before it.
pub proof fn lemma_pow_unfold(b: int, e: nat)
    requires
        e > 0,
    ensures
        pow(b, e) == b * pow(b, (e - 1) as nat),
{
    reveal(pow);
}

/// Factors that wrap to the same value give products that wrap to the same
/// value.
pub proof fn lemma_wrap4_product(x: int, y: int, z: int)
    requires
        wrap4(x) == wrap4(y),
    ensures
        wrap4(x * z) == wrap4(y * z),
        wrap4(z * x) == wrap4(z * y),
{
    let k = (x - y) / 16;
    assert(x == y + 16 * k);
    assert(x * z == 16 * (k * z) + y * z) by (nonlinear_arith)
        requires
            x == y + 16 * k,
    ;
    assert(k * z * 16 == 16 * (k * z)) by (nonlinear_arith);
    lemma_mod_multiples_vanish(k * z, y * z + 8, 16);
    assert(z * x == x * z) by (nonlinear_arith);
    assert(z * y == y * z) by (nonlinear_arith);
}

/// Bases that wrap to the same value give powers that wrap to the same value.
pub proof fn lemma_wrap4_power(x: int, y: int, e: nat)
    requires
        wrap4(x) == wrap4(y),
    ensures
        wrap4(pow(x, e)) == wrap4(pow(y, e)),
    decreases e,
{
    reveal(pow);
    if e > 0 {
        let shorter = (e - 1) as nat;
        lemma_wrap4_power(x, y, shorter);
        lemma_wrap4_product(x, y, pow(x, shorter));
        lemma_wrap4_product(pow(x, shorter), pow(y, shorter), y);
    }
}

/// Brings the raw result of an addition or subtraction back into the domain.
/// The sum or difference of two values of the domain lies within one modulus
/// of it, and there a single step is the whole wraparound.
pub fn wrap_sint4(a: &mut SInt4)
    ensures
        final(a).val == wrap_step(old(a).val as int),
        -24 <= old(a).val <= 23 ==> final(a).val == wrap4(old(a).val as int),
{
    if a.val > SINT4_MAX {
        a.val = a.val - SINT4_MODULUS;
    } else if a.val < SINT4_MIN {
        a.val = a.val + SINT4_MODULUS;
    }
}

/// Brings any raw result that an `i8` can hold back into the domain. A
/// product of two values of the domain may lie several moduli away from it.
pub fn wrap_far(raw: i8) -> (r: i8)
    ensures
        r == wrap4(raw as int),
{
    let shifted: i16 = raw as i16 + 136;
    assert((raw + 136) % 16 == (raw + 8) % 16) by {
        lemma_mod_multiples_vanish(8, raw + 8, 16);
    }
    ((shifted % 16) - 8) as i8
}

/// `base` raised to `n`, wrapped into the domain, by repeated squaring.
pub fn wrapped_power(base: i8, n: u32) -> (r: i8)
    requires
        -8 <= base <= 7,
    ensures
        r == wrap4(pow(base as int, n as nat)),
{
    let mut acc: i8 = 1;
    let mut b: i8 = base;
    let mut e: u32 = n;
    while e > 0
        invariant
            -8 <= acc <= 7,
            -8 <= b <= 7,
            wrap4(acc * pow(b as int, e as nat)) == wrap4(pow(base as int, n as nat)),
        decreases e,
    {
        if e % 2 == 1 {
            proof {
                lemma_product_bound(acc as int, b as int);
            }
            let next: i8 = wrap_far(acc * b);
            proof {
                let rest = pow(b as int, (e - 1) as nat);
                lemma_pow_unfold(b as int, e as nat);
                assert(acc * pow(b as int, e as nat) == (acc * b) * rest) by (nonlinear_arith)
                    requires
                        pow(b as int, e as nat) == b * rest,
                ;
                lemma_wrap4_product(next as int, acc * b, rest);
            }
            acc = next;
            e = e - 1;
        } else {
            proof {
                lemma_product_bound(b as int, b as int);
            }
            let next: i8 = wrap_far(b * b);
            proof {
                let half = (e / 2) as nat;
                lemma_square_is_pow2(b as int);
                lemma_pow_multiplies(b as int, 2, half);
                assert(pow(b * b, half) == pow(b as int, e as nat));
                lemma_wrap4_power(next as int, b * b, half);
                lemma_wrap4_product(pow(next as int, half), pow(b * b, half), acc as int);
            }
            b = next;
            e = e / 2;
        }
    }
    assert(pow(b as int, 0) == 1) by {
        reveal(pow);
    }
    acc
}

impl Algebra<SInt4> for SInt4Algebra {
    open spec fn in_domain(&self, v: SInt4) -> bool {
        -8 <= v.val <= 7
    }
}

impl SInt4Algebra {
    /// Whether `v` lies in the domain, for callers that hold a cell of
    /// unknown content.
    pub fn accepts(&self, v: &SInt4) -> (r: bool)
        ensures
            r == self.in_domain(*v),
    {
        SINT4_MIN <= v.val && v.val <= SINT4_MAX
    }
}

impl Assignable<SInt4> for SInt4Algebra {
    fn assign(&self, a: &SInt4, b: &mut SInt4) {
        b.val = a.val;
    }
}

impl Addition<SInt4> for SInt4Algebra {
    open spec fn sum(&self, a: SInt4, b: SInt4) -> Result<SInt4, AlgebraError> {
        Ok(wrapped(a.val + b.val))
    }

    open spec fn difference(&self, a: SInt4, b: SInt4) -> Result<SInt4, AlgebraError> {
        Ok(wrapped(a.val - b.val))
    }

    fn double(&self, a: &mut SInt4) -> (r: Result<(), AlgebraError>)
        ensures
            r is Ok,
    {
        a.val = a.val + a.val;
        wrap_sint4(a);
        Ok(())
    }

    fn add2b(&self, a: &SInt4, b: &mut SInt4) -> (r: Result<(), AlgebraError>)
        ensures
            r is Ok,
    {
        b.val = a.val + b.val;
        wrap_sint4(b);
        Ok(())
    }

    fn add3c(&self, a: &SInt4, b: &SInt4, c: &mut SInt4) -> (r: Result<(), AlgebraError>)
        ensures
            r is Ok,
    {
        c.val = a.val + b.val;
        wrap_sint4(c);
        Ok(())
    }

    fn subtract2a(&self, a: &mut SInt4, b: &SInt4) -> (r: Result<(), AlgebraError>)
        ensures
            r is Ok,
    {
        a.val = a.val - b.val;
        wrap_sint4(a);
        Ok(())
    }

    fn subtract2b(&self, a: &SInt4, b: &mut SInt4) -> (r: Result<(), AlgebraError>)
        ensures
            r is Ok,
    {
        b.val = a.val - b.val;
        wrap_sint4(b);
        Ok(())
    }

    fn subtract3c(&self, a: &SInt4, b: &SInt4, c: &mut SInt4) -> (r: Result<(), AlgebraError>)
        ensures
            r is Ok,
    {
        c.val = a.val - b.val;
        wrap_sint4(c);
        Ok(())
    }
}

impl Zero<SInt4> for SInt4Algebra {
    open spec fn zero_value(&self, v: SInt4) -> bool {
        v.val == 0
    }

    fn is_zero(&self, v: &SInt4) -> (r: bool) {
        v.val == 0
    }

    fn zero(&self, v: &mut SInt4) {
        v.val = 0;
    }
}

impl Unity<SInt4> for SInt4Algebra {
    open spec fn unity_value(&self, v: SInt4) -> bool {
        v.val == 1
    }

    fn is_unity(&self, v: &SInt4) -> (r: bool) {
        v.val == 1
    }

    fn unity(&self, v: &mut SInt4) {
        v.val = 1;
    }
}

impl Equality<SInt4> for SInt4Algebra {
    open spec fn equal(&self, a: SInt4, b: SInt4) -> bool {
        a.val == b.val
    }

    fn is_eq(&self, a: &SInt4, b: &SInt4) -> (r: bool) {
        a.val == b.val
    }

    fn is_not_eq(&self, a: &SInt4, b: &SInt4) -> (r: bool) {
        a.val != b.val
    }
}

impl Ordered<SInt4> for SInt4Algebra {
    open spec fn less(&self, a: SInt4, b: SInt4) -> bool {
        a.val < b.val
    }

    proof fn trichotomy(&self, a: SInt4, b: SInt4) {
    }

    fn is_less(&self, a: &SInt4, b: &SInt4) -> (r: bool) {
        a.val < b.val
    }

    fn is_less_eq(&self, a: &SInt4, b: &SInt4) -> (r: bool) {
        a.val <= b.val
    }

    fn is_greater(&self, a: &SInt4, b: &SInt4) -> (r: bool) {
        a.val > b.val
    }

    fn is_greater_eq(&self, a: &SInt4, b: &SInt4) -> (r: bool) {
        a.val >= b.val
    }
}

impl Constructible<SInt4> for SInt4Algebra {
    open spec fn fresh(&self) -> SInt4 {
        SInt4 { val: 0 }
    }

    /// Decimal notation of an integer from -8 to 7.
    open spec fn parsed(&self, text: Seq<char>) -> Option<SInt4> {
        match signed_decimal_within(text, -8, 7) {
            Some(n) => Some(SInt4 { val: n as i8 }),
            None => None,
        }
    }

    fn ctor(&self) -> (r: SInt4) {
        SInt4 { val: 0 }
    }

    fn ctor_from_ref(&self, other: &SInt4) -> (r: SInt4) {
        SInt4 { val: other.val }
    }

    fn ctor_from_str(&self, string: &str) -> (r: Result<SInt4, AlgebraError>) {
        match parse_within(string, SINT4_MIN, SINT4_MAX) {
            Some(n) => Ok(SInt4 { val: n }),
            None => Err(AlgebraError::Parse),
        }
    }
}

impl Negatable<SInt4> for SInt4Algebra {
    open spec fn negation(&self, a: SInt4) -> Result<SInt4, AlgebraError> {
        Ok(wrapped(-a.val))
    }

    proof fn negation_involutive(&self, a: SInt4) {
    }

    fn negate(&self, a: &mut SInt4) -> (r: Result<(), AlgebraError>)
        ensures
            r is Ok,
    {
        a.val = -a.val;
        wrap_sint4(a);
        Ok(())
    }

    fn negate2b(&self, a: &SInt4, b: &mut SInt4) -> (r: Result<(), AlgebraError>)
        ensures
            r is Ok,
    {
        b.val = -a.val;
        wrap_sint4(b);
        Ok(())
    }
}

impl Multiplication<SInt4> for SInt4Algebra {
    open spec fn product(&self, a: SInt4, b: SInt4) -> Result<SInt4, AlgebraError> {
        Ok(wrapped(a.val * b.val))
    }

    /// The wrapped power for an exponent from zero up, the zeroth power
    /// being one; this algebra does not invert, so a negative exponent is
    /// outside it.
    open spec fn power_of(&self, n: int, a: SInt4) -> Result<SInt4, AlgebraError> {
        if n < 0 {
            Err(AlgebraError::Domain)
        } else {
            Ok(wrapped(pow(a.val as int, n as nat)))
        }
    }

    open spec fn inverts(&self) -> bool {
        false
    }

    proof fn power_one(&self, a: SInt4) {
        lemma_pow1(a.val as int);
    }

    proof fn power_step(&self, n: int, a: SInt4) {
        let p = pow(a.val as int, n as nat);
        lemma_pow_unfold(a.val as int, (n + 1) as nat);
        lemma_wrap4_product(wrap4(p), p, a.val as int);
        assert(a.val * p == p * a.val) by (nonlinear_arith);
    }

    fn square(&self, a: &mut SInt4) -> (r: Result<(), AlgebraError>)
        ensures
            r is Ok,
    {
        proof {
            lemma_product_bound(a.val as int, a.val as int);
        }
        a.val = wrap_far(a.val * a.val);
        Ok(())
    }

    fn multiply2a(&self, a: &mut SInt4, b: &SInt4) -> (r: Result<(), AlgebraError>)
        ensures
            r is Ok,
    {
        proof {
            lemma_product_bound(a.val as int, b.val as int);
        }
        a.val = wrap_far(a.val * b.val);
        Ok(())
    }

    fn multiply2b(&self, a: &SInt4, b: &mut SInt4) -> (r: Result<(), AlgebraError>)
        ensures
            r is Ok,
    {
        proof {
            lemma_product_bound(a.val as int, b.val as int);
        }
        b.val = wrap_far(a.val * b.val);
        Ok(())
    }

    fn multiply3c(&self, a: &SInt4, b: &SInt4, c: &mut SInt4) -> (r: Result<(), AlgebraError>)
        ensures
            r is Ok,
    {
        proof {
            lemma_product_bound(a.val as int, b.val as int);
        }
        c.val = wrap_far(a.val * b.val);
        Ok(())
    }

    fn power(&self, n: i32, a: &mut SInt4) -> (r: Result<(), AlgebraError>)
        ensures
            r is Ok <==> n >= 0,
    {
        if n < 0 {
            Err(AlgebraError::Domain)
        } else {
            a.val = wrapped_power(a.val, n as u32);
            Ok(())
        }
    }

    fn power2b(&self, n: i32, a: &SInt4, b: &mut SInt4) -> (r: Result<(), AlgebraError>)
        ensures
            r is Ok <==> n >= 0,
    {
        if n < 0 {
            Err(AlgebraError::Domain)
        } else {
            b.val = wrapped_power(a.val, n as u32);
            Ok(())
        }
    }
}

} // verus!
