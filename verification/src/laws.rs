//! What holds of the wrapping four-bit algebra for every value of its domain.

use vstd::prelude::*;
use crate::capability::{Addition, Algebra, Equality, Negatable, Zero};
use crate::error::{settles, AlgebraError};
use crate::sint4::{wrap4, wrap_step, wrapped, SInt4, SInt4Algebra};

verus! {

/// `wrap4` lands in the domain, keeps what is in it, and forgets multiples of
/// the modulus.
pub proof fn lemma_wrap4(x: int)
    ensures
        -8 <= wrap4(x) <= 7,
        -8 <= x <= 7 ==> wrap4(x) == x,
        wrap4(x + 16) == wrap4(x),
        wrap4(x - 16) == wrap4(x),
        (x - wrap4(x)) % 16 == 0,
{
}

/// A raw result at most one modulus away from the domain is wrapped by a
/// single step.
pub proof fn lemma_wrap_step(x: int)
    requires
        -24 <= x <= 23,
    ensures
        wrap_step(x) == wrap4(x),
{
}

/// Taking `a` away from the sum of `a` and `b` gives back `b`, also where the
/// sum wrapped around.
pub proof fn lemma_sum_less_first_operand(alg: SInt4Algebra, a: SInt4, b: SInt4)
    requires
        alg.in_domain(a),
        alg.in_domain(b),
    ensures
        alg.sum(a, b) matches Ok(s) && alg.in_domain(s) && alg.difference(s, a) == Ok::<
            SInt4,
            AlgebraError,
        >(b),
{
}

/// Taking the sum of `a` and `b` away from `a` gives the negative of `b`.
pub proof fn lemma_first_operand_less_sum(alg: SInt4Algebra, a: SInt4, b: SInt4)
    requires
        alg.in_domain(a),
        alg.in_domain(b),
    ensures
        alg.sum(a, b) matches Ok(s) && alg.in_domain(s) && alg.difference(a, s) == alg.negation(
            b,
        ),
{
}

/// `add2b(a, b)` followed by `subtract2b(a, b)` leaves `a - (a + b)` in `b`,
/// which is the `b` started from where `b` is its own negative: for 0 and
/// for -8.
pub proof fn lemma_add_then_subtract_recovers(alg: SInt4Algebra, a: SInt4, b: SInt4)
    requires
        alg.in_domain(a),
        alg.in_domain(b),
        b.val == 0 || b.val == -8,
    ensures
        alg.sum(a, b) matches Ok(s) && alg.difference(a, s) == Ok::<SInt4, AlgebraError>(b),
{
}

/// Negating twice gives a value equal to the one started from, -8 included,
/// which is its own negative.
pub proof fn lemma_negate_twice(alg: SInt4Algebra, a: SInt4)
    requires
        alg.in_domain(a),
    ensures
        alg.negation(a) matches Ok(n) && alg.in_domain(n) && (alg.negation(n) matches Ok(back)
            && alg.equal(back, a) && back == a),
{
}

/// The zero of the algebra is its additive identity: adding `a` to zero
/// gives a value equal to `a`.
pub proof fn lemma_zero_is_additive_identity(alg: SInt4Algebra, a: SInt4, z: SInt4)
    requires
        alg.in_domain(a),
        alg.zero_value(z),
    ensures
        alg.sum(a, z) matches Ok(s) && alg.equal(s, a) && s == a,
        alg.sum(z, a) == alg.sum(a, z),
{
}

/// `double` leaves in its operand what `add3c` leaves in its third operand
/// when its first two are that operand: whatever the two calls are allowed to
/// do, both succeed and both results are twice the value, wrapped.
pub proof fn lemma_double_agrees_with_add3c(
    alg: SInt4Algebra,
    a: SInt4,
    doubled: SInt4,
    r_double: Result<(), AlgebraError>,
    c: SInt4,
    added: SInt4,
    r_add: Result<(), AlgebraError>,
)
    requires
        alg.in_domain(a),
        settles(alg.sum(a, a), a, doubled, r_double),
        settles(alg.sum(a, a), c, added, r_add),
    ensures
        r_double is Ok,
        r_add is Ok,
        doubled == added,
        doubled == wrapped(2 * a.val),
{
}

/// Every sum, difference and negative of values of the domain is a value of
/// the domain again.
pub proof fn lemma_additive_closure(alg: SInt4Algebra, a: SInt4, b: SInt4)
    requires
        alg.in_domain(a),
        alg.in_domain(b),
    ensures
        alg.sum(a, b) matches Ok(s) && alg.in_domain(s) && s.val == wrap4(a.val + b.val),
        alg.difference(a, b) matches Ok(d) && alg.in_domain(d) && d.val == wrap4(a.val - b.val),
        alg.negation(a) matches Ok(n) && alg.in_domain(n) && n.val == wrap4(-a.val),
{
}

} // verus!
