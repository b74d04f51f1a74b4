//! The capability interfaces. Each one binds a small set of operations to a
//! value type `U`; an algebra object implements those it supports.
//!
//! Operations with several operands carry a suffix: the digit counts the
//! operands and the letter names the slot that receives the result, so `2b`
//! overwrites the second of two operands and `3c` writes to a third.

use vstd::prelude::*;
use crate::error::{settles, AlgebraError};

verus! {

/// What every algebra object settles for its value type: which values it
/// accepts. Every operation of an algebra leaves in its output a value that
/// the same algebra accepts.
pub trait Algebra<U> {
    /// The values of `U` that this algebra works on.
    spec fn in_domain(&self, v: U) -> bool;
}

/// An algebra with a zero.
pub trait Zero<U>: Algebra<U> {
    /// Whether `v` is a zero of this algebra.
    spec fn zero_value(&self, v: U) -> bool;

    fn is_zero(&self, v: &U) -> (r: bool)
        ensures
            r == self.zero_value(*v),
    ;

    /// Overwrites `v` with zero.
    fn zero(&self, v: &mut U)
        ensures
            self.zero_value(*final(v)),
            self.in_domain(*final(v)),
    ;
}

/// An algebra with a one.
pub trait Unity<U>: Algebra<U> {
    /// Whether `v` is a one of this algebra.
    spec fn unity_value(&self, v: U) -> bool;

    fn is_unity(&self, v: &U) -> (r: bool)
        ensures
            r == self.unity_value(*v),
    ;

    /// Overwrites `v` with one.
    fn unity(&self, v: &mut U)
        ensures
            self.unity_value(*final(v)),
            self.in_domain(*final(v)),
    ;
}

/// An algebra that can tell whether two values are the same element. Both
/// tests answer for every pair of values of `U`.
pub trait Equality<U> {
    /// Whether `a` and `b` are the same element.
    spec fn equal(&self, a: U, b: U) -> bool;

    fn is_eq(&self, a: &U, b: &U) -> (r: bool)
        ensures
            r == self.equal(*a, *b),
    ;

    fn is_not_eq(&self, a: &U, b: &U) -> (r: bool)
        ensures
            r == !self.equal(*a, *b),
    ;
}

/// An algebra whose elements are totally ordered.
pub trait Ordered<U>: Equality<U> {
    /// Whether `a` comes strictly before `b`.
    spec fn less(&self, a: U, b: U) -> bool;

    /// Of `a < b`, `a == b` and `a > b` exactly one holds.
    proof fn trichotomy(&self, a: U, b: U)
        ensures
            self.less(a, b) || self.equal(a, b) || self.less(b, a),
            !(self.less(a, b) && self.equal(a, b)),
            !(self.less(a, b) && self.less(b, a)),
            !(self.equal(a, b) && self.less(b, a)),
    ;

    fn is_less(&self, a: &U, b: &U) -> (r: bool)
        ensures
            r == self.less(*a, *b),
    ;

    fn is_less_eq(&self, a: &U, b: &U) -> (r: bool)
        ensures
            r == (self.less(*a, *b) || self.equal(*a, *b)),
    ;

    fn is_greater(&self, a: &U, b: &U) -> (r: bool)
        ensures
            r == self.less(*b, *a),
    ;

    fn is_greater_eq(&self, a: &U, b: &U) -> (r: bool)
        ensures
            r == (self.less(*b, *a) || self.equal(*a, *b)),
    ;
}

/// An algebra that makes values.
pub trait Constructible<U>: Algebra<U> {
    /// The value that `ctor` makes.
    spec fn fresh(&self) -> U;

    /// The value that a string denotes, if it denotes one of the domain.
    spec fn parsed(&self, text: Seq<char>) -> Option<U>;

    fn ctor(&self) -> (r: U)
        ensures
            r == self.fresh(),
            self.in_domain(r),
    ;

    /// A new value that holds what `other` holds.
    fn ctor_from_ref(&self, other: &U) -> (r: U)
        ensures
            r == *other,
    ;

    /// The value that `string` denotes, or `Parse` where it denotes none of
    /// the domain.
    fn ctor_from_str(&self, string: &str) -> (r: Result<U, AlgebraError>)
        ensures
            match self.parsed(string@) {
                Some(v) => r == Ok::<U, AlgebraError>(v) && self.in_domain(v),
                None => r == Err::<U, AlgebraError>(AlgebraError::Parse),
            },
    ;
}

/// An algebra that copies values.
pub trait Assignable<U> {
    /// `a -> b`
    fn assign(&self, a: &U, b: &mut U)
        ensures
            *final(b) == *a,
    ;
}

/// An algebra that adds and subtracts. What happens to a result outside the
/// domain is the algebra's choice: it may wrap or saturate, which shows in
/// `sum` and `difference`, or refuse with `OverflowPolicyViolation`.
pub trait Addition<U>: Algebra<U> {
    /// `a + b` in this algebra.
    spec fn sum(&self, a: U, b: U) -> Result<U, AlgebraError>;

    /// `a - b` in this algebra.
    spec fn difference(&self, a: U, b: U) -> Result<U, AlgebraError>;

    /// `a + a -> a`
    fn double(&self, a: &mut U) -> (r: Result<(), AlgebraError>)
        requires
            self.in_domain(*old(a)),
        ensures
            settles(self.sum(*old(a), *old(a)), *old(a), *final(a), r),
            self.in_domain(*final(a)),
            r matches Err(e) ==> e == AlgebraError::OverflowPolicyViolation,
    ;

    /// `a + b -> b`
    fn add2b(&self, a: &U, b: &mut U) -> (r: Result<(), AlgebraError>)
        requires
            self.in_domain(*a),
            self.in_domain(*old(b)),
        ensures
            settles(self.sum(*a, *old(b)), *old(b), *final(b), r),
            self.in_domain(*final(b)),
            r matches Err(e) ==> e == AlgebraError::OverflowPolicyViolation,
    ;

    /// `a + b -> c`
    fn add3c(&self, a: &U, b: &U, c: &mut U) -> (r: Result<(), AlgebraError>)
        requires
            self.in_domain(*a),
            self.in_domain(*b),
        ensures
            settles(self.sum(*a, *b), *old(c), *final(c), r),
            r is Ok ==> self.in_domain(*final(c)),
            r matches Err(e) ==> e == AlgebraError::OverflowPolicyViolation,
    ;

    /// `a - b -> a`
    fn subtract2a(&self, a: &mut U, b: &U) -> (r: Result<(), AlgebraError>)
        requires
            self.in_domain(*old(a)),
            self.in_domain(*b),
        ensures
            settles(self.difference(*old(a), *b), *old(a), *final(a), r),
            self.in_domain(*final(a)),
            r matches Err(e) ==> e == AlgebraError::OverflowPolicyViolation,
    ;

    /// `a - b -> b`
    fn subtract2b(&self, a: &U, b: &mut U) -> (r: Result<(), AlgebraError>)
        requires
            self.in_domain(*a),
            self.in_domain(*old(b)),
        ensures
            settles(self.difference(*a, *old(b)), *old(b), *final(b), r),
            self.in_domain(*final(b)),
            r matches Err(e) ==> e == AlgebraError::OverflowPolicyViolation,
    ;

    /// `a - b -> c`
    fn subtract3c(&self, a: &U, b: &U, c: &mut U) -> (r: Result<(), AlgebraError>)
        requires
            self.in_domain(*a),
            self.in_domain(*b),
        ensures
            settles(self.difference(*a, *b), *old(c), *final(c), r),
            r is Ok ==> self.in_domain(*final(c)),
            r matches Err(e) ==> e == AlgebraError::OverflowPolicyViolation,
    ;
}

/// An algebra that multiplies. A product outside the domain is treated as the
/// algebra treats a sum outside it.
pub trait Multiplication<U>: Algebra<U> {
    /// `a * b` in this algebra.
    spec fn product(&self, a: U, b: U) -> Result<U, AlgebraError>;

    /// `a` raised to the exponent `n` in this algebra.
    spec fn power_of(&self, n: int, a: U) -> Result<U, AlgebraError>;

    /// Whether this algebra also inverts, so that a negative exponent has a
    /// meaning in it.
    spec fn inverts(&self) -> bool;

    /// The first power of a value is the value.
    proof fn power_one(&self, a: U)
        requires
            self.in_domain(a),
        ensures
            self.power_of(1, a) == Ok::<U, AlgebraError>(a),
    ;

    /// The next power is the power times the base.
    proof fn power_step(&self, n: int, a: U)
        requires
            self.in_domain(a),
            n >= 1,
            self.power_of(n, a) is Ok,
        ensures
            self.power_of(n + 1, a) == self.product(self.power_of(n, a)->Ok_0, a),
    ;

    /// `a * a -> a`
    fn square(&self, a: &mut U) -> (r: Result<(), AlgebraError>)
        requires
            self.in_domain(*old(a)),
        ensures
            settles(self.product(*old(a), *old(a)), *old(a), *final(a), r),
            self.in_domain(*final(a)),
            r matches Err(e) ==> e == AlgebraError::OverflowPolicyViolation,
    ;

    /// `a * b -> a`
    fn multiply2a(&self, a: &mut U, b: &U) -> (r: Result<(), AlgebraError>)
        requires
            self.in_domain(*old(a)),
            self.in_domain(*b),
        ensures
            settles(self.product(*old(a), *b), *old(a), *final(a), r),
            self.in_domain(*final(a)),
            r matches Err(e) ==> e == AlgebraError::OverflowPolicyViolation,
    ;

    /// `a * b -> b`
    fn multiply2b(&self, a: &U, b: &mut U) -> (r: Result<(), AlgebraError>)
        requires
            self.in_domain(*a),
            self.in_domain(*old(b)),
        ensures
            settles(self.product(*a, *old(b)), *old(b), *final(b), r),
            self.in_domain(*final(b)),
            r matches Err(e) ==> e == AlgebraError::OverflowPolicyViolation,
    ;

    /// `a * b -> c`
    fn multiply3c(&self, a: &U, b: &U, c: &mut U) -> (r: Result<(), AlgebraError>)
        requires
            self.in_domain(*a),
            self.in_domain(*b),
        ensures
            settles(self.product(*a, *b), *old(c), *final(c), r),
            r is Ok ==> self.in_domain(*final(c)),
            r matches Err(e) ==> e == AlgebraError::OverflowPolicyViolation,
    ;

    /// `a ^ n -> a`. A negative `n` is refused with `Domain` by an algebra
    /// that does not invert.
    fn power(&self, n: i32, a: &mut U) -> (r: Result<(), AlgebraError>)
        requires
            self.in_domain(*old(a)),
        ensures
            settles(self.power_of(n as int, *old(a)), *old(a), *final(a), r),
            self.in_domain(*final(a)),
            n < 0 && !self.inverts() ==> r == Err::<(), AlgebraError>(AlgebraError::Domain),
    ;

    /// `a ^ n -> b`. A negative `n` is refused with `Domain` by an algebra
    /// that does not invert.
    fn power2b(&self, n: i32, a: &U, b: &mut U) -> (r: Result<(), AlgebraError>)
        requires
            self.in_domain(*a),
        ensures
            settles(self.power_of(n as int, *a), *old(b), *final(b), r),
            r is Ok ==> self.in_domain(*final(b)),
            n < 0 && !self.inverts() ==> r == Err::<(), AlgebraError>(AlgebraError::Domain),
    ;
}

/// An algebra that negates.
pub trait Negatable<U>: Algebra<U> + Equality<U> {
    /// `-a` in this algebra.
    spec fn negation(&self, a: U) -> Result<U, AlgebraError>;

    /// Negating twice gives back an element equal to the one started from.
    proof fn negation_involutive(&self, a: U)
        requires
            self.in_domain(a),
            self.negation(a) is Ok,
        ensures
            self.negation(self.negation(a)->Ok_0) matches Ok(back) && self.equal(back, a),
    ;

    /// `-a -> a`
    fn negate(&self, a: &mut U) -> (r: Result<(), AlgebraError>)
        requires
            self.in_domain(*old(a)),
        ensures
            settles(self.negation(*old(a)), *old(a), *final(a), r),
            self.in_domain(*final(a)),
            r matches Err(e) ==> e == AlgebraError::OverflowPolicyViolation,
    ;

    /// `-a -> b`
    fn negate2b(&self, a: &U, b: &mut U) -> (r: Result<(), AlgebraError>)
        requires
            self.in_domain(*a),
        ensures
            settles(self.negation(*a), *old(b), *final(b), r),
            r is Ok ==> self.in_domain(*final(b)),
            r matches Err(e) ==> e == AlgebraError::OverflowPolicyViolation,
    ;
}

/// An algebra that inverts and divides. A divisor that is a zero of the
/// algebra is refused with `DivisionByZero`, and nothing else is.
pub trait Invertible<U>: Zero<U> {
    /// `1 / a` in this algebra.
    spec fn inverse(&self, a: U) -> Result<U, AlgebraError>;

    /// `a / b` in this algebra.
    spec fn quotient(&self, a: U, b: U) -> Result<U, AlgebraError>;

    /// `1 / a -> a`
    fn invert(&self, a: &mut U) -> (r: Result<(), AlgebraError>)
        requires
            self.in_domain(*old(a)),
        ensures
            settles(self.inverse(*old(a)), *old(a), *final(a), r),
            self.in_domain(*final(a)),
            self.zero_value(*old(a)) <==> r == Err::<(), AlgebraError>(
                AlgebraError::DivisionByZero,
            ),
    ;

    /// `1 / a -> b`
    fn invert2b(&self, a: &U, b: &mut U) -> (r: Result<(), AlgebraError>)
        requires
            self.in_domain(*a),
        ensures
            settles(self.inverse(*a), *old(b), *final(b), r),
            r is Ok ==> self.in_domain(*final(b)),
            self.zero_value(*a) <==> r == Err::<(), AlgebraError>(AlgebraError::DivisionByZero),
    ;

    /// `a / b -> a`
    fn divide2a(&self, a: &mut U, b: &U) -> (r: Result<(), AlgebraError>)
        requires
            self.in_domain(*old(a)),
            self.in_domain(*b),
        ensures
            settles(self.quotient(*old(a), *b), *old(a), *final(a), r),
            self.in_domain(*final(a)),
            self.zero_value(*b) <==> r == Err::<(), AlgebraError>(AlgebraError::DivisionByZero),
    ;

    /// `a / b -> b`
    fn divide2b(&self, a: &U, b: &mut U) -> (r: Result<(), AlgebraError>)
        requires
            self.in_domain(*a),
            self.in_domain(*old(b)),
        ensures
            settles(self.quotient(*a, *old(b)), *old(b), *final(b), r),
            self.in_domain(*final(b)),
            self.zero_value(*old(b)) <==> r == Err::<(), AlgebraError>(
                AlgebraError::DivisionByZero,
            ),
    ;

    /// `a / b -> c`
    fn divide3c(&self, a: &U, b: &U, c: &mut U) -> (r: Result<(), AlgebraError>)
        requires
            self.in_domain(*a),
            self.in_domain(*b),
        ensures
            settles(self.quotient(*a, *b), *old(c), *final(c), r),
            r is Ok ==> self.in_domain(*final(c)),
            self.zero_value(*b) <==> r == Err::<(), AlgebraError>(AlgebraError::DivisionByZero),
    ;
}

} // verus!
