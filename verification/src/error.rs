//! The ways in which an operation of an algebra or of a data source is refused.

use vstd::prelude::*;

verus! {

/// Why an operation was refused. A refused operation leaves its output
/// argument as it found it.
#[derive(Clone, Copy, Debug, PartialEq, Eq, Structural)]
pub enum AlgebraError {
    /// A string does not denote a value of the algebra's domain.
    Parse,
    /// The algebra does not support the operation on the given inputs.
    Domain,
    /// A division or an inversion whose divisor is zero.
    DivisionByZero,
    /// An index outside a data source.
    Index,
    /// A result left the domain under an algebra that fails on overflow.
    OverflowPolicyViolation,
}

/// How a fallible in-place operation ends: where `outcome` is a value, the
/// operation succeeds and the output holds that value; where it is an error,
/// the operation returns that error and the output is untouched.
pub open spec fn settles<U>(
    outcome: Result<U, AlgebraError>,
    before: U,
    after: U,
    r: Result<(), AlgebraError>,
) -> bool {
    match outcome {
        Ok(v) => r == Ok::<(), AlgebraError>(()) && after == v,
        Err(e) => r == Err::<(), AlgebraError>(e) && after == before,
    }
}

/// Two operations that settle the same outcome return the same, and where
/// the outcome is a value both outputs hold it: variants of one operation
/// differ only in which argument receives the result.
pub proof fn lemma_settled_alike<U>(
    outcome: Result<U, AlgebraError>,
    before_one: U,
    after_one: U,
    r_one: Result<(), AlgebraError>,
    before_other: U,
    after_other: U,
    r_other: Result<(), AlgebraError>,
)
    requires
        settles(outcome, before_one, after_one, r_one),
        settles(outcome, before_other, after_other, r_other),
    ensures
        r_one == r_other,
        outcome is Ok ==> after_one == after_other,
        outcome is Err ==> after_one == before_one && after_other == before_other,
{
}

} // verus!
