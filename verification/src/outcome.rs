//! Outcomes of fallible operations.
//!
//! An operation that can fail for one of a small, fixed set of domain
//! reasons returns an [`Outcome`]: either `Success` with a value or
//! `Failure` with a [`FailureReason`]. There is no sentinel value and no
//! implicit coercion between the two sides; callers either match on the
//! outcome exhaustively or ask for a default through [`Outcome::value_or`].

use vstd::prelude::*;

verus! {

/// The closed set of reasons an operation in this crate can fail.
#[derive(Clone, Copy, Debug, PartialEq, Eq, Structural)]
pub enum FailureReason {
    /// A division was attempted with a zero divisor.
    DivisionByZero,
    /// A square root was attempted on a negative number.
    NegativeInput,
}

/// The result of a fallible operation: exactly one of a success value or
/// a failure reason.
#[derive(Clone, Copy, Debug, PartialEq, Eq, Structural)]
pub enum Outcome<T> {
    /// The operation succeeded with this value.
    Success(T),
    /// The operation failed for this reason.
    Failure(FailureReason),
}

impl<T> Outcome<T> {
    /// Whether this outcome is a success.
    pub fn is_success(&self) -> (r: bool)
        ensures
            r == (self is Success),
    {
        match self {
            Outcome::Success(_) => true,
            Outcome::Failure(_) => false,
        }
    }

    /// Whether this outcome is a failure.
    pub fn is_failure(&self) -> (r: bool)
        ensures
            r == (self is Failure),
    {
        match self {
            Outcome::Success(_) => false,
            Outcome::Failure(_) => true,
        }
    }

    /// The success value, or `default` when the operation failed.
    pub fn value_or(self, default: T) -> (r: T)
        ensures
            self is Success ==> r == self->Success_0,
            self is Failure ==> r == default,
    {
        match self {
            Outcome::Success(v) => v,
            Outcome::Failure(_) => default,
        }
    }
}

} // verus!
