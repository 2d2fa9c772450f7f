//! The two families of failure: a call that does not fit a declared
//! signature, and an evaluation that cannot produce a value.

use vstd::prelude::*;

verus! {

/// Why a call was refused before anything was evaluated.
#[derive(Clone, Copy, Debug, PartialEq, Eq, Structural)]
pub enum ValidationError {
    /// No scalar function is registered under the name.
    UnknownFunction,
    /// No aggregation is registered under the name.
    UnknownAggregation,
    /// The call passes `found` arguments where `expected` are declared.
    ArityMismatch { expected: usize, found: usize },
    /// The argument at `position` (counted from zero) has another type
    /// than the one declared there; earlier arguments all fit.
    TypeMismatch { position: usize },
}

/// Why an evaluation gave no value.
#[derive(Clone, Copy, Debug, PartialEq, Eq, Structural)]
pub enum EvaluationError {
    /// No scalar function is registered under the name.
    UnknownFunction,
    /// No aggregation is registered under the name.
    UnknownAggregation,
    /// The function reads an argument that was not passed.
    MissingArgument,
    /// A text was expected and the value holds something else.
    NotText,
    /// A number was expected and the value holds something else.
    NotNumber,
    /// A repetition count below zero.
    NegativeCount,
    /// The result cannot be represented on this machine.
    ResultTooLarge,
    /// The row index lies beyond the last row.
    RowOutOfRange,
    /// A row in the aggregated prefix lacks the field.
    MissingField,
    /// A field value in the aggregated prefix is no decimal integer.
    InvalidNumber,
}

} // verus!
