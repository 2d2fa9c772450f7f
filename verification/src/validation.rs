//! Checking a call against a declared signature before anything is
//! evaluated.

use vstd::prelude::*;
use crate::aggregations::{aggregation_named, lookup_aggregation};
use crate::error::ValidationError;
use crate::function::{function_named, lookup_function};
use crate::types::DataType;

verus! {

/// The first position from `from` on at which an argument has another type
/// than the one declared there.
pub open spec fn mismatch_from(parameters: Seq<DataType>, arguments: Seq<DataType>, from: int) -> Option<
    int,
>
    decreases parameters.len() - from,
{
    if from < 0 || from >= parameters.len() {
        None
    } else if parameters[from] != arguments[from] {
        Some(from)
    } else {
        mismatch_from(parameters, arguments, from + 1)
    }
}

/// Whether an argument list fits a parameter list: the same number of
/// types, and the same type at each position. Where it does not, the count
/// is reported before any type, and of the types the first that differs.
pub open spec fn arguments_check(parameters: Seq<DataType>, arguments: Seq<DataType>) -> Result<
    (),
    ValidationError,
> {
    if arguments.len() != parameters.len() {
        Err(
            ValidationError::ArityMismatch {
                expected: parameters.len() as usize,
                found: arguments.len() as usize,
            },
        )
    } else {
        match mismatch_from(parameters, arguments, 0) {
            Some(position) => Err(ValidationError::TypeMismatch { position: position as usize }),
            None => Ok(()),
        }
    }
}

/// The position that `mismatch_from` gives is the first one that differs;
/// where it gives none, nothing differs.
pub proof fn lemma_mismatch_from(parameters: Seq<DataType>, arguments: Seq<DataType>, from: int)
    requires
        0 <= from,
    ensures
        match mismatch_from(parameters, arguments, from) {
            Some(position) => from <= position < parameters.len() && parameters[position]
                != arguments[position] && forall|j: int|
                from <= j < position ==> parameters[j] == arguments[j],
            None => forall|j: int| from <= j < parameters.len() ==> parameters[j] == arguments[j],
        },
    decreases parameters.len() - from,
{
    if from < parameters.len() && parameters[from] == arguments[from] {
        lemma_mismatch_from(parameters, arguments, from + 1);
    }
}

/// Checks the types of an argument list against a parameter list.
pub fn check_arguments(parameters: &Vec<DataType>, arguments: &Vec<DataType>) -> (result: Result<
    (),
    ValidationError,
>)
    ensures
        result == arguments_check(parameters@, arguments@),
{
    if arguments.len() != parameters.len() {
        return Err(
            ValidationError::ArityMismatch { expected: parameters.len(), found: arguments.len() },
        );
    }
    let mut i: usize = 0;
    while i < parameters.len()
        invariant
            i <= parameters.len(),
            arguments.len() == parameters.len(),
            mismatch_from(parameters@, arguments@, 0) == mismatch_from(
                parameters@,
                arguments@,
                i as int,
            ),
        decreases parameters.len() - i,
    {
        if parameters[i] != arguments[i] {
            return Err(ValidationError::TypeMismatch { position: i });
        }
        i = i + 1;
    }
    Ok(())
}

/// What validating a call of the scalar function `name` gives: the declared
/// result type where the arguments fit.
pub open spec fn function_call_check(name: Seq<char>, arguments: Seq<DataType>) -> Result<
    DataType,
    ValidationError,
> {
    match function_named(name) {
        None => Err(ValidationError::UnknownFunction),
        Some(function) => match arguments_check(function.signature().parameters, arguments) {
            Err(error) => Err(error),
            Ok(_) => Ok(function.signature().result),
        },
    }
}

/// Validates a call of the scalar function `name` with arguments of the
/// given types, and gives the type of its result.
pub fn validate_function_call(name: &str, arguments: &Vec<DataType>) -> (result: Result<
    DataType,
    ValidationError,
>)
    ensures
        result == function_call_check(name@, arguments@),
{
    let function = match lookup_function(name) {
        Some(function) => function,
        None => return Err(ValidationError::UnknownFunction),
    };
    let prototype = function.prototype();
    match check_arguments(&prototype.parameters, arguments) {
        Err(error) => Err(error),
        Ok(_) => Ok(prototype.result),
    }
}

/// What validating a call of the aggregation `name` gives: the declared
/// result type where the field has the declared type.
pub open spec fn aggregation_call_check(name: Seq<char>, field: DataType) -> Result<
    DataType,
    ValidationError,
> {
    match aggregation_named(name) {
        None => Err(ValidationError::UnknownAggregation),
        Some(aggregation) => if aggregation.signature().parameter != field {
            Err(ValidationError::TypeMismatch { position: 0 })
        } else {
            Ok(aggregation.signature().result)
        },
    }
}

/// Validates a call of the aggregation `name` on a field of the given type,
/// and gives the type of its result.
pub fn validate_aggregation_call(name: &str, field: DataType) -> (result: Result<
    DataType,
    ValidationError,
>)
    ensures
        result == aggregation_call_check(name@, field),
{
    let aggregation = match lookup_aggregation(name) {
        Some(aggregation) => aggregation,
        None => return Err(ValidationError::UnknownAggregation),
    };
    let prototype = aggregation.prototype();
    if prototype.parameter != field {
        Err(ValidationError::TypeMismatch { position: 0 })
    } else {
        Ok(prototype.result)
    }
}

} // verus!
