//! Runtime values that scalar functions consume and produce.

use vstd::prelude::*;
use crate::error::EvaluationError;
use crate::types::DataType;

verus! {

/// A runtime scalar.
#[derive(Clone, Debug, PartialEq, Eq)]
pub enum Value {
    Text(String),
    Number(i64),
}

/// What a [`Value`] stands for: a sequence of Unicode scalar values or an
/// integer.
pub enum ValueView {
    Text(Seq<char>),
    Number(int),
}

impl View for Value {
    type V = ValueView;

    open spec fn view(&self) -> ValueView {
        match self {
            Value::Text(text) => ValueView::Text(text@),
            Value::Number(number) => ValueView::Number(*number as int),
        }
    }
}

/// The type of a value.
pub open spec fn type_of(value: ValueView) -> DataType {
    match value {
        ValueView::Text(_) => DataType::Text,
        ValueView::Number(_) => DataType::Number,
    }
}

/// The types of a list of values, in order.
pub open spec fn types_of(values: Seq<ValueView>) -> Seq<DataType> {
    Seq::new(values.len(), |i: int| type_of(values[i]))
}

/// The views of a list of values, in order.
pub open spec fn views(values: Seq<Value>) -> Seq<ValueView> {
    Seq::new(values.len(), |i: int| values[i]@)
}

/// The view of the outcome of an evaluation.
pub open spec fn outcome(result: Result<Value, EvaluationError>) -> Result<
    ValueView,
    EvaluationError,
> {
    match result {
        Ok(value) => Ok(value@),
        Err(error) => Err(error),
    }
}

/// The text at position `i` of an argument list, or the reason there is none.
pub open spec fn text_at(arguments: Seq<ValueView>, i: int) -> Result<Seq<char>, EvaluationError> {
    if !(0 <= i < arguments.len()) {
        Err(EvaluationError::MissingArgument)
    } else {
        match arguments[i] {
            ValueView::Text(text) => Ok(text),
            ValueView::Number(_) => Err(EvaluationError::NotText),
        }
    }
}

/// The number at position `i` of an argument list, or the reason there is
/// none.
pub open spec fn number_at(arguments: Seq<ValueView>, i: int) -> Result<int, EvaluationError> {
    if !(0 <= i < arguments.len()) {
        Err(EvaluationError::MissingArgument)
    } else {
        match arguments[i] {
            ValueView::Number(number) => Ok(number),
            ValueView::Text(_) => Err(EvaluationError::NotNumber),
        }
    }
}

impl Value {
    /// The type of the value.
    pub fn data_type(&self) -> (data_type: DataType)
        ensures
            data_type == type_of(self@),
    {
        match self {
            Value::Text(_) => DataType::Text,
            Value::Number(_) => DataType::Number,
        }
    }

    /// The text held by the value; fails on any other variant.
    pub fn as_text(&self) -> (result: Result<&str, EvaluationError>)
        ensures
            match result {
                Ok(text) => self@ == ValueView::Text(text@),
                Err(error) => self@ is Number && error == EvaluationError::NotText,
            },
    {
        match self {
            Value::Text(text) => Ok(text.as_str()),
            Value::Number(_) => Err(EvaluationError::NotText),
        }
    }

    /// The number held by the value; fails on any other variant.
    pub fn as_number(&self) -> (result: Result<i64, EvaluationError>)
        ensures
            match result {
                Ok(number) => self@ == ValueView::Number(number as int),
                Err(error) => self@ is Text && error == EvaluationError::NotNumber,
            },
    {
        match self {
            Value::Number(number) => Ok(*number),
            Value::Text(_) => Err(EvaluationError::NotNumber),
        }
    }
}

/// The text argument at position `i`.
pub fn text_argument(inputs: &Vec<Value>, i: usize) -> (result: Result<&str, EvaluationError>)
    ensures
        match result {
            Ok(text) => text_at(views(inputs@), i as int) == Ok::<Seq<char>, EvaluationError>(text@),
            Err(error) => text_at(views(inputs@), i as int) == Err::<Seq<char>, EvaluationError>(error),
        },
{
    if i >= inputs.len() {
        return Err(EvaluationError::MissingArgument);
    }
    inputs[i].as_text()
}

/// The number argument at position `i`.
pub fn number_argument(inputs: &Vec<Value>, i: usize) -> (result: Result<i64, EvaluationError>)
    ensures
        match result {
            Ok(number) => number_at(views(inputs@), i as int) == Ok::<int, EvaluationError>(number as int),
            Err(error) => number_at(views(inputs@), i as int) == Err::<int, EvaluationError>(error),
        },
{
    if i >= inputs.len() {
        return Err(EvaluationError::MissingArgument);
    }
    inputs[i].as_number()
}

} // verus!
