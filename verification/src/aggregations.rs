//! Aggregations over a prefix of the rows, their declared signatures, and
//! the registry that resolves a name to both.

use vstd::prelude::*;
use crate::error::EvaluationError;
use crate::number::{format_i64, integer_text, parse_i64, parse_integer};
use crate::object::GQLObject;
use crate::text::same_text;
use crate::types::DataType;

verus! {

/// The declared signature of an aggregation: the type of the aggregated
/// field and the type of the result.
#[derive(Clone, Copy, Debug, PartialEq, Eq, Structural)]
pub struct AggregationPrototype {
    pub parameter: DataType,
    pub result: DataType,
}

/// The mappings that a list of rows stands for, in order.
pub open spec fn row_views(rows: Seq<GQLObject>) -> Seq<Map<Seq<char>, Seq<char>>> {
    Seq::new(rows.len(), |i: int| rows[i]@)
}

/// The number in a row's field, or the reason there is none.
pub open spec fn field_number(row: Map<Seq<char>, Seq<char>>, field: Seq<char>) -> Result<
    int,
    EvaluationError,
> {
    if !row.contains_key(field) {
        Err(EvaluationError::MissingField)
    } else {
        match parse_integer(row[field]) {
            Some(number) => Ok(number),
            None => Err(EvaluationError::InvalidNumber),
        }
    }
}

/// The greatest number in the field over the rows `0..=index`, or the
/// failure of the first row in that range that has no number there.
pub open spec fn prefix_max(
    rows: Seq<Map<Seq<char>, Seq<char>>>,
    field: Seq<char>,
    index: int,
) -> Result<int, EvaluationError>
    decreases index,
{
    if index <= 0 {
        field_number(rows[0], field)
    } else {
        match prefix_max(rows, field, index - 1) {
            Err(error) => Err(error),
            Ok(earlier) => match field_number(rows[index], field) {
                Err(error) => Err(error),
                Ok(number) => Ok(if number > earlier {
                    number
                } else {
                    earlier
                }),
            },
        }
    }
}

/// What `max` returns for the row at `index`: the greatest number of the
/// prefix, written as decimal text.
pub open spec fn max_spec(rows: Seq<Map<Seq<char>, Seq<char>>>, field: Seq<char>, index: int) -> Result<
    Seq<char>,
    EvaluationError,
> {
    if !(0 <= index < rows.len()) {
        Err(EvaluationError::RowOutOfRange)
    } else {
        match prefix_max(rows, field, index) {
            Ok(maximum) => Ok(integer_text(maximum)),
            Err(error) => Err(error),
        }
    }
}

/// The view of the outcome of an aggregation.
pub open spec fn text_outcome(result: Result<String, EvaluationError>) -> Result<
    Seq<char>,
    EvaluationError,
> {
    match result {
        Ok(text) => Ok(text@),
        Err(error) => Err(error),
    }
}

/// A failure within a prefix is the failure of every longer prefix.
pub proof fn lemma_prefix_max_failure(
    rows: Seq<Map<Seq<char>, Seq<char>>>,
    field: Seq<char>,
    i: int,
    index: int,
)
    requires
        0 <= i <= index,
        prefix_max(rows, field, i) is Err,
    ensures
        prefix_max(rows, field, index) == prefix_max(rows, field, i),
    decreases index - i,
{
    if i < index {
        lemma_prefix_max_failure(rows, field, i, index - 1);
    }
}

/// Reads the number in a row's field.
pub fn field_value(row: &GQLObject, field_name: &String) -> (result: Result<i64, EvaluationError>)
    ensures
        match result {
            Ok(number) => field_number(row@, field_name@) == Ok::<int, EvaluationError>(
                number as int,
            ),
            Err(error) => field_number(row@, field_name@) == Err::<int, EvaluationError>(error),
        },
{
    match row.get(field_name.as_str()) {
        None => Err(EvaluationError::MissingField),
        Some(text) => match parse_i64(text.as_str()) {
            Some(number) => Ok(number),
            None => Err(EvaluationError::InvalidNumber),
        },
    }
}

/// `max`: the greatest number in the field `field_name` over the rows
/// `0..=index`, as decimal text.
pub fn aggregation_max(field_name: &String, index: usize, objects: &Vec<GQLObject>) -> (result:
    Result<String, EvaluationError>)
    ensures
        text_outcome(result) == max_spec(row_views(objects@), field_name@, index as int),
{
    if index >= objects.len() {
        return Err(EvaluationError::RowOutOfRange);
    }
    let ghost rows = row_views(objects@);
    let mut max_value: i64 = match field_value(&objects[0], field_name) {
        Ok(number) => number,
        Err(error) => {
            proof {
                lemma_prefix_max_failure(rows, field_name@, 0, index as int);
            }
            return Err(error);
        },
    };
    let mut i: usize = 1;
    while i <= index
        invariant
            1 <= i <= index + 1,
            index < objects.len(),
            rows == row_views(objects@),
            prefix_max(rows, field_name@, i - 1) == Ok::<int, EvaluationError>(max_value as int),
        decreases index + 1 - i,
    {
        let int_value = match field_value(&objects[i], field_name) {
            Ok(number) => number,
            Err(error) => {
                proof {
                    lemma_prefix_max_failure(rows, field_name@, i as int, index as int);
                }
                return Err(error);
            },
        };
        if int_value > max_value {
            max_value = int_value;
        }
        i = i + 1;
    }
    Ok(format_i64(max_value))
}

/// The aggregations that the registry knows.
#[derive(Clone, Copy, Debug, PartialEq, Eq, Structural)]
pub enum AggregationFunction {
    Max,
}

/// The aggregation registered under a name, if there is one. Names are
/// case-sensitive.
pub open spec fn aggregation_named(name: Seq<char>) -> Option<AggregationFunction> {
    if name == "max"@ {
        Some(AggregationFunction::Max)
    } else {
        None
    }
}

impl AggregationFunction {
    /// The name under which the aggregation is registered.
    pub open spec fn name_of(self) -> Seq<char> {
        match self {
            AggregationFunction::Max => "max"@,
        }
    }

    /// The declared signature of the aggregation.
    pub open spec fn signature(self) -> AggregationPrototype {
        match self {
            AggregationFunction::Max => AggregationPrototype {
                parameter: DataType::Number,
                result: DataType::Number,
            },
        }
    }

    /// What the aggregation returns for the row at `index`.
    pub open spec fn result_of(
        self,
        rows: Seq<Map<Seq<char>, Seq<char>>>,
        field: Seq<char>,
        index: int,
    ) -> Result<Seq<char>, EvaluationError> {
        match self {
            AggregationFunction::Max => max_spec(rows, field, index),
        }
    }

    /// The name under which the aggregation is registered.
    pub fn name(self) -> (name: &'static str)
        ensures
            name@ == self.name_of(),
    {
        match self {
            AggregationFunction::Max => "max",
        }
    }

    /// The declared signature of the aggregation.
    pub fn prototype(self) -> (prototype: AggregationPrototype)
        ensures
            prototype == self.signature(),
    {
        match self {
            AggregationFunction::Max => AggregationPrototype {
                parameter: DataType::Number,
                result: DataType::Number,
            },
        }
    }

    /// Evaluates the aggregation for the row at `index`.
    pub fn call(self, field_name: &String, index: usize, objects: &Vec<GQLObject>) -> (result:
        Result<String, EvaluationError>)
        ensures
            text_outcome(result) == self.result_of(
                row_views(objects@),
                field_name@,
                index as int,
            ),
    {
        match self {
            AggregationFunction::Max => aggregation_max(field_name, index, objects),
        }
    }
}

/// Resolves a name to the aggregation registered under it.
pub fn lookup_aggregation(name: &str) -> (found: Option<AggregationFunction>)
    ensures
        found == aggregation_named(name@),
{
    if same_text(name, "max") {
        Some(AggregationFunction::Max)
    } else {
        None
    }
}

/// Resolves a name to the declared signature of the aggregation registered
/// under it.
pub fn lookup_aggregation_prototype(name: &str) -> (found: Option<AggregationPrototype>)
    ensures
        found == match aggregation_named(name@) {
            Some(aggregation) => Some(aggregation.signature()),
            None => None,
        },
{
    match lookup_aggregation(name) {
        Some(aggregation) => Some(aggregation.prototype()),
        None => None,
    }
}

/// What an aggregation called by name returns for the row at `index`.
pub open spec fn call_aggregation_spec(
    name: Seq<char>,
    rows: Seq<Map<Seq<char>, Seq<char>>>,
    field: Seq<char>,
    index: int,
) -> Result<Seq<char>, EvaluationError> {
    match aggregation_named(name) {
        Some(aggregation) => aggregation.result_of(rows, field, index),
        None => Err(EvaluationError::UnknownAggregation),
    }
}

/// Evaluates the aggregation registered under `name` on the field
/// `field_name` for the row at `index`.
pub fn call_aggregation(name: &str, field_name: &String, index: usize, objects: &Vec<GQLObject>) -> (result:
    Result<String, EvaluationError>)
    ensures
        text_outcome(result) == call_aggregation_spec(
            name@,
            row_views(objects@),
            field_name@,
            index as int,
        ),
{
    match lookup_aggregation(name) {
        Some(aggregation) => aggregation.call(field_name, index, objects),
        None => Err(EvaluationError::UnknownAggregation),
    }
}

/// The aggregations of the registry, each once.
pub fn aggregation_functions() -> (all: Vec<AggregationFunction>)
    ensures
        all@.no_duplicates(),
        forall|aggregation: AggregationFunction| all@.contains(aggregation),
{
    let mut all = Vec::new();
    all.push(AggregationFunction::Max);
    proof {
        assert(all@[0] == AggregationFunction::Max);
    }
    all
}

} // verus!
