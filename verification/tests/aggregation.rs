use gql_functions::aggregations::{
    aggregation_functions, aggregation_max, call_aggregation, field_value, lookup_aggregation,
    lookup_aggregation_prototype, AggregationFunction, AggregationPrototype,
};
use gql_functions::error::{EvaluationError, ValidationError};
use gql_functions::object::GQLObject;
use gql_functions::types::DataType;
use gql_functions::validation::validate_aggregation_call;

fn row(entries: &[(&str, &str)]) -> GQLObject {
    let mut object = GQLObject::new();
    for (name, value) in entries {
        object.insert(name.to_string(), value.to_string());
    }
    object
}

fn rows_of(field: &str, values: &[&str]) -> Vec<GQLObject> {
    values.iter().map(|value| row(&[(field, value)])).collect()
}

#[test]
fn max_is_a_running_maximum() {
    let rows = rows_of("n", &["3", "1", "5", "2"]);
    let field = "n".to_string();
    let results: Vec<String> =
        (0..rows.len()).map(|i| aggregation_max(&field, i, &rows).unwrap()).collect();
    assert_eq!(results, vec!["3", "3", "5", "5"]);
}

#[test]
fn max_by_name_is_a_running_maximum() {
    let rows = rows_of("n", &["3", "1", "5", "2"]);
    let field = "n".to_string();
    let results: Vec<String> =
        (0..rows.len()).map(|i| call_aggregation("max", &field, i, &rows).unwrap()).collect();
    assert_eq!(results, vec!["3", "3", "5", "5"]);
}

#[test]
fn max_of_negative_numbers_is_negative() {
    let rows = rows_of("n", &["-3", "-1", "-7"]);
    let field = "n".to_string();
    assert_eq!(aggregation_max(&field, 0, &rows), Ok("-3".to_string()));
    assert_eq!(aggregation_max(&field, 1, &rows), Ok("-1".to_string()));
    assert_eq!(aggregation_max(&field, 2, &rows), Ok("-1".to_string()));
}

#[test]
fn max_never_decreases_and_is_attained() {
    let values = ["10", "-4", "10", "11", "0", "+12", "012", "9223372036854775807", "5"];
    let numbers: Vec<i64> = values.iter().map(|value| value.parse().unwrap()).collect();
    let rows = rows_of("size", &values);
    let field = "size".to_string();
    let mut before = i64::MIN;
    for i in 0..rows.len() {
        let result: i64 = aggregation_max(&field, i, &rows).unwrap().parse().unwrap();
        assert!(result >= before);
        assert_eq!(result, *numbers[..=i].iter().max().unwrap());
        before = result;
    }
}

#[test]
fn max_writes_the_number_in_plain_decimal() {
    let rows = rows_of("n", &["+007", "-0"]);
    let field = "n".to_string();
    assert_eq!(aggregation_max(&field, 0, &rows), Ok("7".to_string()));
    assert_eq!(aggregation_max(&field, 1, &rows), Ok("7".to_string()));
    let rows = rows_of("n", &["-0", "-9223372036854775808"]);
    assert_eq!(aggregation_max(&field, 0, &rows), Ok("0".to_string()));
    assert_eq!(aggregation_max(&field, 1, &rows), Ok("0".to_string()));
    let rows = rows_of("n", &["-9223372036854775808"]);
    assert_eq!(aggregation_max(&field, 0, &rows), Ok("-9223372036854775808".to_string()));
}

#[test]
fn max_reads_only_the_named_field() {
    let rows = vec![row(&[("n", "1"), ("m", "100")]), row(&[("m", "7"), ("n", "4")])];
    assert_eq!(aggregation_max(&"n".to_string(), 1, &rows), Ok("4".to_string()));
    assert_eq!(aggregation_max(&"m".to_string(), 1, &rows), Ok("100".to_string()));
}

#[test]
fn max_fails_on_a_missing_field() {
    let rows = vec![row(&[("n", "1")]), row(&[("m", "2")]), row(&[("n", "3")])];
    let field = "n".to_string();
    assert_eq!(aggregation_max(&field, 0, &rows), Ok("1".to_string()));
    assert_eq!(aggregation_max(&field, 1, &rows), Err(EvaluationError::MissingField));
    assert_eq!(aggregation_max(&field, 2, &rows), Err(EvaluationError::MissingField));
    assert_eq!(aggregation_max(&"N".to_string(), 0, &rows), Err(EvaluationError::MissingField));
}

#[test]
fn max_fails_on_a_field_that_is_no_integer() {
    let field = "n".to_string();
    for bad in ["", "abc", "1.5", " 1", "1 ", "+", "-", "--1", "1_000", "0x10", "٣", "1e3"] {
        let rows = rows_of("n", &["1", bad, "3"]);
        assert_eq!(aggregation_max(&field, 0, &rows), Ok("1".to_string()));
        assert_eq!(aggregation_max(&field, 1, &rows), Err(EvaluationError::InvalidNumber));
        assert_eq!(aggregation_max(&field, 2, &rows), Err(EvaluationError::InvalidNumber));
    }
}

#[test]
fn max_fails_on_a_number_beyond_64_bits() {
    let field = "n".to_string();
    let rows = rows_of("n", &["9223372036854775808"]);
    assert_eq!(aggregation_max(&field, 0, &rows), Err(EvaluationError::InvalidNumber));
    let rows = rows_of("n", &["-9223372036854775809"]);
    assert_eq!(aggregation_max(&field, 0, &rows), Err(EvaluationError::InvalidNumber));
    let rows = rows_of("n", &["100000000000000000000000000000"]);
    assert_eq!(aggregation_max(&field, 0, &rows), Err(EvaluationError::InvalidNumber));
}

#[test]
fn max_reports_the_failure_of_the_first_failing_row() {
    let rows = vec![row(&[("n", "1")]), row(&[("n", "x")]), row(&[("m", "2")])];
    let field = "n".to_string();
    assert_eq!(aggregation_max(&field, 2, &rows), Err(EvaluationError::InvalidNumber));
    let rows = vec![row(&[("n", "1")]), row(&[("m", "2")]), row(&[("n", "x")])];
    assert_eq!(aggregation_max(&field, 2, &rows), Err(EvaluationError::MissingField));
}

#[test]
fn max_does_not_look_beyond_the_index() {
    let rows = rows_of("n", &["1", "2", "bad"]);
    let field = "n".to_string();
    assert_eq!(aggregation_max(&field, 1, &rows), Ok("2".to_string()));
}

#[test]
fn max_fails_on_an_index_beyond_the_rows() {
    let rows = rows_of("n", &["1", "2"]);
    let field = "n".to_string();
    assert_eq!(aggregation_max(&field, 2, &rows), Err(EvaluationError::RowOutOfRange));
    assert_eq!(aggregation_max(&field, usize::MAX, &rows), Err(EvaluationError::RowOutOfRange));
    assert_eq!(aggregation_max(&field, 0, &vec![]), Err(EvaluationError::RowOutOfRange));
    let bad = rows_of("n", &["x"]);
    assert_eq!(aggregation_max(&field, 1, &bad), Err(EvaluationError::RowOutOfRange));
}

#[test]
fn field_value_reads_a_number() {
    let object = row(&[("n", "42"), ("t", "text")]);
    assert_eq!(field_value(&object, &"n".to_string()), Ok(42));
    assert_eq!(field_value(&object, &"t".to_string()), Err(EvaluationError::InvalidNumber));
    assert_eq!(field_value(&object, &"x".to_string()), Err(EvaluationError::MissingField));
}

#[test]
fn aggregations_resolve_by_name() {
    assert_eq!(lookup_aggregation("max"), Some(AggregationFunction::Max));
    assert_eq!(lookup_aggregation("MAX"), None);
    assert_eq!(lookup_aggregation("min"), None);
    assert_eq!(lookup_aggregation(""), None);
    assert_eq!(
        lookup_aggregation_prototype("max"),
        Some(AggregationPrototype { parameter: DataType::Number, result: DataType::Number })
    );
    assert_eq!(lookup_aggregation_prototype("Max"), None);
    let all = aggregation_functions();
    assert_eq!(all, vec![AggregationFunction::Max]);
    for aggregation in all {
        assert_eq!(lookup_aggregation(aggregation.name()), Some(aggregation));
        assert_eq!(lookup_aggregation_prototype(aggregation.name()), Some(aggregation.prototype()));
    }
}

#[test]
fn call_aggregation_reports_an_unknown_name() {
    let rows = rows_of("n", &["1"]);
    assert_eq!(
        call_aggregation("sum", &"n".to_string(), 0, &rows),
        Err(EvaluationError::UnknownAggregation)
    );
}

#[test]
fn aggregation_calls_are_validated() {
    assert_eq!(validate_aggregation_call("max", DataType::Number), Ok(DataType::Number));
    assert_eq!(
        validate_aggregation_call("max", DataType::Text),
        Err(ValidationError::TypeMismatch { position: 0 })
    );
    assert_eq!(
        validate_aggregation_call("avg", DataType::Number),
        Err(ValidationError::UnknownAggregation)
    );
}
