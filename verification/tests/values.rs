use gql_functions::error::EvaluationError;
use gql_functions::types::DataType;
use gql_functions::value::{number_argument, text_argument, Value};

#[test]
fn as_text_extracts_a_text() {
    assert_eq!(Value::Text("abc".to_string()).as_text(), Ok("abc"));
    assert_eq!(Value::Number(3).as_text(), Err(EvaluationError::NotText));
}

#[test]
fn as_number_extracts_a_number() {
    assert_eq!(Value::Number(-7).as_number(), Ok(-7));
    assert_eq!(Value::Text("7".to_string()).as_number(), Err(EvaluationError::NotNumber));
}

#[test]
fn data_type_follows_the_variant() {
    assert_eq!(Value::Text(String::new()).data_type(), DataType::Text);
    assert_eq!(Value::Number(0).data_type(), DataType::Number);
}

#[test]
fn arguments_are_read_by_position() {
    let inputs = vec![Value::Text("a".to_string()), Value::Number(2)];
    assert_eq!(text_argument(&inputs, 0), Ok("a"));
    assert_eq!(number_argument(&inputs, 1), Ok(2));
    assert_eq!(text_argument(&inputs, 1), Err(EvaluationError::NotText));
    assert_eq!(number_argument(&inputs, 0), Err(EvaluationError::NotNumber));
    assert_eq!(text_argument(&inputs, 2), Err(EvaluationError::MissingArgument));
    assert_eq!(number_argument(&inputs, 2), Err(EvaluationError::MissingArgument));
}
