use gql_functions::error::{EvaluationError, ValidationError};
use gql_functions::function::{
    call_function, lookup_function, lookup_function_prototype, scalar_functions, Prototype,
    ScalarFunction,
};
use gql_functions::types::DataType;
use gql_functions::validation::{check_arguments, validate_function_call};
use gql_functions::value::Value;

fn text(s: &str) -> Value {
    Value::Text(s.to_string())
}

#[test]
fn every_name_resolves_to_its_function() {
    assert_eq!(lookup_function("lower"), Some(ScalarFunction::Lower));
    assert_eq!(lookup_function("upper"), Some(ScalarFunction::Upper));
    assert_eq!(lookup_function("reverse"), Some(ScalarFunction::Reverse));
    assert_eq!(lookup_function("replicate"), Some(ScalarFunction::Replicate));
    assert_eq!(lookup_function("space"), Some(ScalarFunction::Space));
    assert_eq!(lookup_function("trim"), Some(ScalarFunction::Trim));
    assert_eq!(lookup_function("ltrim"), Some(ScalarFunction::LeftTrim));
    assert_eq!(lookup_function("rtrim"), Some(ScalarFunction::RightTrim));
    assert_eq!(lookup_function("len"), Some(ScalarFunction::Len));
    assert_eq!(lookup_function("ascii"), Some(ScalarFunction::Ascii));
    assert_eq!(lookup_function("left"), Some(ScalarFunction::Left));
    assert_eq!(lookup_function("datalength"), Some(ScalarFunction::DataLength));
    assert_eq!(lookup_function("char"), Some(ScalarFunction::Char));
}

#[test]
fn names_are_case_sensitive_and_exact() {
    assert_eq!(lookup_function("LOWER"), None);
    assert_eq!(lookup_function("Lower"), None);
    assert_eq!(lookup_function("lower "), None);
    assert_eq!(lookup_function("lowe"), None);
    assert_eq!(lookup_function(""), None);
    assert_eq!(lookup_function("max"), None);
    assert!(lookup_function_prototype("LOWER").is_none());
    assert!(lookup_function_prototype("substring").is_none());
}

#[test]
fn every_function_is_found_under_its_name() {
    let all = scalar_functions();
    assert_eq!(all.len(), 13);
    for function in all.iter() {
        assert_eq!(lookup_function(function.name()), Some(*function));
        assert_eq!(lookup_function_prototype(function.name()), Some(function.prototype()));
    }
    for (i, a) in all.iter().enumerate() {
        for b in all.iter().skip(i + 1) {
            assert_ne!(a, b);
            assert_ne!(a.name(), b.name());
        }
    }
}

#[test]
fn prototypes_declare_parameters_and_result() {
    let text_to_text = Prototype { parameters: vec![DataType::Text], result: DataType::Text };
    let text_to_number = Prototype { parameters: vec![DataType::Text], result: DataType::Number };
    let number_to_text = Prototype { parameters: vec![DataType::Number], result: DataType::Text };
    let text_number_to_text =
        Prototype { parameters: vec![DataType::Text, DataType::Number], result: DataType::Text };
    for name in ["lower", "upper", "reverse", "trim", "ltrim", "rtrim"] {
        assert_eq!(lookup_function_prototype(name), Some(text_to_text.clone()));
    }
    for name in ["len", "ascii", "datalength"] {
        assert_eq!(lookup_function_prototype(name), Some(text_to_number.clone()));
    }
    for name in ["space", "char"] {
        assert_eq!(lookup_function_prototype(name), Some(number_to_text.clone()));
    }
    for name in ["replicate", "left"] {
        assert_eq!(lookup_function_prototype(name), Some(text_number_to_text.clone()));
    }
}

#[test]
fn call_function_dispatches_by_name() {
    assert_eq!(call_function("lower", vec![text("ABC")]), Ok(text("abc")));
    assert_eq!(call_function("upper", vec![text("abc")]), Ok(text("ABC")));
    assert_eq!(call_function("reverse", vec![text("abc")]), Ok(text("cba")));
    assert_eq!(call_function("replicate", vec![text("ab"), Value::Number(3)]), Ok(text("ababab")));
    assert_eq!(call_function("space", vec![Value::Number(4)]), Ok(text("    ")));
    assert_eq!(call_function("trim", vec![text(" a ")]), Ok(text("a")));
    assert_eq!(call_function("ltrim", vec![text(" a ")]), Ok(text("a ")));
    assert_eq!(call_function("rtrim", vec![text(" a ")]), Ok(text(" a")));
    assert_eq!(call_function("len", vec![text("héllo")]), Ok(Value::Number(5)));
    assert_eq!(call_function("ascii", vec![text("A")]), Ok(Value::Number(65)));
    assert_eq!(call_function("left", vec![text("hello"), Value::Number(2)]), Ok(text("he")));
    assert_eq!(call_function("datalength", vec![text("héllo")]), Ok(Value::Number(6)));
    assert_eq!(call_function("char", vec![Value::Number(65)]), Ok(text("A")));
}

#[test]
fn call_function_reports_an_unknown_name() {
    assert_eq!(call_function("nope", vec![text("a")]), Err(EvaluationError::UnknownFunction));
    assert_eq!(call_function("LEN", vec![text("a")]), Err(EvaluationError::UnknownFunction));
}

#[test]
fn call_function_without_validation_fails_with_an_error() {
    assert_eq!(call_function("replicate", vec![text("a")]), Err(EvaluationError::MissingArgument));
    assert_eq!(call_function("len", vec![Value::Number(1)]), Err(EvaluationError::NotText));
    assert_eq!(
        call_function("replicate", vec![text("a"), Value::Number(-2)]),
        Err(EvaluationError::NegativeCount)
    );
}

#[test]
fn replicate_with_one_argument_is_an_arity_mismatch() {
    assert_eq!(
        validate_function_call("replicate", &vec![DataType::Text]),
        Err(ValidationError::ArityMismatch { expected: 2, found: 1 })
    );
}

#[test]
fn validation_checks_the_count_before_the_types() {
    assert_eq!(
        validate_function_call("lower", &vec![]),
        Err(ValidationError::ArityMismatch { expected: 1, found: 0 })
    );
    assert_eq!(
        validate_function_call("lower", &vec![DataType::Number, DataType::Number]),
        Err(ValidationError::ArityMismatch { expected: 1, found: 2 })
    );
    assert_eq!(
        validate_function_call("left", &vec![DataType::Number, DataType::Text, DataType::Text]),
        Err(ValidationError::ArityMismatch { expected: 2, found: 3 })
    );
}

#[test]
fn validation_reports_the_first_argument_of_another_type() {
    assert_eq!(
        validate_function_call("lower", &vec![DataType::Number]),
        Err(ValidationError::TypeMismatch { position: 0 })
    );
    assert_eq!(
        validate_function_call("replicate", &vec![DataType::Text, DataType::Text]),
        Err(ValidationError::TypeMismatch { position: 1 })
    );
    assert_eq!(
        validate_function_call("left", &vec![DataType::Number, DataType::Text]),
        Err(ValidationError::TypeMismatch { position: 0 })
    );
    assert_eq!(
        validate_function_call("char", &vec![DataType::Text]),
        Err(ValidationError::TypeMismatch { position: 0 })
    );
}

#[test]
fn validation_reports_an_unknown_function() {
    assert_eq!(
        validate_function_call("nope", &vec![DataType::Text]),
        Err(ValidationError::UnknownFunction)
    );
    assert_eq!(validate_function_call("Replicate", &vec![]), Err(ValidationError::UnknownFunction));
}

#[test]
fn validation_gives_the_result_type() {
    assert_eq!(validate_function_call("lower", &vec![DataType::Text]), Ok(DataType::Text));
    assert_eq!(validate_function_call("len", &vec![DataType::Text]), Ok(DataType::Number));
    assert_eq!(validate_function_call("char", &vec![DataType::Number]), Ok(DataType::Text));
    assert_eq!(
        validate_function_call("replicate", &vec![DataType::Text, DataType::Number]),
        Ok(DataType::Text)
    );
}

#[test]
fn a_result_type_feeds_an_enclosing_call() {
    let inner = validate_function_call("char", &vec![DataType::Number]).unwrap();
    let outer = validate_function_call("len", &vec![inner]).unwrap();
    assert_eq!(outer, DataType::Number);
    assert_eq!(
        validate_function_call("lower", &vec![outer]),
        Err(ValidationError::TypeMismatch { position: 0 })
    );
}

#[test]
fn check_arguments_compares_position_by_position() {
    let parameters = vec![DataType::Text, DataType::Number, DataType::Text];
    assert_eq!(check_arguments(&parameters, &parameters.clone()), Ok(()));
    assert_eq!(
        check_arguments(&parameters, &vec![DataType::Text, DataType::Text, DataType::Number]),
        Err(ValidationError::TypeMismatch { position: 1 })
    );
    assert_eq!(
        check_arguments(&parameters, &vec![DataType::Text, DataType::Number, DataType::Number]),
        Err(ValidationError::TypeMismatch { position: 2 })
    );
    assert_eq!(check_arguments(&vec![], &vec![]), Ok(()));
}

#[test]
fn a_validated_call_gives_a_value_of_the_declared_type() {
    let calls: Vec<(&str, Vec<Value>)> = vec![
        ("lower", vec![text("Ab")]),
        ("len", vec![text("Ab")]),
        ("ascii", vec![text("")]),
        ("char", vec![Value::Number(-5)]),
        ("left", vec![text("abc"), Value::Number(1)]),
        ("replicate", vec![text("abc"), Value::Number(2)]),
        ("space", vec![Value::Number(3)]),
        ("datalength", vec![text("é")]),
    ];
    for (name, arguments) in calls {
        let types: Vec<DataType> = arguments.iter().map(|value| value.data_type()).collect();
        let declared = validate_function_call(name, &types).unwrap();
        let value = call_function(name, arguments).unwrap();
        assert_eq!(value.data_type(), declared);
    }
}
