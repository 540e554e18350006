use numbat_proc::eval::{prepare_code, EvalError, NumbatConfig, NumbatWrapper};

#[test]
fn test_minimal_expression() {
    let mut numbat = NumbatWrapper::new(NumbatConfig::default()).unwrap();
    let result = numbat.eval_block("1 + 1".to_string());
    assert_eq!(result.ok(), Some("2".to_string()));
}

#[test]
fn test_minimal_expression_with_units() {
    let mut numbat = NumbatWrapper::new(NumbatConfig::default()).unwrap();
    let result = numbat.eval_block("1 V + 1 V".to_string());
    assert_eq!(result.ok(), Some("2 V".to_string()));
}

#[test]
fn test_minimal_expression_with_units2() {
    let mut numbat = NumbatWrapper::new(NumbatConfig::default()).unwrap();
    let result = numbat.eval_block("1 V + 1 V -> mV".to_string());
    assert_eq!(result.ok(), Some("2000 mV".to_string()));
}

#[test]
fn test_double_line_expression() {
    let mut numbat = NumbatWrapper::new(NumbatConfig::default()).unwrap();
    let result = numbat.eval_block("let voltage = 1 V + 1 V -> mV\nvoltage #=".to_string());
    assert_eq!(result.ok(), Some("2000 mV".to_string()));
}

#[test]
fn test_let_expression() {
    let mut numbat = NumbatWrapper::new(NumbatConfig::default()).unwrap();
    let result = numbat.eval_block("let voltage = 1 V + 1 V -> mV".to_string());
    assert_eq!(result.ok(), Some("2000 mV".to_string()));
}

#[test]
fn binding_result_equals_manual_echo_of_bound_name() {
    let mut numbat = NumbatWrapper::new(NumbatConfig::default()).unwrap();
    let bound = numbat.eval_block("let x = 1 V + 1 V -> mV".to_string()).unwrap();
    let echoed = numbat.eval_block("x".to_string()).unwrap();
    assert_eq!(bound, echoed);
}

#[test]
fn same_expression_twice_gives_same_result() {
    let mut numbat = NumbatWrapper::new(NumbatConfig::default()).unwrap();
    let first = numbat.eval_block("1 + 1".to_string());
    let second = numbat.eval_block("1 + 1".to_string());
    assert_eq!(first.ok(), Some("2".to_string()));
    assert_eq!(second.ok(), Some("2".to_string()));
}

#[test]
fn binding_without_name_is_rejected() {
    let mut numbat = NumbatWrapper::new(NumbatConfig::default()).unwrap();
    let result = numbat.eval_block("let".to_string());
    assert_eq!(result, Err(EvalError::MissingBindingName));
}

#[test]
fn empty_input_yields_no_displayable_value() {
    let mut numbat = NumbatWrapper::new(NumbatConfig::default()).unwrap();
    let result = numbat.eval_block("".to_string());
    assert_eq!(result, Err(EvalError::NoDisplayableValue));
}

#[test]
fn malformed_expression_surfaces_backend_diagnostic() {
    let mut numbat = NumbatWrapper::new(NumbatConfig::default()).unwrap();
    let result = numbat.eval_block("1 +".to_string());
    match result {
        Err(EvalError::Interpreter(msg)) => assert!(!msg.is_empty()),
        other => panic!("expected an interpreter error, got {:?}", other),
    }
}

#[test]
fn prepare_code_appends_bound_name() {
    let prepared = prepare_code(&"let x = 1 V + 1 V -> mV".to_string());
    assert_eq!(prepared, Ok("let x = 1 V + 1 V -> mV\nx".to_string()));
}

#[test]
fn prepare_code_leaves_plain_statement_unchanged() {
    let prepared = prepare_code(&"1 + 1".to_string());
    assert_eq!(prepared, Ok("1 + 1".to_string()));
}

#[test]
fn error_messages_name_the_failed_operation() {
    assert_eq!(
        EvalError::MissingBindingName.message(),
        "Failed to extract variable".to_string()
    );
    assert_eq!(EvalError::NoDisplayableValue.message(), "Failed to get value".to_string());
    assert_eq!(
        EvalError::Prelude.message(),
        "Interpreter error in Prelude code".to_string()
    );
    assert_eq!(
        EvalError::Interpreter("boom".to_string()).message(),
        "boom".to_string()
    );
}

#[test]
fn session_without_prelude_still_constructs() {
    let config = NumbatConfig { load_prelude: false, load_user_init: false };
    let numbat = NumbatWrapper::new(config);
    assert!(numbat.is_ok());
}
