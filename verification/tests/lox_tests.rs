use relox::error::RuntimeError;
use relox::lox::{run_with_output, run_with_result, Error, ExecErrorType, Lox};
use relox::value::Value;

#[test]
fn test_run_expression_calculator() {
    let lox = Lox::new();
    let result = lox.run("1 - (2 * 3) < 4 == true".to_string());
    assert_eq!(result, Ok(Value::Boolean(true)));
}

#[test]
fn dump_ast_is_stable() {
    let lox = Lox::new();
    let first = lox.dump_ast("1 - (2 * 3) < 4 == true".to_string()).unwrap();
    let second = lox.dump_ast("1 - (2 * 3) < 4 == true".to_string()).unwrap();
    assert_eq!("(== (< (- 1 (group (* 2 3))) 4) true)", first);
    assert_eq!(first, second);
}

#[test]
fn left_associative_subtraction() {
    let lox = Lox::new();
    assert_eq!(
        "(- (- 5 4) 2)",
        lox.dump_ast("5 - 4 - 2".to_string()).unwrap()
    );
    assert_eq!(
        Ok(Value::Number((-1.0f64).to_bits())),
        lox.run("5 - 4 - 2".to_string())
    );
}

#[test]
fn type_strict_equality() {
    let lox = Lox::new();
    assert_eq!(Ok(Value::Boolean(false)), lox.run("2 == \"2\"".to_string()));
    assert_eq!(Ok(Value::Boolean(true)), lox.run("nil == nil".to_string()));
    assert_eq!(Ok(Value::Boolean(true)), lox.run("2 == 2.0".to_string()));
}

#[test]
fn operator_type_errors() {
    let lox = Lox::new();
    assert!(matches!(
        lox.run("\"foo\" + true".to_string()),
        Err(Error::Runtime(RuntimeError::OperandsMustBeTwoNumbersOrTwoStrings { .. }))
    ));
    assert!(matches!(
        lox.run("-\"foo\"".to_string()),
        Err(Error::Runtime(RuntimeError::OperandMustBeANumber { .. }))
    ));
    assert!(matches!(
        lox.run("\"foo\" > 2".to_string()),
        Err(Error::Runtime(RuntimeError::OperandsMustBeNumbers { .. }))
    ));
}

#[test]
fn variable_lifecycle() {
    let lox = Lox::new();

    let mut output = String::new();
    assert!(lox.run_program("var x; print x;".to_string(), &mut output).is_ok());
    assert_eq!("nil\n", output);

    let mut output = String::new();
    assert!(lox
        .run_program("var x = 2; x = 3; print x;".to_string(), &mut output)
        .is_ok());
    assert_eq!("3\n", output);

    let mut output = String::new();
    assert!(matches!(
        lox.run_program("print y;".to_string(), &mut output),
        Err(Error::Runtime(RuntimeError::UndefinedVariable { .. }))
    ));
    assert_eq!("", output);

    let mut output = String::new();
    assert!(matches!(
        lox.run_program("y = 2;".to_string(), &mut output),
        Err(Error::Runtime(RuntimeError::UndefinedVariable { .. }))
    ));
}

#[test]
fn program_output_order_and_stop_on_error() {
    let lox = Lox::new();
    let mut output = String::new();
    let result = lox.run_program(
        "print 1; print \"two\"; print -nil; print 3;".to_string(),
        &mut output,
    );
    assert!(matches!(
        result,
        Err(Error::Runtime(RuntimeError::OperandMustBeANumber { .. }))
    ));
    assert_eq!("1\n\"two\"\n", output);
}

#[test]
fn string_concatenation_program() {
    let lox = Lox::new();
    let mut output = String::new();
    assert!(lox
        .run_program("var a = \"foo\" + \"bar\"; print a;".to_string(), &mut output)
        .is_ok());
    assert_eq!("\"foobar\"\n", output);
}

#[test]
fn run_with_output_success() {
    let mut output = String::new();
    let err = run_with_output("1 - (2 * 3) < 4 == true".to_string(), &mut output);
    assert!(err.is_none());
    assert_eq!("true\n", output);
}

#[test]
fn run_with_output_errors() {
    let mut output = String::new();
    let err = run_with_output("\"foo".to_string(), &mut output);
    assert_eq!(Some(ExecErrorType::GeneralError), err);
    assert_eq!("[line 1] Error: unterminated string\n", output);

    let mut output = String::new();
    let err = run_with_output("-\"foo\"".to_string(), &mut output);
    assert_eq!(Some(ExecErrorType::RuntimeError), err);
    assert_eq!("[line 1] Error: operand must be a number\n", output);
}

#[test]
fn run_with_result_collects_output() {
    let result = run_with_result("2 + 3".to_string());
    assert_eq!("5\n", result.output);
    assert!(result.err.is_none());
}

#[test]
fn scan_errors_carry_their_line() {
    let lox = Lox::new();
    assert!(matches!(
        lox.run("\"foo".to_string()),
        Err(Error::Scan(relox::scanner::Error::UnterminatedStringError { line: 1 }))
    ));
    assert!(matches!(
        lox.run("?".to_string()),
        Err(Error::Scan(relox::scanner::Error::UnexpectedCharacterError { line: 1, c: '?' }))
    ));
}

#[test]
fn division_and_number_display() {
    let lox = Lox::new();
    let mut output = String::new();
    assert!(lox
        .run_program("print 15 / 5; print 2.4; print 0 - 1;".to_string(), &mut output)
        .is_ok());
    assert_eq!("3\n2.4\n-1\n", output);
}
