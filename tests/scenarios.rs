use minilang::interpreter::{interp, RuntimeError};
use minilang::parse::program_parser;
use minilang::type_checker::type_check;
use minilang::type_errors::{ErrorKind, TypeErrors};
use minilang::types::LiteralType;
use minilang::value::Value;

fn run(src: &str) -> Result<Option<Value>, RuntimeError> {
    let checked = program_parser::parse(src.to_string()).unwrap();
    assert!(type_check(checked).is_ok());
    interp(program_parser::parse(src.to_string()).unwrap())
}

fn errors(src: &str) -> TypeErrors {
    type_check(program_parser::parse(src.to_string()).unwrap()).unwrap_err()
}

#[test]
fn precedence_scenario() {
    assert_eq!(
        run("fn main() -> i32 { return 2 * 10 - 3 + 2 * 5; }"),
        Ok(Some(Value::Number(27)))
    );
}

#[test]
fn shadowing_scenario() {
    assert_eq!(
        run("fn main() -> i32 { let a: i32 = 20; if (a == 20) { let a: i32 = 1000; } return a; }"),
        Ok(Some(Value::Number(20)))
    );
}

#[test]
fn shadow_used_inside_block() {
    assert_eq!(
        run("fn main() -> i32 { let a: i32 = 20; if (a == 20) { let a: i32 = 1000; return a; } return a; }"),
        Ok(Some(Value::Number(1000)))
    );
}

#[test]
fn while_loop_scenario() {
    assert_eq!(
        run("fn main() -> i32 { let mut n: i32 = 0; while (n < 10) { n = n + 1; } return n; }"),
        Ok(Some(Value::Number(10)))
    );
}

#[test]
fn recursion_scenario() {
    let src = "fn fib(n: i32) -> i32 {
            if (n < 2) { return n; }
            return fib(n - 1) + fib(n - 2);
        }
        fn main() -> i32 { return fib(20); }";
    assert_eq!(run(src), Ok(Some(Value::Number(6765))));
}

#[test]
fn immutability_scenario() {
    let mut expected = TypeErrors::new();
    expected.insert_err(ErrorKind::VarImmut { var: String::from("a") });
    assert_eq!(errors("fn main() { let a: i32 = 1; a = 2; }"), expected);
}

#[test]
fn missing_return_scenario() {
    let mut expected = TypeErrors::new();
    expected.insert_err(ErrorKind::FnMissingReturn { name: String::from("f"), r_type: LiteralType::I32 });
    assert_eq!(errors("fn f() -> i32 { if (true) { return 1; } }"), expected);
}

#[test]
fn else_if_chain_scenario() {
    let src = "fn main() -> i32 { let a: bool = false; if (a && true) { return 1; } else if (a == true) { return 2; } else { return 3; } return 4; }";
    assert_eq!(run(src), Ok(Some(Value::Number(3))));
}

#[test]
fn sum_with_parameters() {
    let src = "fn sum(a: i32, b: i32) -> i32 { return a + b; }
        fn main() -> i32 { return sum(5, 10); }";
    assert_eq!(run(src), Ok(Some(Value::Number(15))));
}

#[test]
fn mutable_parameter() {
    let src = "fn inc(mut a: i32) -> i32 { a = a + 1; return a; }
        fn main() -> i32 { return inc(50); }";
    assert_eq!(run(src), Ok(Some(Value::Number(51))));
}

#[test]
fn parenthesized_precedence() {
    assert_eq!(run("fn main() -> i32 { return (1 + 2) * 8; }"), Ok(Some(Value::Number(24))));
    assert_eq!(run("fn main() -> i32 { return 8 * (1 + 2); }"), Ok(Some(Value::Number(24))));
    assert_eq!(run("fn main() -> i32 { return (2 + 3) * (2 + 3); }"), Ok(Some(Value::Number(25))));
}

#[test]
fn division_truncates_toward_zero() {
    assert_eq!(run("fn main() -> i32 { return -7 / 2; }"), Ok(Some(Value::Number(-3))));
    assert_eq!(run("fn main() -> i32 { return 7 / -2; }"), Ok(Some(Value::Number(-3))));
}

#[test]
fn division_by_zero_is_an_error() {
    assert_eq!(run("fn main() -> i32 { return 1 / 0; }"), Err(RuntimeError::DivByZero));
}

#[test]
fn overflow_is_an_error() {
    assert_eq!(run("fn main() -> i32 { return 2147483647 + 1; }"), Err(RuntimeError::Overflow));
}

#[test]
fn missing_main_is_an_error() {
    assert_eq!(run("fn f() { let a: i32 = 1; }"), Err(RuntimeError::NoMain));
}

#[test]
fn duplicate_function_is_an_error() {
    let prog = program_parser::parse("fn main() { let a: i32 = 1; } fn main() { let b: i32 = 2; }".to_string()).unwrap();
    assert_eq!(interp(prog), Err(RuntimeError::DuplicateFunction(String::from("main"))));
}

#[test]
fn void_main_returns_nothing() {
    assert_eq!(run("fn main() { let a: i32 = 1; }"), Ok(None));
}

#[test]
fn immutable_update_fails_at_run_time() {
    let prog = program_parser::parse("fn main() -> i32 { let a: i32 = 1; a = 2; return a; }".to_string()).unwrap();
    assert_eq!(interp(prog), Err(RuntimeError::VarImmut(String::from("a"))));
}

#[test]
fn variable_out_of_scope_fails_at_run_time() {
    let prog = program_parser::parse("fn main() -> i32 { if (true) { let a: i32 = 1; } return a; }".to_string()).unwrap();
    assert_eq!(interp(prog), Err(RuntimeError::VarNotDefined(String::from("a"))));
}

#[test]
fn every_error_is_reported() {
    let src = "fn main() { let a: i32 = true; let b: bool = 1 + 2; c = 1; g(); }";
    let mut expected = TypeErrors::new();
    expected.insert_err(ErrorKind::MismatchedTypesVar { var: String::from("a"), expected: LiteralType::I32, found: LiteralType::Bool });
    expected.insert_err(ErrorKind::MismatchedTypesVar { var: String::from("b"), expected: LiteralType::Bool, found: LiteralType::I32 });
    expected.insert_err(ErrorKind::VarNotInScope { var: String::from("c") });
    expected.insert_err(ErrorKind::FnNotInScope { name: String::from("g") });
    assert_eq!(errors(src), expected);
}

#[test]
fn unary_and_condition_errors() {
    let mut expected = TypeErrors::new();
    expected.insert_err(ErrorKind::UnaryOpWrongType { typ: LiteralType::Bool });
    expected.insert_err(ErrorKind::Cond { found: LiteralType::I32 });
    assert_eq!(errors("fn main() { let a: i32 = -true; while (1) { let b: i32 = 2; } }"), expected);
}

#[test]
fn immutable_update_with_ill_typed_value_is_rejected() {
    let mut expected = TypeErrors::new();
    expected.insert_err(ErrorKind::VarNotInScope { var: String::from("z") });
    expected.insert_err(ErrorKind::VarImmut { var: String::from("a") });
    assert_eq!(errors("fn main() { let a: i32 = 1; a = z; }"), expected);
}

#[test]
fn duplicate_function_is_reported() {
    let mut expected = TypeErrors::new();
    expected.insert_err(ErrorKind::FnAlreadyDefined { name: String::from("main") });
    expected.insert_err(ErrorKind::VarImmut { var: String::from("a") });
    assert_eq!(errors("fn main() { let a: i32 = 1; a = 2; } fn main() { let b: i32 = 2; }"), expected);
}

#[test]
fn break_is_reported_as_not_supported() {
    let mut expected = TypeErrors::new();
    expected.insert_err(ErrorKind::NotSupported);
    assert_eq!(errors("fn main() { while (true) { break; } }"), expected);
}

#[test]
fn long_loop_runs_to_the_end() {
    assert_eq!(
        run("fn main() -> i32 { let mut n: i32 = 0; while (n < 100000) { n = n + 1; } return n; }"),
        Ok(Some(Value::Number(100000)))
    );
}
