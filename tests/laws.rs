use minilang::interpreter::interp;
use minilang::parse::program_parser;
use minilang::sum_tree::{create_tree, expr_parser, Tree};
use minilang::type_checker::type_check;
use minilang::type_errors::{decimal_string, ErrorKind};
use minilang::operators::Opcode;
use minilang::types::LiteralType;
use minilang::value::Value;

#[test]
fn checking_twice_gives_the_same_errors() {
    let src = "fn main() { let a: i32 = true; b = 1; }";
    let first = type_check(program_parser::parse(src.to_string()).unwrap());
    let second = type_check(program_parser::parse(src.to_string()).unwrap());
    assert_eq!(first, second);
    assert!(first.is_err());
}

#[test]
fn running_twice_gives_the_same_result() {
    let src = "fn main() -> i32 { let mut n: i32 = 1; while (n < 100) { n = n * 3; } return n; }";
    let first = interp(program_parser::parse(src.to_string()).unwrap());
    let second = interp(program_parser::parse(src.to_string()).unwrap());
    assert_eq!(first, second);
    assert_eq!(first, Ok(Some(Value::Number(243))));
}

#[test]
fn let_in_while_body_does_not_leak() {
    let src = "fn main() -> i32 { let x: i32 = 5; let mut i: i32 = 0; while (i < 3) { let x: i32 = 100; i = i + 1; } return x; }";
    assert_eq!(interp(program_parser::parse(src.to_string()).unwrap()), Ok(Some(Value::Number(5))));
}

#[test]
fn assignment_inside_block_reaches_outer_variable() {
    let src = "fn main() -> i32 { let mut x: i32 = 5; if (true) { x = 7; } return x; }";
    assert_eq!(interp(program_parser::parse(src.to_string()).unwrap()), Ok(Some(Value::Number(7))));
}

#[test]
fn immutable_assignment_in_nested_block_is_rejected() {
    let src = "fn main() { let a: i32 = 1; if (true) { a = 2; } }";
    let errors = type_check(program_parser::parse(src.to_string()).unwrap()).unwrap_err();
    assert_eq!(errors.errors, vec![ErrorKind::VarImmut { var: String::from("a") }]);
}

#[test]
fn sum_tree_splits_at_first_plus() {
    let expected = Tree::Root {
        operation: '+',
        left_child: Box::new(Tree::Leaf(1)),
        right_child: Box::new(Tree::Root {
            operation: '+',
            left_child: Box::new(Tree::Leaf(20)),
            right_child: Box::new(Tree::Leaf(3)),
        }),
    };
    assert_eq!(create_tree("1+20+3"), expected);
    assert_eq!(expr_parser("42"), Tree::Leaf(42));
    assert_eq!(expr_parser(""), Tree::Nil);
    assert_eq!(
        expr_parser("7+"),
        Tree::Root { operation: '+', left_child: Box::new(Tree::Leaf(7)), right_child: Box::new(Tree::Nil) }
    );
}

#[test]
fn error_messages() {
    assert_eq!(
        ErrorKind::OpWrongType { op: Opcode::Add, typ: LiteralType::Bool }.message(),
        "Binary operation '+' cannot be applied to type 'bool'"
    );
    assert_eq!(
        ErrorKind::FnNumParamMismatch { name: String::from("test"), takes: 2, supplied: 1 }.message(),
        "Function 'test' takes '2' parameters but '1' was supplied"
    );
    assert_eq!(
        ErrorKind::VarImmut { var: String::from("a") }.message(),
        "Cannot assign twice to immutable variable 'a'"
    );
    assert_eq!(decimal_string(1203), "1203");
    assert_eq!(LiteralType::I32.to_string(), "i32");
    assert_eq!(Opcode::GEQ.to_string(), ">=");
}
