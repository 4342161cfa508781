use minilang::operators::Opcode;
use minilang::parse::program_parser;
use minilang::type_checker::type_check;
use minilang::type_errors::{ErrorKind, TypeErrors};
use minilang::types::LiteralType;

#[test]
fn op_type_num_expr_bool() {
    let input = program_parser::parse(
        "fn main() {
				let a: i32 = 1 + true;	
			}"
        .to_string(),
    )
    .unwrap();

    let mut errors = TypeErrors::new();
    errors.insert_err(ErrorKind::OpWrongType {
        op: Opcode::Add,
        typ: LiteralType::Bool,
    });
    assert_eq!(type_check(input).unwrap_err(), errors);
}

#[test]
fn op_type_num_expr_num() {
    let input = program_parser::parse(
        "fn main() {
				let a: i32 = 1 + 2;	
			}"
        .to_string(),
    )
    .unwrap();

    assert!(type_check(input).is_ok());
}

#[test]
fn op_type_rel_expr_num() {
    let input = program_parser::parse(
        "fn main() {
				let a: bool = 1 > 2;	
			}"
        .to_string(),
    )
    .unwrap();

    assert!(type_check(input).is_ok());
}

#[test]
fn op_type_rel_expr_bool() {
    let input = program_parser::parse(
        "fn main() {
				let a: bool = 1 > false;	
			}"
        .to_string(),
    )
    .unwrap();

    let mut errors = TypeErrors::new();
    errors.insert_err(ErrorKind::OpWrongType {
        op: Opcode::GT,
        typ: LiteralType::Bool,
    });
    assert_eq!(type_check(input).unwrap_err(), errors);
}

#[test]
fn op_type_log_expr_mix() {
    let input = program_parser::parse(
        "fn main() {
				let a: bool = 1 == false;	
			}"
        .to_string(),
    )
    .unwrap();

    let mut errors = TypeErrors::new();
    errors.insert_err(ErrorKind::MismatchedTypesOp {
        op: Opcode::EQ,
        expected: LiteralType::I32,
        found: LiteralType::Bool,
    });
    assert_eq!(type_check(input).unwrap_err(), errors);

    let input = program_parser::parse(
        "fn main() {
				let a: bool = false != 1;	
			}"
        .to_string(),
    )
    .unwrap();

    let mut errors = TypeErrors::new();
    errors.insert_err(ErrorKind::MismatchedTypesOp {
        op: Opcode::NEQ,
        expected: LiteralType::Bool,
        found: LiteralType::I32,
    });
    assert_eq!(type_check(input).unwrap_err(), errors);
}

#[test]
fn let_i32() {
    let input = program_parser::parse(
        "fn main() {
				let a: i32 = 1 + 2;	
			}"
        .to_string(),
    )
    .unwrap();

    assert!(type_check(input).is_ok());
}

#[test]
fn let_bool() {
    let input = program_parser::parse(
        "fn main() {
				let a: bool = true || false;	
			}"
        .to_string(),
    )
    .unwrap();

    assert!(type_check(input).is_ok());
}

#[test]
fn mm_let_i32() {
    let input = program_parser::parse(
        "fn main() {
				let a: i32 = 1 > 5;	
			}"
        .to_string(),
    )
    .unwrap();

    let mut errors = TypeErrors::new();
    errors.insert_err(ErrorKind::MismatchedTypesVar {
        var: String::from("a"),
        expected: LiteralType::I32,
        found: LiteralType::Bool,
    });
    assert_eq!(type_check(input).unwrap_err(), errors);
}

#[test]
fn mm_let_bool() {
    let input = program_parser::parse(
        "fn main() {
				let a: bool = 1 + 5;	
			}"
        .to_string(),
    )
    .unwrap();

    let mut errors = TypeErrors::new();
    errors.insert_err(ErrorKind::MismatchedTypesVar {
        var: String::from("a"),
        expected: LiteralType::Bool,
        found: LiteralType::I32,
    });
    assert_eq!(type_check(input).unwrap_err(), errors);
}

#[test]
fn var_not_in_scope() {
    let input = program_parser::parse(
        "fn main() {
				let mut a: bool = true;
				let b: bool = a && c;
			}"
        .to_string(),
    )
    .unwrap();

    let mut errors = TypeErrors::new();
    errors.insert_err(ErrorKind::VarNotInScope {
        var: String::from("c"),
    });
    assert_eq!(type_check(input).unwrap_err(), errors);
}

#[test]
fn var_in_scope() {
    let input = program_parser::parse(
        "fn main() {
				let mut a: bool = true;
				let mut c: bool = false;
				let b: bool = a && c;
			}"
        .to_string(),
    )
    .unwrap();

    assert!(type_check(input).is_ok());
}

#[test]
fn var_let_mm() {
    let input = program_parser::parse(
        "fn main() {
				let mut a: bool = true;
				let mut b: bool = false;
				let c: i32 = a && b;
			}"
        .to_string(),
    )
    .unwrap();

    let mut errors = TypeErrors::new();
    errors.insert_err(ErrorKind::MismatchedTypesVar {
        var: String::from("c"),
        expected: LiteralType::I32,
        found: LiteralType::Bool,
    });
    assert_eq!(type_check(input).unwrap_err(), errors);
}

#[test]
fn var_update() {
    let input = program_parser::parse(
        "fn main() {
				let mut a: bool = true;
				let b: i32 = 0;
				let mut c: i32 = false;
				b = a && c;
			}"
        .to_string(),
    )
    .unwrap();

    let mut errors = TypeErrors::new();
    errors.insert_err(ErrorKind::MismatchedTypesVar {
        var: String::from("c"),
        expected: LiteralType::I32,
        found: LiteralType::Bool,
    });
    errors.insert_err(ErrorKind::OpWrongType {
        op: Opcode::AND,
        typ: LiteralType::I32,
    });
    errors.insert_err(ErrorKind::MismatchedTypesVar {
        var: String::from("b"),
        expected: LiteralType::I32,
        found: LiteralType::Bool,
    });
    assert_eq!(type_check(input).unwrap_err(), errors);

    let input = program_parser::parse(
        "fn main() {
				let mut a: bool = true;
				let b: i32 = 0;
				let mut c: i32 = false;
				let b: i32 = a && c;
			}"
        .to_string(),
    )
    .unwrap();

    let mut errors = TypeErrors::new();
    errors.insert_err(ErrorKind::MismatchedTypesVar {
        var: String::from("c"),
        expected: LiteralType::I32,
        found: LiteralType::Bool,
    });
    errors.insert_err(ErrorKind::OpWrongType {
        op: Opcode::AND,
        typ: LiteralType::I32,
    });
    errors.insert_err(ErrorKind::MismatchedTypesVar {
        var: String::from("b"),
        expected: LiteralType::I32,
        found: LiteralType::Bool,
    });
    assert_eq!(type_check(input).unwrap_err(), errors);

    let input = program_parser::parse(
        "fn main() {
				let mut a: bool = true;
				let b: bool = false;
				let mut c: bool = false;
				b = a && c;
			}"
        .to_string(),
    )
    .unwrap();

    let mut errors = TypeErrors::new();
    errors.insert_err(ErrorKind::VarImmut {
        var: String::from("b"),
    });
    assert_eq!(type_check(input).unwrap_err(), errors);
}

#[test]
fn fn_params() {
    let input = program_parser::parse(
        "fn main() {
				let a: i32 = 5;
				let b: bool = false;
				test(a);
				let c: i32 = 4;
			}
			
			fn test(a: i32, b: i32) {
				let c: i32 = 5;	
			}"
        .to_string(),
    )
    .unwrap();

    let mut errors = TypeErrors::new();
    errors.insert_err(ErrorKind::FnNumParamMismatch {
        name: String::from("test"),
        takes: 2,
        supplied: 1,
    });
    assert_eq!(type_check(input).unwrap_err(), errors);

    let input = program_parser::parse(
        "fn main() {
				let a: i32 = 5;
				let b: bool = false;
				test(a, b);
				let c: i32 = 4;
			}
			
			fn test(a: i32, b: i32) {
				let c: i32 = 5;	
			}"
        .to_string(),
    )
    .unwrap();

    let mut errors = TypeErrors::new();
    errors.insert_err(ErrorKind::FnParamTypeMismatch {
        name: String::from("test"),
        param: String::from("b"),
        expected: LiteralType::I32,
        found: LiteralType::Bool,
    });
    assert_eq!(type_check(input).unwrap_err(), errors);
}

#[test]
fn fn_return() {
    let input = program_parser::parse(
        "fn main() {
				test();
			}
			
			fn test() -> i32 {
            return true;
			}"
        .to_string(),
    )
    .unwrap();

    let mut errors = TypeErrors::new();
    errors.insert_err(ErrorKind::FnReturnMismatch {
        name: String::from("test"),
        expected: LiteralType::I32,
        found: LiteralType::Bool,
    });
    assert_eq!(type_check(input).unwrap_err(), errors);

    let input = program_parser::parse(
        "fn main() {
				test();
			}
			
			fn test() -> i32 {
            if (true) {
                return 1;
            }
			}"
        .to_string(),
    )
    .unwrap();

    let mut errors = TypeErrors::new();
    errors.insert_err(ErrorKind::FnMissingReturn {
        name: String::from("test"),
        r_type: LiteralType::I32,
    });
    assert_eq!(type_check(input).unwrap_err(), errors);

    let input = program_parser::parse(
        "fn main() {
				test();
			}
			
			fn test() -> i32 {
            if (true) {
                return 0;
            }
            return 1;
			}"
        .to_string(),
    )
    .unwrap();

    assert!(type_check(input).is_ok());
}

#[test]
fn cond_type() {
    let input = program_parser::parse(
        "fn main() {
				test();
			}
			
			fn test() -> i32 {
            if(123) {
                return 0;
            } else {
                return 1;
            }
            return 1;
			}"
        .to_string(),
    )
    .unwrap();

    let mut errors = TypeErrors::new();
    errors.insert_err(ErrorKind::Cond {
        found: LiteralType::I32,
    });
    assert_eq!(type_check(input).unwrap_err(), errors);

    let input = program_parser::parse(
        "fn main() {
				test();
			}
			
			fn test() -> i32 {
            while(123) {
                return 0;
            }
            return 1;
			}"
        .to_string(),
    )
    .unwrap();

    let mut errors = TypeErrors::new();
    errors.insert_err(ErrorKind::Cond {
        found: LiteralType::I32,
    });
    assert_eq!(type_check(input).unwrap_err(), errors);

    let input = program_parser::parse(
        "fn main() {
				test();
			}
			
			fn test() -> i32 {
            if(true) {
                return 0;
            } else if (123) {
                return 1;
            }
            return 1;
			}"
        .to_string(),
    )
    .unwrap();

    let mut errors = TypeErrors::new();
    errors.insert_err(ErrorKind::Cond {
        found: LiteralType::I32,
    });
    assert_eq!(type_check(input).unwrap_err(), errors);
}
