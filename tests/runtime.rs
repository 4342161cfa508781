use minilang::ast::Node;
use minilang::context::Context;
use minilang::function::Func;
use minilang::interpreter::{interp, visit, RuntimeError, MAX_DEPTH};
use minilang::lexer::{tokenize, Sym, Token};
use minilang::operators::Opcode;
use minilang::parse::{expr_parser, program_parser, statement_parser};
use minilang::scope::Scope;
use minilang::type_checker::type_check;
use minilang::type_errors::ErrorKind;
use minilang::types::LiteralType;
use minilang::value::Value;
use minilang::variable::Variable;

#[test]
fn context_shadows_and_updates_innermost() {
    let mut ctx = Context::new();
    ctx.push(Scope::new());
    ctx.insert_var(String::from("a"), true, LiteralType::I32, Value::Number(1));
    ctx.push(Scope::new());
    ctx.insert_var(String::from("a"), true, LiteralType::I32, Value::Number(2));
    assert_eq!(ctx.get_var_value("a"), Some(Value::Number(2)));
    assert_eq!(ctx.update_var(String::from("a"), Value::Number(3)), Ok(Some(Value::Number(3))));
    assert_eq!(ctx.get_var_value("a"), Some(Value::Number(3)));
    ctx.pop();
    assert_eq!(ctx.get_var_value("a"), Some(Value::Number(1)));
    assert_eq!(ctx.update_var(String::from("b"), Value::Number(3)), Ok(None));
    assert_eq!(ctx.get_var("b"), None);
}

#[test]
fn context_refuses_immutable_update() {
    let mut ctx = Context::new();
    ctx.push(Scope::new());
    ctx.insert_var(String::from("x"), false, LiteralType::Bool, Value::Bool(true));
    assert_eq!(
        ctx.update_var(String::from("x"), Value::Bool(false)),
        Err(ErrorKind::VarImmut { var: String::from("x") })
    );
    assert_eq!(ctx.get_var("x"), Some(&Variable::new(Value::Bool(true), false, LiteralType::Bool)));
}

#[test]
fn variable_update_keeps_declaration() {
    let mut v = Variable::new(Value::Number(1), true, LiteralType::I32);
    assert_eq!(v.update_value(Value::Number(9)), Value::Number(9));
    assert_eq!(v.get_value(), Value::Number(9));
    assert_eq!(v.get_type(), LiteralType::I32);
    assert!(v.is_mut());
}

#[test]
fn scope_init_binds_parameters() {
    let p = Node::FuncParam(Box::new(Node::Var(String::from("n"))), LiteralType::I32, true);
    let scope = Scope::init(vec![(&p, Value::Number(4))]);
    assert_eq!(scope.vars, vec![(String::from("n"), Variable::new(Value::Number(4), true, LiteralType::I32))]);
}

#[test]
fn func_parameter_types_and_return_type() {
    let prog = program_parser::parse(String::from("fn f(a: i32, mut b: bool) { print(a); }")).unwrap();
    let mut prog = prog;
    let node = prog.remove(0);
    if let Node::Func { name, params, r_type, body } = *node {
        let f = Func::new(name, params, r_type, body);
        assert_eq!(f.get_r_type(), LiteralType::Void);
        assert_eq!(
            f.get_param_types(),
            vec![(String::from("a"), LiteralType::I32), (String::from("b"), LiteralType::Bool)]
        );
    } else {
        panic!("expected a function");
    }
}

#[test]
fn insert_next_chains_statements() {
    let mut first = Node::Print { expr: Box::new(Node::Number(1)), next: None };
    first.insert_next(Box::new(Node::Return { expr: Box::new(Node::Number(2)), next: None }));
    assert_eq!(first.next_node(), Some(&Node::Return { expr: Box::new(Node::Number(2)), next: None }));
}

#[test]
fn statements_chain_in_written_order() {
    let chain = statement_parser::parse("let a: i32 = 1; a = 2;").unwrap();
    match *chain {
        Node::Let { next: Some(next), .. } => assert!(matches!(*next, Node::VarValue { next: None, .. })),
        _ => panic!("expected a let followed by an assignment"),
    }
}

#[test]
fn visit_evaluates_in_context() {
    let mut ctx = Context::new();
    ctx.push(Scope::new());
    ctx.insert_var(String::from("x"), false, LiteralType::I32, Value::Number(6));
    let e = Node::Expr(Box::new(Node::Var(String::from("x"))), Opcode::Mul, Box::new(Node::Number(7)));
    assert_eq!(visit(&e, &mut ctx, &vec![], MAX_DEPTH), Ok(Value::Number(42)));
    assert_eq!(visit(&e, &mut ctx, &vec![], 0), Err(RuntimeError::DepthExceeded));
}

#[test]
fn tokenize_words_numbers_symbols() {
    let toks = tokenize("let x1 = 42 >= y;").unwrap();
    assert_eq!(
        toks,
        vec![
            Token::Sym(Sym::Let),
            Token::Ident(String::from("x1")),
            Token::Sym(Sym::Assign),
            Token::Num(42),
            Token::Sym(Sym::Ge),
            Token::Ident(String::from("y")),
            Token::Sym(Sym::Semi),
        ]
    );
    assert!(tokenize("a # b").is_err());
    assert!(tokenize("99999999999").is_err());
    assert_eq!(tokenize("2147483647").unwrap(), vec![Token::Num(2147483647)]);
}

#[test]
fn call_result_used_as_statement_value_escapes_the_checker() {
    // A call as the last statement of an `if` body passes its value on as if
    // it were returned, so a function declared `bool` can hand back a number.
    let src = "fn g() -> i32 { return 1; }
        fn h() -> bool { if (true) { g(); } return true; }
        fn main() -> i32 { if (h()) { return 1; } return 0; }";
    assert!(type_check(program_parser::parse(src.to_string()).unwrap()).is_ok());
    assert_eq!(interp(program_parser::parse(src.to_string()).unwrap()), Err(RuntimeError::TypeMismatch));
}

#[test]
fn expression_tree_follows_precedence() {
    let tree = expr_parser::parse("1 + 2 * 3").unwrap();
    let expected = Node::Expr(
        Box::new(Node::Number(1)),
        Opcode::Add,
        Box::new(Node::Expr(Box::new(Node::Number(2)), Opcode::Mul, Box::new(Node::Number(3)))),
    );
    assert_eq!(*tree, expected);
    let tree = expr_parser::parse("a - b - c").unwrap();
    let expected = Node::Expr(
        Box::new(Node::Expr(Box::new(Node::Var(String::from("a"))), Opcode::Sub, Box::new(Node::Var(String::from("b"))))),
        Opcode::Sub,
        Box::new(Node::Var(String::from("c"))),
    );
    assert_eq!(*tree, expected);
}

#[test]
fn statement_as_condition_is_reported() {
    let body = Node::If {
        cond: Box::new(Node::Print { expr: Box::new(Node::Bool(true)), next: None }),
        statement: Box::new(Node::Print { expr: Box::new(Node::Number(1)), next: None }),
        next: None,
    };
    let prog = vec![Box::new(Node::Func {
        name: String::from("main"),
        params: vec![],
        r_type: None,
        body: Box::new(body),
    })];
    assert_eq!(type_check(prog).unwrap_err().errors, vec![ErrorKind::NotSupported]);
}

#[test]
fn not_supported_and_duplicate_messages() {
    assert_eq!(
        ErrorKind::FnAlreadyDefined { name: String::from("f") }.message(),
        "Function 'f' is already defined"
    );
    assert_eq!(ErrorKind::NotSupported.message(), "This construct is not supported here");
}
