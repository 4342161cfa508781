use minilang::parse::{
    content_parser, expr_parser, keyword_parser, let_parser, logexpr_parser, relexpr_parser,
    statement_parser,
};

#[test]
fn test_content() {
    assert!(content_parser::parse("let a: i32 = 12; let b: i32 = 24;").is_ok())
}

#[test]
fn expr_parser_test_expr_number() {
    assert!(expr_parser::parse("123").is_ok());
}

#[test]
fn expr_parser_test_expr_number_paran() {
    assert!(expr_parser::parse("(1)").is_ok());
    assert!(expr_parser::parse("(1+2))").is_err());
    assert!(expr_parser::parse("((1+2))").is_ok());
}

#[test]
fn expr_parser_test_expr_var() {
    assert!(expr_parser::parse("a + b + 2 - 5").is_ok());
}

#[test]
fn expr_parser_test_expr_op() {
    assert!(expr_parser::parse("a + b").is_ok());    // Add
    assert!(expr_parser::parse("a - b").is_ok());    // Sub
    assert!(expr_parser::parse("a / b").is_ok());    // Div
    assert!(expr_parser::parse("a * b").is_ok());    // Mul
}

#[test]
fn let_parser_test_let_number() {
    assert!(let_parser::parse("let a:u32 = 2;").is_ok());
}

#[test]
fn let_parser_test_let_expr() {
    assert!(let_parser::parse("let b : i32 = 2 + a;").is_ok());
}

#[test]
fn test_let_op() {
    assert!(let_parser::parse("let b : i32 = 1 + 2;").is_ok());   // Add
    assert!(let_parser::parse("let a : u32 = 2 - b;").is_ok());   // Sub
    assert!(let_parser::parse("let b : i8 = 2 / a;").is_ok());   // Div
    assert!(let_parser::parse("let b : i16 = 2 * a;").is_ok());   // Mul
}

#[test]
fn logexpr_parser_test_logexpr_expr() {
    assert!(logexpr_parser::parse("a && 123").is_ok()); // Var Log Num
    assert!(logexpr_parser::parse("true && 123").is_ok()); // bool Log Num
    assert!(logexpr_parser::parse("a && true").is_ok()); // Var Log Bool
}

#[test]
fn logexpr_parser_test_logexpr_rel() {
    assert!(logexpr_parser::parse("a > 1 && b < 3").is_ok());
}

#[test]
fn logexpr_parser_test_logexpr_log() {
    assert!(logexpr_parser::parse("a && b || c && a").is_ok());
}

#[test]
fn logexpr_parser_test_logexpr_rellog() {
    assert!(logexpr_parser::parse("a || b && a < c").is_ok());
    assert!(logexpr_parser::parse("a < b && a == c").is_ok());

}

#[test]
fn logexpr_parser_test_expr_number_paran() {
    assert!(logexpr_parser::parse("a || (1)").is_ok());
    assert!(logexpr_parser::parse("b && (1+2))").is_err());
    assert!(logexpr_parser::parse("c && ((1+2))").is_ok());
}

#[test]
fn statement_parser_test_state_let() {
    assert!(statement_parser::parse("let a: i32 = 12;").is_ok());
    assert!(statement_parser::parse("let a: i32 = 12; let a: i32 = 12; let a: i32 = 12; let a: i32 = 12;").is_ok());
    assert!(statement_parser::parse("let b: bool = a > 1 && b < 3;").is_ok());
    assert!(statement_parser::parse("let b: bool = a && b || c && a;").is_ok());
    assert!(statement_parser::parse("let xyz: bool = a || b && a < c;").is_ok());
    assert!(statement_parser::parse("let xyz: bool = a < b && a == c;").is_ok());
    assert!(statement_parser::parse("let xyz: bool = a && a < c;").is_ok());
    assert!(statement_parser::parse("let xyz: bool = a < b || a + 6;").is_ok());
}

#[test]
fn statement_parser_test_state_if() {
    assert!(statement_parser::parse("if (b) {let xyz: bool = a < b || a + 6;}").is_ok());
    assert!(statement_parser::parse("if (b > 5) {let xyz: i32 = a < b || a + 6;}").is_ok());
    assert!(statement_parser::parse("if (b && c) {let xyz: bool = a < b || a + 6;}").is_ok());

}

#[test]
fn statement_parser_test_state_rec_if() {
    assert!(
        statement_parser::parse(
            "if (b && c) {
                let xyz: bool = a < b || a + 6;

                if (xyz == true) {
                    let xyz: bool = c;
                }
            }"
        ).is_ok());
}

#[test]
fn statement_parser_test_state_if_else() {
    assert!(
        statement_parser::parse(
            "if (b && c) {
                let xyz: bool = a < b || a + 6;
            } else {
                let b: i32 = 15;
            }"
        ).is_ok());
}

#[test]
fn statement_parser_test_state_rec_if_else() {
    assert!(
        statement_parser::parse(
            "if (b && c) {
                let xyz: bool = a < b || a + 6;
            } else {
                if (c == 5) {
                    let a: i32 = 123123 == b;
                } else {
                    let a: i32 = b && c;
                }

                let b: i32 = 15;
            }"
        ).is_ok()
    );
}

#[test]
fn statement_parser_test_state_else_if() {
    assert!(
        statement_parser::parse(
            "if (b && c) {
                let xyz: bool = a < b || a + 6;
            } else if (b && d) {
                if (c == 5) {
                    let a: i32 = 123123 == b;
                } else {
                    let a: i32 = b && c;
                }

            let b: i32 = 15;
            }"
        ).is_ok()
    );
}

#[test]
fn statement_parser_test_state_else_if_else() {
    assert!(
        statement_parser::parse(
            "if (b && c) {
                let xyz: bool = a < b || a + 6;
            } else if (b && d) {
                if (c == 5) {
                    let a: i32 = 123123 == b;
                } else {
                    let a: i32 = b && c;
                }

                let b: i32 = 15;
            } else {
                let asd: bool = true;
            }"
        ).is_ok()
    );
}

#[test]
fn statement_parser_test_state_mul_else_if() {
    assert!(
        statement_parser::parse(
            "if (b && c) {
                let xyz: bool = a < b || a + 6;
            } else if (b && d) {
                if (c == 5) {
                    let a: i32 = 123123 == b;
                } else {
                    let a: i32 = b && c;
                }
                let b: i32 = 15;
            } else if (b) {
                let c: i32 = 12;
            } else if (c) {
                let d: i32 = a && b;
            } else {
                let asd: bool = true;
            }"
        ).is_ok()
    );
}

#[test]
fn expr_parser_test_relexpr_number() {
    assert!(expr_parser::parse("123 == 123").is_ok());
}

#[test]
fn expr_parser_test_relexpr_number_paran() {
    assert!(expr_parser::parse("a < (1+2-3)").is_ok());
    assert!(expr_parser::parse("b > (tjena)").is_ok());
    assert!(expr_parser::parse("c == ((1+2))").is_ok());
}

#[test]
fn test_relexpr_var() {
    assert!(expr_parser::parse("a + b + 2 - 5 != c").is_ok());
}

#[test]
fn test_rlexpr_op() {
    assert!(expr_parser::parse("hej > a + b").is_ok()); // GT
    assert!(expr_parser::parse("c < a - b").is_ok()); // LT
    assert!(expr_parser::parse("a <= b / 3").is_ok()); // LEQ
    assert!(expr_parser::parse("a >= b * 3 / 5").is_ok()); // GEQ
}

#[test]
fn expr_parser_test_logexpr_expr() {
    assert!(expr_parser::parse("a && 123").is_ok()); // Var Log Num
    assert!(expr_parser::parse("true && 123").is_ok()); // bool Log Num
    assert!(expr_parser::parse("a && true").is_ok()); // Var Log Bool
}

#[test]
fn expr_parser_test_logexpr_rel() {
    assert!(expr_parser::parse("a > 1 && b < 3").is_ok());
}

#[test]
fn expr_parser_test_logexpr_log() {
    assert!(expr_parser::parse("a && b || c && a").is_ok());
}

#[test]
fn expr_parser_test_logexpr_rellog() {
    assert!(expr_parser::parse("a || b && a < c").is_ok());
    assert!(expr_parser::parse("a < b && a == c").is_ok());
}

#[test]
fn test_logexpr_exprlog() {
    assert!(expr_parser::parse("a && a < c").is_ok());
    assert!(expr_parser::parse("a < b || a + 6").is_ok());
}

#[test]
fn test_logexpr_number_paran() {
    assert!(expr_parser::parse("a || (1)").is_ok());
    assert!(expr_parser::parse("b && (1+2))").is_err());
    assert!(expr_parser::parse("c && ((1+2))").is_ok());
}

#[test]
fn keyword_parser_test_let_number() {
    assert!(keyword_parser::parse("let a:u32 = 2").is_ok());
}

#[test]
fn keyword_parser_test_let_expr() {
    assert!(keyword_parser::parse("let b : i32 = 2 + a").is_ok());
}

#[test]
fn test_let_rel() {
    assert!(keyword_parser::parse("let b : bool = a < b").is_ok());
    assert!(keyword_parser::parse("let b : bool = a == b").is_ok());
    assert!(keyword_parser::parse("let b : bool = a != b").is_ok());
    assert!(keyword_parser::parse("let b : bool = a > b").is_ok());
    assert!(keyword_parser::parse("let b : bool = a >= b").is_ok());
    assert!(keyword_parser::parse("let b : bool = a <= b").is_ok());
}

#[test]
fn test_let_log() {
    assert!(keyword_parser::parse("let b : bool = a && b").is_ok());
    assert!(keyword_parser::parse("let b : bool = a || b").is_ok());
}

#[test]
fn relexpr_parser_test_relexpr_number() {
    assert!(relexpr_parser::parse("123 == 123").is_ok());
}

#[test]
fn relexpr_parser_test_relexpr_number_paran() {
    assert!(relexpr_parser::parse("a < (1+2-3)").is_ok());
    assert!(relexpr_parser::parse("b > (tjena)").is_ok());
    assert!(relexpr_parser::parse("c == ((1+2))").is_ok());
}

#[test]
fn relexpr_parser_test_expr_var() {
    assert!(relexpr_parser::parse("a + b + 2 - 5 != c").is_ok());
}

#[test]
fn relexpr_parser_test_expr_op() {
    assert!(relexpr_parser::parse("hej > a + b").is_ok());    // GT
    assert!(relexpr_parser::parse("c < a - b").is_ok());    // LT
    assert!(relexpr_parser::parse("a <= b / 3").is_ok());    // LEQ
    assert!(relexpr_parser::parse("a >= b * 3 / 5").is_ok());    // GEQ
}

#[test]
fn test_state_while() {
    assert!(statement_parser::parse(
        "while (done) {
                let x: i32 = x + 1;

                if (x == 5) {
                    done = true;
                }
            }"
    )
    .is_ok());
}

#[test]
fn test_state_rec_while() {
    assert!(statement_parser::parse(
        "while (done) {
                let x: i32 = x + 1;
                
                while (x > 5) {
                    let y: i32 = 12 - x;
                    x = x - 1;
                }

                if (x == 5) {
                    let done: bool = false;
                }
            }"
    )
    .is_ok());
}

#[test]
fn test_state_loop_mod() {
    assert!(statement_parser::parse(
        "while (done) {
                let x: i32 = x + 1;
                
                while (x > 5) {
                    let y: i32 = 12 - x;
                    x = x - 1;
                    continue;
                }

                if (x == 5) {
                    let done: bool = false;
                    break;
                }
            }"
    )
    .is_ok());
}

#[test]
fn test_state_return() {
    assert!(statement_parser::parse(
        "if (true) {
                return 5;
            }"
    )
    .is_ok());
}

#[test]
fn test_state_func_call() {
    assert!(statement_parser::parse("main();").is_ok());
}

#[test]
fn test_state_func_call_var() {
    assert!(statement_parser::parse("main(x);").is_ok());
}

#[test]
fn test_state_func_call_mul_vars() {
    assert!(statement_parser::parse("main(x, y);").is_ok());
}

#[test]
fn test_state_func_call_num() {
    assert!(statement_parser::parse("main(x, y, 123);").is_ok());
}

#[test]
fn test_state_func_call_bool() {
    assert!(statement_parser::parse("main(x, y, 123, true);").is_ok());
}

#[test]
fn test_state_func_call_paran() {
    assert!(statement_parser::parse("main x, y, 123, true);").is_err());
    assert!(statement_parser::parse("main x, y, 123, true;").is_err());
}

#[test]
fn test_state_assign_func() {
    assert!(statement_parser::parse("res = sum();").is_ok());
}

#[test]
fn test_state_def_var_func() {
    assert!(statement_parser::parse("let res: i32 = sum();").is_ok());
}
