//! The grammar, as functions from a position in a sequence of tokens to the
//! tree that starts there and the position after it.

use vstd::prelude::*;

use crate::lexer::{Sym, TokenView};
use crate::operators::Opcode;
use crate::tree_view::NodeView;
use crate::types::LiteralType;

verus! {

/// What parsing from a position gives: the tree and the position after it.
pub type Step = Option<(NodeView, int)>;

/// Whether the token at `p` is the symbol `k`.
pub open spec fn g_at(tv: Seq<TokenView>, p: int, k: Sym) -> bool {
    0 <= p < tv.len() && tv[p] == TokenView::Sym(k)
}

/// The identifier at `p`.
pub open spec fn ident_v(tv: Seq<TokenView>, p: int) -> Option<Seq<char>> {
    if 0 <= p < tv.len() {
        match tv[p] {
            TokenView::Ident(w) => Some(w),
            _ => None,
        }
    } else {
        None
    }
}

/// The type a word names: `bool`, or an integer type name, each of which
/// denotes `i32`.
pub open spec fn word_type(w: Seq<char>) -> Option<LiteralType> {
    if w == "bool"@ {
        Some(LiteralType::Bool)
    } else if w == "i32"@ || w == "i8"@ || w == "i16"@ || w == "i64"@ || w == "isize"@ || w == "u8"@
        || w == "u16"@ || w == "u32"@ || w == "u64"@ || w == "usize"@ {
        Some(LiteralType::I32)
    } else {
        None
    }
}

/// The type named at `p`.
pub open spec fn type_v(tv: Seq<TokenView>, p: int) -> Option<LiteralType> {
    match ident_v(tv, p) {
        Some(w) => word_type(w),
        None => None,
    }
}

/// The comparison operator at `p`.
pub open spec fn rel_op_v(tv: Seq<TokenView>, p: int) -> Option<Opcode> {
    if g_at(tv, p, Sym::EqEq) {
        Some(Opcode::EQ)
    } else if g_at(tv, p, Sym::NotEq) {
        Some(Opcode::NEQ)
    } else if g_at(tv, p, Sym::Lt) {
        Some(Opcode::LT)
    } else if g_at(tv, p, Sym::Gt) {
        Some(Opcode::GT)
    } else if g_at(tv, p, Sym::Le) {
        Some(Opcode::LEQ)
    } else if g_at(tv, p, Sym::Ge) {
        Some(Opcode::GEQ)
    } else {
        None
    }
}

/// A number, `true`, `false`, a variable, a call, or `( expression )`.
pub open spec fn g_primary(tv: Seq<TokenView>, p: int) -> Step
    decreases tv.len() - p, 1nat,
{
    if !(0 <= p < tv.len()) {
        None
    } else {
        match tv[p] {
            TokenView::Num(n) => Some((NodeView::Number(n), p + 1)),
            TokenView::Sym(Sym::True) => Some((NodeView::Bool(true), p + 1)),
            TokenView::Sym(Sym::False) => Some((NodeView::Bool(false), p + 1)),
            TokenView::Ident(name) => if g_at(tv, p + 1, Sym::LParen) {
                match g_args(tv, p + 2) {
                    Some((args, q)) => Some((NodeView::FuncCall { name, args, next: None }, q)),
                    None => None,
                }
            } else {
                Some((NodeView::Var(name), p + 1))
            },
            TokenView::Sym(Sym::LParen) => match g_or(tv, p + 1) {
                Some((e, q)) => if g_at(tv, q, Sym::RParen) {
                    Some((e, q + 1))
                } else {
                    None
                },
                None => None,
            },
            _ => None,
        }
    }
}

/// `-` in front of a negation or a primary.
pub open spec fn g_unary(tv: Seq<TokenView>, p: int) -> Step
    decreases tv.len() - p, 2nat,
{
    if g_at(tv, p, Sym::Minus) {
        match g_unary(tv, p + 1) {
            Some((e, q)) => Some((NodeView::UnaryOp(Opcode::Sub, Box::new(e)), q)),
            None => None,
        }
    } else {
        g_primary(tv, p)
    }
}

/// The rest of a product whose left part is `l`, from `p`.
pub open spec fn g_mul_tail(tv: Seq<TokenView>, l: NodeView, p: int) -> Step
    decreases tv.len() - p, 3nat,
{
    let op = if g_at(tv, p, Sym::Star) {
        Some(Opcode::Mul)
    } else if g_at(tv, p, Sym::Slash) {
        Some(Opcode::Div)
    } else {
        None
    };
    match op {
        None => Some((l, p)),
        Some(op) => match g_unary(tv, p + 1) {
            Some((r, q)) => if p < q <= tv.len() {
                g_mul_tail(tv, NodeView::Expr(Box::new(l), op, Box::new(r)), q)
            } else {
                None
            },
            None => None,
        },
    }
}

/// `* /`, left associative.
pub open spec fn g_mul(tv: Seq<TokenView>, p: int) -> Step
    decreases tv.len() - p, 4nat,
{
    match g_unary(tv, p) {
        Some((l, q)) => if p < q <= tv.len() {
            g_mul_tail(tv, l, q)
        } else {
            None
        },
        None => None,
    }
}

/// The rest of a sum whose left part is `l`, from `p`.
pub open spec fn g_add_tail(tv: Seq<TokenView>, l: NodeView, p: int) -> Step
    decreases tv.len() - p, 5nat,
{
    let op = if g_at(tv, p, Sym::Plus) {
        Some(Opcode::Add)
    } else if g_at(tv, p, Sym::Minus) {
        Some(Opcode::Sub)
    } else {
        None
    };
    match op {
        None => Some((l, p)),
        Some(op) => match g_mul(tv, p + 1) {
            Some((r, q)) => if p < q <= tv.len() {
                g_add_tail(tv, NodeView::Expr(Box::new(l), op, Box::new(r)), q)
            } else {
                None
            },
            None => None,
        },
    }
}

/// `+ -`, left associative.
pub open spec fn g_add(tv: Seq<TokenView>, p: int) -> Step
    decreases tv.len() - p, 6nat,
{
    match g_mul(tv, p) {
        Some((l, q)) => if p < q <= tv.len() {
            g_add_tail(tv, l, q)
        } else {
            None
        },
        None => None,
    }
}

/// A sum, or one comparison of two sums.
pub open spec fn g_rel(tv: Seq<TokenView>, p: int) -> Step
    decreases tv.len() - p, 7nat,
{
    match g_add(tv, p) {
        Some((l, q)) => if p < q <= tv.len() {
            match rel_op_v(tv, q) {
                Some(op) => match g_add(tv, q + 1) {
                    Some((r, q2)) => Some((NodeView::Expr(Box::new(l), op, Box::new(r)), q2)),
                    None => None,
                },
                None => Some((l, q)),
            }
        } else {
            None
        },
        None => None,
    }
}

/// The rest of a conjunction whose left part is `l`, from `p`.
pub open spec fn g_and_tail(tv: Seq<TokenView>, l: NodeView, p: int) -> Step
    decreases tv.len() - p, 8nat,
{
    if g_at(tv, p, Sym::AndAnd) {
        match g_rel(tv, p + 1) {
            Some((r, q)) => if p < q <= tv.len() {
                g_and_tail(tv, NodeView::Expr(Box::new(l), Opcode::AND, Box::new(r)), q)
            } else {
                None
            },
            None => None,
        }
    } else {
        Some((l, p))
    }
}

/// `&&`, left associative.
pub open spec fn g_and(tv: Seq<TokenView>, p: int) -> Step
    decreases tv.len() - p, 9nat,
{
    match g_rel(tv, p) {
        Some((l, q)) => if p < q <= tv.len() {
            g_and_tail(tv, l, q)
        } else {
            None
        },
        None => None,
    }
}

/// The rest of a disjunction whose left part is `l`, from `p`.
pub open spec fn g_or_tail(tv: Seq<TokenView>, l: NodeView, p: int) -> Step
    decreases tv.len() - p, 10nat,
{
    if g_at(tv, p, Sym::OrOr) {
        match g_and(tv, p + 1) {
            Some((r, q)) => if p < q <= tv.len() {
                g_or_tail(tv, NodeView::Expr(Box::new(l), Opcode::OR, Box::new(r)), q)
            } else {
                None
            },
            None => None,
        }
    } else {
        Some((l, p))
    }
}

/// An expression: `||`, the loosest operator, left associative.
pub open spec fn g_or(tv: Seq<TokenView>, p: int) -> Step
    decreases tv.len() - p, 11nat,
{
    match g_and(tv, p) {
        Some((l, q)) => if p < q <= tv.len() {
            g_or_tail(tv, l, q)
        } else {
            None
        },
        None => None,
    }
}

/// Further arguments after those in `acc`, from `p`, up to and past `)`.
pub open spec fn g_args_tail(tv: Seq<TokenView>, acc: Seq<NodeView>, p: int) -> Option<(Seq<NodeView>, int)>
    decreases tv.len() - p, 12nat,
{
    match g_or(tv, p) {
        Some((e, q)) => if p < q <= tv.len() {
            if g_at(tv, q, Sym::RParen) {
                Some((acc.push(e), q + 1))
            } else if g_at(tv, q, Sym::Comma) {
                g_args_tail(tv, acc.push(e), q + 1)
            } else {
                None
            }
        } else {
            None
        },
        None => None,
    }
}

/// Comma separated arguments up to and past `)`.
pub open spec fn g_args(tv: Seq<TokenView>, p: int) -> Option<(Seq<NodeView>, int)>
    decreases tv.len() - p, 13nat,
{
    if g_at(tv, p, Sym::RParen) {
        Some((Seq::empty(), p + 1))
    } else {
        g_args_tail(tv, Seq::empty(), p)
    }
}

/// `let [mut] name: type = expression`, and a `;` when `semi` is set.
pub open spec fn g_let(tv: Seq<TokenView>, p: int, semi: bool) -> Step {
    if !g_at(tv, p, Sym::Let) {
        None
    } else {
        let m = g_at(tv, p + 1, Sym::Mut);
        let q = if m { p + 2 } else { p + 1 };
        match (ident_v(tv, q), type_v(tv, q + 2)) {
            (Some(name), Some(t)) => if g_at(tv, q + 1, Sym::Colon) && g_at(tv, q + 3, Sym::Assign) {
                match g_or(tv, q + 4) {
                    Some((e, r)) => {
                        let node = NodeView::Let {
                            var: Box::new(NodeView::VarBinding(Box::new(NodeView::Var(name)), t, m)),
                            expr: Box::new(e),
                            next: None,
                        };
                        if !semi {
                            Some((node, r))
                        } else if g_at(tv, r, Sym::Semi) {
                            Some((node, r + 1))
                        } else {
                            None
                        }
                    },
                    None => None,
                }
            } else {
                None
            },
            _ => None,
        }
    }
}

/// `( expression )`
pub open spec fn g_cond(tv: Seq<TokenView>, p: int) -> Step {
    if g_at(tv, p, Sym::LParen) {
        match g_or(tv, p + 1) {
            Some((e, q)) => if g_at(tv, q, Sym::RParen) {
                Some((e, q + 1))
            } else {
                None
            },
            None => None,
        }
    } else {
        None
    }
}

/// `expression ;`
pub open spec fn g_expr_semi(tv: Seq<TokenView>, p: int) -> Step {
    match g_or(tv, p) {
        Some((e, q)) => if g_at(tv, q, Sym::Semi) {
            Some((e, q + 1))
        } else {
            None
        },
        None => None,
    }
}

/// `{ statements }`
pub open spec fn g_block(tv: Seq<TokenView>, p: int) -> Step
    decreases tv.len() - p, 14nat,
{
    if g_at(tv, p, Sym::LBrace) && p + 1 <= tv.len() {
        match g_stmts(tv, p + 1) {
            Some((b, q)) => if g_at(tv, q, Sym::RBrace) {
                Some((b, q + 1))
            } else {
                None
            },
            None => None,
        }
    } else {
        None
    }
}

/// `if (cond) { .. }`, then optionally `else if ..` or `else { .. }`.
pub open spec fn g_if(tv: Seq<TokenView>, p: int) -> Step
    decreases tv.len() - p, 15nat,
{
    if !g_at(tv, p, Sym::If) {
        None
    } else {
        match g_cond(tv, p + 1) {
            Some((c, q)) => if p < q <= tv.len() {
                match g_block(tv, q) {
                    Some((b, r)) => if q < r <= tv.len() {
                        if !g_at(tv, r, Sym::Else) {
                            Some((NodeView::If { cond: Box::new(c), statement: Box::new(b), next: None }, r))
                        } else {
                            let other = if g_at(tv, r + 1, Sym::If) {
                                g_if(tv, r + 1)
                            } else {
                                g_block(tv, r + 1)
                            };
                            match other {
                                Some((o, t)) => Some((
                                    NodeView::IfElse {
                                        cond: Box::new(c),
                                        if_statement: Box::new(b),
                                        else_statement: Box::new(o),
                                        next: None,
                                    },
                                    t,
                                )),
                                None => None,
                            }
                        }
                    } else {
                        None
                    },
                    None => None,
                }
            } else {
                None
            },
            None => None,
        }
    }
}

/// `while (cond) { .. }`
pub open spec fn g_while(tv: Seq<TokenView>, p: int) -> Step
    decreases tv.len() - p, 15nat,
{
    match g_cond(tv, p + 1) {
        Some((c, q)) => if p < q <= tv.len() {
            match g_block(tv, q) {
                Some((b, r)) => Some((NodeView::While { cond: Box::new(c), statement: Box::new(b), next: None }, r)),
                None => None,
            }
        } else {
            None
        },
        None => None,
    }
}

/// `return expr;`
pub open spec fn g_return(tv: Seq<TokenView>, p: int) -> Step {
    match g_expr_semi(tv, p + 1) {
        Some((e, q)) => Some((NodeView::Return { expr: Box::new(e), next: None }, q)),
        None => None,
    }
}

/// `print(expr);`
pub open spec fn g_print(tv: Seq<TokenView>, p: int) -> Step {
    match g_cond(tv, p + 1) {
        Some((e, q)) => if g_at(tv, q, Sym::Semi) {
            Some((NodeView::Print { expr: Box::new(e), next: None }, q + 1))
        } else {
            None
        },
        None => None,
    }
}

/// `name = expr;` or `name(args);`
pub open spec fn g_name_stmt(tv: Seq<TokenView>, name: Seq<char>, p: int) -> Step {
    if g_at(tv, p + 1, Sym::Assign) {
        match g_expr_semi(tv, p + 2) {
            Some((e, q)) => Some((
                NodeView::VarValue { var: Box::new(NodeView::Var(name)), expr: Box::new(e), next: None },
                q,
            )),
            None => None,
        }
    } else if g_at(tv, p + 1, Sym::LParen) {
        match g_args(tv, p + 2) {
            Some((args, q)) => if g_at(tv, q, Sym::Semi) {
                Some((NodeView::FuncCall { name, args, next: None }, q + 1))
            } else {
                None
            },
            None => None,
        }
    } else {
        None
    }
}

/// One statement, with nothing after it.
pub open spec fn g_stmt(tv: Seq<TokenView>, p: int) -> Step
    decreases tv.len() - p, 16nat,
{
    if !(0 <= p < tv.len()) {
        None
    } else {
        match tv[p] {
            TokenView::Sym(Sym::Let) => g_let(tv, p, true),
            TokenView::Sym(Sym::If) => g_if(tv, p),
            TokenView::Sym(Sym::While) => g_while(tv, p),
            TokenView::Sym(Sym::Return) => g_return(tv, p),
            TokenView::Sym(Sym::Print) => g_print(tv, p),
            TokenView::Sym(Sym::Break) => if g_at(tv, p + 1, Sym::Semi) {
                Some((NodeView::Break, p + 2))
            } else {
                None
            },
            TokenView::Sym(Sym::Continue) => if g_at(tv, p + 1, Sym::Semi) {
                Some((NodeView::Continue, p + 2))
            } else {
                None
            },
            TokenView::Ident(name) => g_name_stmt(tv, name, p),
            _ => None,
        }
    }
}

/// The statement `s` with `n` after it.
pub open spec fn with_next_v(s: NodeView, n: NodeView) -> NodeView {
    let nx = Some(Box::new(n));
    match s {
        NodeView::VarValue { var, expr, .. } => NodeView::VarValue { var, expr, next: nx },
        NodeView::Let { var, expr, .. } => NodeView::Let { var, expr, next: nx },
        NodeView::Print { expr, .. } => NodeView::Print { expr, next: nx },
        NodeView::If { cond, statement, .. } => NodeView::If { cond, statement, next: nx },
        NodeView::IfElse { cond, if_statement, else_statement, .. } => NodeView::IfElse {
            cond,
            if_statement,
            else_statement,
            next: nx,
        },
        NodeView::While { cond, statement, .. } => NodeView::While { cond, statement, next: nx },
        NodeView::FuncCall { name, args, .. } => NodeView::FuncCall { name, args, next: nx },
        NodeView::Return { expr, .. } => NodeView::Return { expr, next: nx },
        _ => s,
    }
}

/// Statements up to a `}` or the end, chained in order; `break` and
/// `continue` only last.
pub open spec fn g_stmts(tv: Seq<TokenView>, p: int) -> Step
    decreases tv.len() - p, 17nat,
{
    match g_stmt(tv, p) {
        Some((s, q)) => if p < q <= tv.len() {
            if q == tv.len() || g_at(tv, q, Sym::RBrace) {
                Some((s, q))
            } else if s is Break || s is Continue {
                None
            } else {
                match g_stmts(tv, q) {
                    Some((rest, r)) => Some((with_next_v(s, rest), r)),
                    None => None,
                }
            }
        } else {
            None
        },
        None => None,
    }
}

/// Further parameters after those in `acc`, from `p`, up to and past `)`.
pub open spec fn g_params_tail(tv: Seq<TokenView>, acc: Seq<NodeView>, p: int) -> Option<(Seq<NodeView>, int)>
    decreases tv.len() - p,
{
    if !(0 <= p <= tv.len()) {
        None
    } else {
        let m = g_at(tv, p, Sym::Mut);
        let q = if m { p + 1 } else { p };
        match (ident_v(tv, q), type_v(tv, q + 2)) {
            (Some(name), Some(t)) => if g_at(tv, q + 1, Sym::Colon) {
                let acc2 = acc.push(NodeView::FuncParam(Box::new(NodeView::Var(name)), t, m));
                if g_at(tv, q + 3, Sym::RParen) {
                    Some((acc2, q + 4))
                } else if g_at(tv, q + 3, Sym::Comma) {
                    g_params_tail(tv, acc2, q + 4)
                } else {
                    None
                }
            } else {
                None
            },
            _ => None,
        }
    }
}

/// Parameters up to and past `)`.
pub open spec fn g_params(tv: Seq<TokenView>, p: int) -> Option<(Seq<NodeView>, int)> {
    if g_at(tv, p, Sym::RParen) {
        Some((Seq::empty(), p + 1))
    } else {
        g_params_tail(tv, Seq::empty(), p)
    }
}

/// `fn name(params) [-> type] { body }`
pub open spec fn g_func(tv: Seq<TokenView>, p: int) -> Step {
    if !g_at(tv, p, Sym::Fn) || !g_at(tv, p + 2, Sym::LParen) {
        None
    } else {
        match (ident_v(tv, p + 1), g_params(tv, p + 3)) {
            (Some(name), Some((params, q))) => {
                let (r_type, q2) = if g_at(tv, q, Sym::Arrow) {
                    (type_v(tv, q + 1), q + 2)
                } else {
                    (None, q)
                };
                if g_at(tv, q, Sym::Arrow) && r_type is None {
                    None
                } else {
                    match g_block(tv, q2) {
                        Some((body, r)) => Some((NodeView::Func { name, params, r_type, body: Box::new(body) }, r)),
                        None => None,
                    }
                }
            },
            _ => None,
        }
    }
}

/// Function declarations after those in `acc`, from `p` to the end.
pub open spec fn g_program(tv: Seq<TokenView>, acc: Seq<NodeView>, p: int) -> Option<Seq<NodeView>>
    decreases tv.len() - p,
{
    if !(0 <= p < tv.len()) {
        Some(acc)
    } else {
        match g_func(tv, p) {
            Some((f, q)) => if p < q <= tv.len() {
                g_program(tv, acc.push(f), q)
            } else {
                None
            },
            None => None,
        }
    }
}

/// A parse from the first token that takes every token.
pub open spec fn g_whole(tv: Seq<TokenView>, r: Step) -> Option<NodeView> {
    match r {
        Some((n, q)) => if q == tv.len() {
            Some(n)
        } else {
            None
        },
        None => None,
    }
}

} // verus!
