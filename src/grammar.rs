//! A recursive-descent parser over tokens; each function is proved to
//! compute the matching function of the grammar.

use vstd::prelude::*;
use vstd::string::*;

use crate::ast::Node;
use crate::grammar_spec::{
    g_add, g_add_tail, g_and, g_and_tail, g_args, g_args_tail, g_at, g_block, g_cond, g_expr_semi, g_func,
    g_if, g_let, g_mul, g_mul_tail, g_or, g_or_tail, g_params, g_params_tail, g_primary, g_program, g_rel,
    g_stmt, g_stmts, g_unary, g_while, g_return, g_print, g_name_stmt, g_whole, ident_v, rel_op_v, type_v, with_next_v, word_type, Step,
};
use crate::lexer::{views, Sym, Token, TokenView};
use crate::operators::Opcode;
use crate::parse::ParseError;
use crate::tree_view::{node_view, nodes_view, opt_view, NodeView};
use crate::types::LiteralType;

verus! {

/// A result of parsing from a position: the node and the position after it.
pub type Parsed = Result<(Box<Node>, usize), ParseError>;

/// Whether a node can head a block: a statement, or `break` / `continue`.
pub open spec fn is_stmt(n: Node) -> bool {
    n.has_next_slot() || n is Break || n is Continue
}

/// The parse `r` is the grammar's step `s`: the same tree and position, or
/// failure on both sides.
pub open spec fn agrees(r: Parsed, s: Step) -> bool {
    match r {
        Ok((n, q)) => s == Some((node_view(*n), q as int)),
        Err(_) => s is None,
    }
}

/// A parse from `pos` that ends after it, within the tokens.
pub open spec fn advances(r: Parsed, pos: usize, len: usize) -> bool {
    r matches Ok((_, p)) ==> pos < p <= len
}

fn fail(msg: &str) -> (r: ParseError) {
    ParseError { message: String::from_str(msg) }
}

/// Whether the token at `pos` is the symbol `s`.
fn at(toks: &Vec<Token>, pos: usize, s: Sym) -> (r: bool)
    ensures
        r == g_at(views(toks@), pos as int, s),
        r ==> pos < toks.len(),
{
    if pos < toks.len() {
        match &toks[pos] {
            Token::Sym(t) => *t == s,
            _ => false,
        }
    } else {
        false
    }
}

/// The identifier at `pos`.
fn ident(toks: &Vec<Token>, pos: usize) -> (r: Option<String>)
    ensures
        r matches Some(n) ==> ident_v(views(toks@), pos as int) == Some(n@),
        r is None ==> ident_v(views(toks@), pos as int) is None,
        r is Some ==> pos < toks.len(),
{
    if pos < toks.len() {
        match &toks[pos] {
            Token::Ident(s) => Some(s.clone()),
            _ => None,
        }
    } else {
        None
    }
}

/// Whether `s` spells `w`.
fn is_word(s: &String, w: &str) -> (r: bool)
    ensures
        r == (s@ == w@),
{
    let t = String::from_str(w);
    *s == t
}

/// The type a word names.
fn named_type(s: &String) -> (r: Option<LiteralType>)
    ensures
        r == word_type(s@),
{
    if is_word(s, "bool") {
        Some(LiteralType::Bool)
    } else if is_word(s, "i32") || is_word(s, "i8") || is_word(s, "i16") || is_word(s, "i64")
        || is_word(s, "isize") || is_word(s, "u8") || is_word(s, "u16") || is_word(s, "u32")
        || is_word(s, "u64") || is_word(s, "usize") {
        Some(LiteralType::I32)
    } else {
        None
    }
}

/// The type named at `pos`.
fn parse_type(toks: &Vec<Token>, pos: usize) -> (r: Option<LiteralType>)
    ensures
        r == type_v(views(toks@), pos as int),
        r is Some ==> pos < toks.len(),
{
    match ident(toks, pos) {
        Some(s) => named_type(&s),
        None => None,
    }
}

/// An expression: `||` is the loosest binding operator; left associative.
pub fn parse_or(toks: &Vec<Token>, pos: usize) -> (r: Parsed)
    requires
        pos <= toks.len(),
    ensures
        advances(r, pos, toks.len()),
        agrees(r, g_or(views(toks@), pos as int)),
    decreases toks.len() - pos, 7nat,
{
    let ghost tv = views(toks@);
    let (mut left, mut p) = match parse_and(toks, pos) {
        Ok(x) => x,
        Err(e) => return Err(e),
    };
    while at(toks, p, Sym::OrOr)
        invariant
            pos < p <= toks.len(),
            tv == views(toks@),
            g_or(tv, pos as int) == g_or_tail(tv, node_view(*left), p as int),
        decreases toks.len() - p,
    {
        match parse_and(toks, p + 1) {
            Ok((right, q)) => {
                left = Box::new(Node::Expr(left, Opcode::OR, right));
                p = q;
            },
            Err(e) => return Err(e),
        }
    }
    Ok((left, p))
}

/// `&&`; left associative.
fn parse_and(toks: &Vec<Token>, pos: usize) -> (r: Parsed)
    requires
        pos <= toks.len(),
    ensures
        advances(r, pos, toks.len()),
        agrees(r, g_and(views(toks@), pos as int)),
    decreases toks.len() - pos, 6nat,
{
    let ghost tv = views(toks@);
    let (mut left, mut p) = match parse_rel(toks, pos) {
        Ok(x) => x,
        Err(e) => return Err(e),
    };
    while at(toks, p, Sym::AndAnd)
        invariant
            pos < p <= toks.len(),
            tv == views(toks@),
            g_and(tv, pos as int) == g_and_tail(tv, node_view(*left), p as int),
        decreases toks.len() - p,
    {
        match parse_rel(toks, p + 1) {
            Ok((right, q)) => {
                left = Box::new(Node::Expr(left, Opcode::AND, right));
                p = q;
            },
            Err(e) => return Err(e),
        }
    }
    Ok((left, p))
}

/// The comparison operator at `pos`.
fn rel_op_at(toks: &Vec<Token>, pos: usize) -> (r: Option<Opcode>)
    ensures
        r == rel_op_v(views(toks@), pos as int),
        r is Some ==> pos < toks.len(),
{
    if at(toks, pos, Sym::EqEq) {
        Some(Opcode::EQ)
    } else if at(toks, pos, Sym::NotEq) {
        Some(Opcode::NEQ)
    } else if at(toks, pos, Sym::Lt) {
        Some(Opcode::LT)
    } else if at(toks, pos, Sym::Gt) {
        Some(Opcode::GT)
    } else if at(toks, pos, Sym::Le) {
        Some(Opcode::LEQ)
    } else if at(toks, pos, Sym::Ge) {
        Some(Opcode::GEQ)
    } else {
        None
    }
}

/// A sum, optionally compared with a second one: comparisons do not chain.
pub fn parse_rel(toks: &Vec<Token>, pos: usize) -> (r: Parsed)
    requires
        pos <= toks.len(),
    ensures
        advances(r, pos, toks.len()),
        agrees(r, g_rel(views(toks@), pos as int)),
    decreases toks.len() - pos, 5nat,
{
    let (left, p) = match parse_add(toks, pos) {
        Ok(x) => x,
        Err(e) => return Err(e),
    };
    match rel_op_at(toks, p) {
        Some(op) => match parse_add(toks, p + 1) {
            Ok((right, q)) => Ok((Box::new(Node::Expr(left, op, right)), q)),
            Err(e) => Err(e),
        },
        None => Ok((left, p)),
    }
}

/// `+ -`; left associative.
fn parse_add(toks: &Vec<Token>, pos: usize) -> (r: Parsed)
    requires
        pos <= toks.len(),
    ensures
        advances(r, pos, toks.len()),
        agrees(r, g_add(views(toks@), pos as int)),
    decreases toks.len() - pos, 4nat,
{
    let ghost tv = views(toks@);
    let (mut left, mut p) = match parse_mul(toks, pos) {
        Ok(x) => x,
        Err(e) => return Err(e),
    };
    while at(toks, p, Sym::Plus) || at(toks, p, Sym::Minus)
        invariant
            pos < p <= toks.len(),
            tv == views(toks@),
            g_add(tv, pos as int) == g_add_tail(tv, node_view(*left), p as int),
        decreases toks.len() - p,
    {
        let op = if at(toks, p, Sym::Plus) {
            Opcode::Add
        } else {
            Opcode::Sub
        };
        match parse_mul(toks, p + 1) {
            Ok((right, q)) => {
                left = Box::new(Node::Expr(left, op, right));
                p = q;
            },
            Err(e) => return Err(e),
        }
    }
    Ok((left, p))
}

/// `* /`; left associative.
fn parse_mul(toks: &Vec<Token>, pos: usize) -> (r: Parsed)
    requires
        pos <= toks.len(),
    ensures
        advances(r, pos, toks.len()),
        agrees(r, g_mul(views(toks@), pos as int)),
    decreases toks.len() - pos, 3nat,
{
    let ghost tv = views(toks@);
    let (mut left, mut p) = match parse_unary(toks, pos) {
        Ok(x) => x,
        Err(e) => return Err(e),
    };
    while at(toks, p, Sym::Star) || at(toks, p, Sym::Slash)
        invariant
            pos < p <= toks.len(),
            tv == views(toks@),
            g_mul(tv, pos as int) == g_mul_tail(tv, node_view(*left), p as int),
        decreases toks.len() - p,
    {
        let op = if at(toks, p, Sym::Star) {
            Opcode::Mul
        } else {
            Opcode::Div
        };
        match parse_unary(toks, p + 1) {
            Ok((right, q)) => {
                left = Box::new(Node::Expr(left, op, right));
                p = q;
            },
            Err(e) => return Err(e),
        }
    }
    Ok((left, p))
}

/// Negation, which binds tighter than any binary operator.
fn parse_unary(toks: &Vec<Token>, pos: usize) -> (r: Parsed)
    requires
        pos <= toks.len(),
    ensures
        advances(r, pos, toks.len()),
        agrees(r, g_unary(views(toks@), pos as int)),
    decreases toks.len() - pos, 2nat,
{
    if at(toks, pos, Sym::Minus) {
        match parse_unary(toks, pos + 1) {
            Ok((e, q)) => Ok((Box::new(Node::UnaryOp(Opcode::Sub, e)), q)),
            Err(e) => Err(e),
        }
    } else {
        parse_primary(toks, pos)
    }
}

/// Comma separated expressions up to a closing parenthesis, which is consumed.
fn parse_args(toks: &Vec<Token>, pos: usize) -> (r: Result<(Vec<Box<Node>>, usize), ParseError>)
    requires
        pos <= toks.len(),
    ensures
        r matches Ok((_, p)) ==> pos < p <= toks.len(),
        match r {
            Ok((a, q)) => g_args(views(toks@), pos as int) == Some((nodes_view(a@), q as int)),
            Err(_) => g_args(views(toks@), pos as int) is None,
        },
    decreases toks.len() - pos, 8nat,
{
    let ghost tv = views(toks@);
    let mut args: Vec<Box<Node>> = Vec::new();
    if at(toks, pos, Sym::RParen) {
        return Ok((args, pos + 1));
    }
    let mut p = pos;
    loop
        invariant
            pos <= p <= toks.len(),
            tv == views(toks@),
            g_args(tv, pos as int) == g_args_tail(tv, nodes_view(args@), p as int),
        decreases toks.len() - p,
    {
        let ghost before = args@;
        match parse_or(toks, p) {
            Ok((e, q)) => {
                args.push(e);
                p = q;
            },
            Err(e) => return Err(e),
        }
        assert(args@.drop_last() =~= before);
        if at(toks, p, Sym::RParen) {
            return Ok((args, p + 1));
        }
        if !at(toks, p, Sym::Comma) {
            return Err(fail("expected ',' or ')' in arguments"));
        }
        p = p + 1;
    }
}

/// A number, `true`, `false`, a variable, a call, or a parenthesized expression.
fn parse_primary(toks: &Vec<Token>, pos: usize) -> (r: Parsed)
    requires
        pos <= toks.len(),
    ensures
        advances(r, pos, toks.len()),
        agrees(r, g_primary(views(toks@), pos as int)),
    decreases toks.len() - pos, 1nat,
{
    let ghost tv = views(toks@);
    if pos >= toks.len() {
        return Err(fail("unexpected end of input"));
    }
    assert(tv[pos as int] == toks@[pos as int]@);
    match &toks[pos] {
        Token::Num(n) => Ok((Box::new(Node::Number(*n)), pos + 1)),
        Token::Sym(Sym::True) => Ok((Box::new(Node::Bool(true)), pos + 1)),
        Token::Sym(Sym::False) => Ok((Box::new(Node::Bool(false)), pos + 1)),
        Token::Ident(name) => parse_name_use(toks, pos, name),
        Token::Sym(Sym::LParen) => match parse_or(toks, pos + 1) {
            Ok((e, q)) => {
                if at(toks, q, Sym::RParen) {
                    Ok((e, q + 1))
                } else {
                    Err(fail("expected ')'"))
                }
            },
            Err(e) => Err(e),
        },
        Token::Sym(_) => Err(fail("expected an expression")),
    }
}

/// A variable, or a call when a `(` follows the name.
fn parse_name_use(toks: &Vec<Token>, pos: usize, name: &String) -> (r: Parsed)
    requires
        pos < toks.len(),
        toks@[pos as int] == Token::Ident(*name),
    ensures
        advances(r, pos, toks.len()),
        agrees(r, g_primary(views(toks@), pos as int)),
    decreases toks.len() - pos, 0nat,
{
    let ghost tv = views(toks@);
    assert(tv[pos as int] == TokenView::Ident(name@));
    if at(toks, pos + 1, Sym::LParen) {
        match parse_args(toks, pos + 2) {
            Ok((args, q)) => {
                let node = Node::FuncCall { name: name.clone(), args, next: None };
                assert(opt_view(None) == None::<Box<NodeView>>);
                assert(node_view(node) == NodeView::FuncCall { name: name@, args: nodes_view(node->args@), next: None });
                Ok((Box::new(node), q))
            },
            Err(e) => Err(e),
        }
    } else {
        Ok((Box::new(Node::Var(name.clone())), pos + 1))
    }
}

/// `let [mut] name: type = expr`, and the `;` after it when `semi` is set.
pub fn parse_let(toks: &Vec<Token>, pos: usize, semi: bool) -> (r: Parsed)
    requires
        pos <= toks.len(),
    ensures
        advances(r, pos, toks.len()),
        agrees(r, g_let(views(toks@), pos as int, semi)),
        r matches Ok((n, _)) ==> (*n) is Let && n.next_of() is None,
{
    if !at(toks, pos, Sym::Let) {
        return Err(fail("expected 'let'"));
    }
    let mut p = pos + 1;
    let mutable = at(toks, p, Sym::Mut);
    if mutable {
        p = p + 1;
    }
    let name = match ident(toks, p) {
        Some(n) => n,
        None => return Err(fail("expected a variable name")),
    };
    if !at(toks, p + 1, Sym::Colon) {
        return Err(fail("expected ':'"));
    }
    let typ = match parse_type(toks, p + 2) {
        Some(t) => t,
        None => return Err(fail("expected a type")),
    };
    if !at(toks, p + 3, Sym::Assign) {
        return Err(fail("expected '='"));
    }
    let (e, q) = match parse_or(toks, p + 4) {
        Ok(x) => x,
        Err(e) => return Err(e),
    };
    let ghost nv = name@;
    let ghost ev = node_view(*e);
    let var_node = Box::new(Node::Var(name));
    assert(node_view(*var_node) == NodeView::Var(nv));
    let binding = Box::new(Node::VarBinding(var_node, typ, mutable));
    assert(node_view(*binding) == NodeView::VarBinding(Box::new(NodeView::Var(nv)), typ, mutable));
    let node = Box::new(Node::Let { var: binding, expr: e, next: None });
    proof {
        assert(opt_view(None) == None::<Box<NodeView>>);
        assert(node_view(*node) == NodeView::Let {
            var: Box::new(NodeView::VarBinding(Box::new(NodeView::Var(nv)), typ, mutable)),
            expr: Box::new(ev),
            next: None,
        });
    }
    if semi {
        if at(toks, q, Sym::Semi) {
            Ok((node, q + 1))
        } else {
            Err(fail("expected ';'"))
        }
    } else {
        Ok((node, q))
    }
}

/// `( expr )`
fn parse_cond(toks: &Vec<Token>, pos: usize) -> (r: Parsed)
    requires
        pos <= toks.len(),
    ensures
        advances(r, pos, toks.len()),
        agrees(r, g_cond(views(toks@), pos as int)),
{
    if !at(toks, pos, Sym::LParen) {
        return Err(fail("expected '('"));
    }
    match parse_or(toks, pos + 1) {
        Ok((e, q)) => {
            if at(toks, q, Sym::RParen) {
                Ok((e, q + 1))
            } else {
                Err(fail("expected ')'"))
            }
        },
        Err(e) => Err(e),
    }
}

/// `{ statements }`
fn parse_block(toks: &Vec<Token>, pos: usize) -> (r: Parsed)
    requires
        pos <= toks.len(),
    ensures
        advances(r, pos, toks.len()),
        agrees(r, g_block(views(toks@), pos as int)),
        r matches Ok((n, _)) ==> is_stmt(*n),
    decreases toks.len() - pos, 10nat,
{
    if !at(toks, pos, Sym::LBrace) {
        return Err(fail("expected '{'"));
    }
    match parse_stmts(toks, pos + 1) {
        Ok((b, q)) => {
            if at(toks, q, Sym::RBrace) {
                Ok((b, q + 1))
            } else {
                Err(fail("expected '}'"))
            }
        },
        Err(e) => Err(e),
    }
}

/// `if (cond) { .. }`, optionally followed by `else if ..` or `else { .. }`.
#[verifier::rlimit(60)]
fn parse_if(toks: &Vec<Token>, pos: usize) -> (r: Parsed)
    requires
        pos <= toks.len(),
    ensures
        advances(r, pos, toks.len()),
        agrees(r, g_if(views(toks@), pos as int)),
        r matches Ok((n, _)) ==> is_stmt(*n) && n.next_of() is None,
    decreases toks.len() - pos, 11nat,
{
    let ghost tv = views(toks@);
    if !at(toks, pos, Sym::If) {
        return Err(fail("expected 'if'"));
    }
    let (cond, p) = match parse_cond(toks, pos + 1) {
        Ok(x) => x,
        Err(e) => return Err(e),
    };
    let (body, q) = match parse_block(toks, p) {
        Ok(x) => x,
        Err(e) => return Err(e),
    };
    assert(opt_view(None) == None::<Box<NodeView>>);
    let ghost cv = node_view(*cond);
    let ghost bv = node_view(*body);
    if !at(toks, q, Sym::Else) {
        let node = Node::If { cond, statement: body, next: None };
        assert(node_view(node) == NodeView::If { cond: Box::new(cv), statement: Box::new(bv), next: None });
        return Ok((Box::new(node), q));
    }
    let (other, t) = match parse_else(toks, q) {
        Ok(x) => x,
        Err(e) => return Err(e),
    };
    let ghost ov = node_view(*other);
    let node = Node::IfElse { cond, if_statement: body, else_statement: other, next: None };
    assert(node_view(node) == NodeView::IfElse {
        cond: Box::new(cv),
        if_statement: Box::new(bv),
        else_statement: Box::new(ov),
        next: None,
    });
    Ok((Box::new(node), t))
}

/// What follows the `else` at `pos`: another `if`, or a block.
fn parse_else(toks: &Vec<Token>, pos: usize) -> (r: Parsed)
    requires
        pos < toks.len(),
    ensures
        advances(r, pos, toks.len()),
        agrees(
            r,
            if g_at(views(toks@), pos + 1, Sym::If) {
                g_if(views(toks@), pos + 1)
            } else {
                g_block(views(toks@), pos + 1)
            },
        ),
    decreases toks.len() - pos, 10nat,
{
    if at(toks, pos + 1, Sym::If) {
        parse_if(toks, pos + 1)
    } else {
        parse_block(toks, pos + 1)
    }
}

/// `expr ;`
fn parse_expr_semi(toks: &Vec<Token>, pos: usize) -> (r: Parsed)
    requires
        pos <= toks.len(),
    ensures
        advances(r, pos, toks.len()),
        agrees(r, g_expr_semi(views(toks@), pos as int)),
{
    match parse_or(toks, pos) {
        Ok((e, q)) => {
            if at(toks, q, Sym::Semi) {
                Ok((e, q + 1))
            } else {
                Err(fail("expected ';'"))
            }
        },
        Err(e) => Err(e),
    }
}

/// One statement, with nothing after it.
#[verifier::rlimit(60)]
fn parse_stmt(toks: &Vec<Token>, pos: usize) -> (r: Parsed)
    requires
        pos <= toks.len(),
    ensures
        advances(r, pos, toks.len()),
        agrees(r, g_stmt(views(toks@), pos as int)),
        r matches Ok((n, _)) ==> is_stmt(*n) && n.next_of() is None,
    decreases toks.len() - pos, 12nat,
{
    let ghost tv = views(toks@);
    if pos >= toks.len() {
        return Err(fail("expected a statement"));
    }
    assert(tv[pos as int] == toks@[pos as int]@);
    match &toks[pos] {
        Token::Sym(Sym::Let) => parse_let(toks, pos, true),
        Token::Sym(Sym::If) => parse_if(toks, pos),
        Token::Sym(Sym::While) => parse_while(toks, pos),
        Token::Sym(Sym::Return) | Token::Sym(Sym::Print) => parse_return_print(toks, pos),
        Token::Sym(Sym::Break) => {
            if at(toks, pos + 1, Sym::Semi) {
                Ok((Box::new(Node::Break), pos + 2))
            } else {
                Err(fail("expected ';'"))
            }
        },
        Token::Sym(Sym::Continue) => {
            if at(toks, pos + 1, Sym::Semi) {
                Ok((Box::new(Node::Continue), pos + 2))
            } else {
                Err(fail("expected ';'"))
            }
        },
        Token::Ident(name) => {
            assert(tv[pos as int] == TokenView::Ident(name@));
            parse_name_stmt(toks, pos, name)
        },
        _ => Err(fail("expected a statement")),
    }
}

/// `while (cond) { .. }`
#[verifier::rlimit(100)]
fn parse_while(toks: &Vec<Token>, pos: usize) -> (r: Parsed)
    requires
        pos < toks.len(),
        toks@[pos as int] == Token::Sym(Sym::While),
    ensures
        advances(r, pos, toks.len()),
        agrees(r, g_while(views(toks@), pos as int)),
        r matches Ok((n, _)) ==> is_stmt(*n) && n.next_of() is None,
    decreases toks.len() - pos, 11nat,
{
    proof {
        lemma_while_step(views(toks@), pos as int);
    }
    let (cond, p) = match parse_cond(toks, pos + 1) {
        Ok(x) => x,
        Err(e) => return Err(e),
    };
    match parse_block(toks, p) {
        Ok((body, q)) => {
            let ghost cv = node_view(*cond);
            let ghost bv = node_view(*body);
            let node = Node::While { cond, statement: body, next: None };
            assert(opt_view(None) == None::<Box<NodeView>>);
            assert(node_view(node) == NodeView::While { cond: Box::new(cv), statement: Box::new(bv), next: None });
            Ok((Box::new(node), q))
        },
        Err(e) => Err(e),
    }
}

/// `return expr;` or `print(expr);`
fn parse_return_print(toks: &Vec<Token>, pos: usize) -> (r: Parsed)
    requires
        pos < toks.len(),
        toks@[pos as int] == Token::Sym(Sym::Return) || toks@[pos as int] == Token::Sym(Sym::Print),
    ensures
        advances(r, pos, toks.len()),
        agrees(r, if toks@[pos as int] == Token::Sym(Sym::Return) { g_return(views(toks@), pos as int) } else { g_print(views(toks@), pos as int) }),
        r matches Ok((n, _)) ==> is_stmt(*n) && n.next_of() is None,
{
    assert(opt_view(None) == None::<Box<NodeView>>);
    if at(toks, pos, Sym::Return) {
        match parse_expr_semi(toks, pos + 1) {
            Ok((e, q)) => {
                let ghost ev = node_view(*e);
                let node = Node::Return { expr: e, next: None };
                assert(node_view(node) == NodeView::Return { expr: Box::new(ev), next: None });
                Ok((Box::new(node), q))
            },
            Err(e) => Err(e),
        }
    } else {
        match parse_cond(toks, pos + 1) {
            Ok((e, q)) => {
                if at(toks, q, Sym::Semi) {
                    let ghost ev = node_view(*e);
                    let node = Node::Print { expr: e, next: None };
                    assert(node_view(node) == NodeView::Print { expr: Box::new(ev), next: None });
                    Ok((Box::new(node), q + 1))
                } else {
                    Err(fail("expected ';'"))
                }
            },
            Err(e) => Err(e),
        }
    }
}

/// An assignment `name = expr;` or a call `name(args);`.
#[verifier::rlimit(60)]
fn parse_name_stmt(toks: &Vec<Token>, pos: usize, name: &String) -> (r: Parsed)
    requires
        pos < toks.len(),
        toks@[pos as int] == Token::Ident(*name),
    ensures
        advances(r, pos, toks.len()),
        agrees(r, g_name_stmt(views(toks@), name@, pos as int)),
        r matches Ok((n, _)) ==> is_stmt(*n) && n.next_of() is None,
{
    assert(opt_view(None) == None::<Box<NodeView>>);
    if at(toks, pos + 1, Sym::Assign) {
        match parse_expr_semi(toks, pos + 2) {
            Ok((e, q)) => {
                let ghost ev = node_view(*e);
                let var_node = Box::new(Node::Var(name.clone()));
                assert(node_view(*var_node) == NodeView::Var(name@));
                let node = Node::VarValue { var: var_node, expr: e, next: None };
                assert(node_view(node) == NodeView::VarValue {
                    var: Box::new(NodeView::Var(name@)),
                    expr: Box::new(ev),
                    next: None,
                });
                Ok((Box::new(node), q))
            },
            Err(e) => Err(e),
        }
    } else if at(toks, pos + 1, Sym::LParen) {
        let (args, p) = match parse_args(toks, pos + 2) {
            Ok(x) => x,
            Err(e) => return Err(e),
        };
        if at(toks, p, Sym::Semi) {
            let node = Node::FuncCall { name: name.clone(), args, next: None };
            assert(node_view(node) == NodeView::FuncCall { name: name@, args: nodes_view(node->args@), next: None });
            Ok((Box::new(node), p + 1))
        } else {
            Err(fail("expected ';'"))
        }
    } else {
        Err(fail("expected '=' or '(' after a name"))
    }
}

/// Attaching a statement after another attaches its view.
proof fn lemma_view_with_next(n: Node, b: Box<Node>)
    requires
        n.has_next_slot(),
    ensures
        node_view(n.with_next(Some(b))) == with_next_v(node_view(n), node_view(*b)),
{
    assert(opt_view(Some(b)) == Some(Box::new(node_view(*b))));
}

/// A node and its view are `break` or `continue` together.
proof fn lemma_view_kind(n: Node)
    ensures
        node_view(n) is Break <==> n is Break,
        node_view(n) is Continue <==> n is Continue,
{
}

/// `g_while` once the condition has been read.
proof fn lemma_while_step(tv: Seq<TokenView>, pos: int)
    ensures
        g_cond(tv, pos + 1) is None ==> g_while(tv, pos) is None,
        g_cond(tv, pos + 1) matches Some((c, p)) ==> pos < p <= tv.len() ==> g_while(tv, pos) == match g_block(tv, p) {
            Some((b, r)) => Some((NodeView::While { cond: Box::new(c), statement: Box::new(b), next: None }, r)),
            None => None,
        },
{
}

/// One step of `g_stmts`: a statement, then those after it.
proof fn lemma_stmts_step(tv: Seq<TokenView>, pos: int, q: int)
    requires
        0 <= pos < q <= tv.len(),
        g_stmt(tv, pos) matches Some((_, q2)) && q2 == q,
    ensures
        ({
            let sv = g_stmt(tv, pos).unwrap().0;
            &&& (q == tv.len() || g_at(tv, q, Sym::RBrace)) ==> g_stmts(tv, pos) == Some((sv, q))
            &&& !(q == tv.len() || g_at(tv, q, Sym::RBrace)) && (sv is Break || sv is Continue) ==> g_stmts(tv, pos) is None
            &&& !(q == tv.len() || g_at(tv, q, Sym::RBrace)) && !(sv is Break || sv is Continue) ==> g_stmts(tv, pos)
                == match g_stmts(tv, q) {
                Some((rest, r)) => Some((with_next_v(sv, rest), r)),
                None => None,
            }
        }),
{
}

/// Statements up to a closing brace or the end of input, chained through
/// `next` in the order they are written. `break` and `continue` may only
/// come last.
#[verifier::rlimit(100)]
pub fn parse_stmts(toks: &Vec<Token>, pos: usize) -> (r: Parsed)
    requires
        pos <= toks.len(),
    ensures
        advances(r, pos, toks.len()),
        agrees(r, g_stmts(views(toks@), pos as int)),
        r matches Ok((n, _)) ==> is_stmt(*n),
    decreases toks.len() - pos, 13nat,
{
    let ghost tv = views(toks@);
    let (s, q) = match parse_stmt(toks, pos) {
        Ok(x) => x,
        Err(e) => return Err(e),
    };
    proof {
        lemma_stmts_step(tv, pos as int, q as int);
        lemma_view_kind(*s);
    }
    if q >= toks.len() || at(toks, q, Sym::RBrace) {
        return Ok((s, q));
    }
    match &*s {
        Node::Break | Node::Continue => return Err(fail("nothing may follow 'break' or 'continue'")),
        _ => {},
    }
    let (rest, r) = match parse_stmts(toks, q) {
        Ok(x) => x,
        Err(e) => return Err(e),
    };
    let mut node = *s;
    proof {
        lemma_view_with_next(node, rest);
    }
    node.insert_next(rest);
    Ok((Box::new(node), r))
}

/// The parameters of a function up to the closing parenthesis, which is consumed.
fn parse_params(toks: &Vec<Token>, pos: usize) -> (r: Result<(Vec<Box<Node>>, usize), ParseError>)
    requires
        pos <= toks.len(),
    ensures
        r matches Ok((_, p)) ==> pos < p <= toks.len(),
        match r {
            Ok((a, q)) => g_params(views(toks@), pos as int) == Some((nodes_view(a@), q as int)),
            Err(_) => g_params(views(toks@), pos as int) is None,
        },
{
    let ghost tv = views(toks@);
    let mut params: Vec<Box<Node>> = Vec::new();
    if at(toks, pos, Sym::RParen) {
        return Ok((params, pos + 1));
    }
    let mut p = pos;
    loop
        invariant
            pos <= p <= toks.len(),
            tv == views(toks@),
            g_params(tv, pos as int) == g_params_tail(tv, nodes_view(params@), p as int),
        decreases toks.len() - p,
    {
        let mutable = at(toks, p, Sym::Mut);
        let q = if mutable {
            p + 1
        } else {
            p
        };
        let name = match ident(toks, q) {
            Some(n) => n,
            None => return Err(fail("expected a parameter name")),
        };
        if !at(toks, q + 1, Sym::Colon) {
            return Err(fail("expected ':'"));
        }
        let typ = match parse_type(toks, q + 2) {
            Some(t) => t,
            None => return Err(fail("expected a type")),
        };
        let ghost before = params@;
        let ghost nv = name@;
        let var_node = Box::new(Node::Var(name));
        assert(node_view(*var_node) == NodeView::Var(nv));
        let param = Box::new(Node::FuncParam(var_node, typ, mutable));
        assert(node_view(*param) == NodeView::FuncParam(Box::new(NodeView::Var(nv)), typ, mutable));
        params.push(param);
        assert(params@.drop_last() =~= before);
        p = q + 3;
        if at(toks, p, Sym::RParen) {
            return Ok((params, p + 1));
        }
        if !at(toks, p, Sym::Comma) {
            return Err(fail("expected ',' or ')' in parameters"));
        }
        p = p + 1;
    }
}

/// `fn name(params) [-> type] { body }`
#[verifier::rlimit(100)]
fn parse_func(toks: &Vec<Token>, pos: usize) -> (r: Parsed)
    requires
        pos <= toks.len(),
    ensures
        advances(r, pos, toks.len()),
        agrees(r, g_func(views(toks@), pos as int)),
{
    if !at(toks, pos, Sym::Fn) {
        return Err(fail("expected 'fn'"));
    }
    let name = match ident(toks, pos + 1) {
        Some(n) => n,
        None => return Err(fail("expected a function name")),
    };
    if !at(toks, pos + 2, Sym::LParen) {
        return Err(fail("expected '('"));
    }
    let (params, mut p) = match parse_params(toks, pos + 3) {
        Ok(x) => x,
        Err(e) => return Err(e),
    };
    let mut r_type: Option<LiteralType> = None;
    if at(toks, p, Sym::Arrow) {
        match parse_type(toks, p + 1) {
            Some(t) => {
                r_type = Some(t);
                p = p + 2;
            },
            None => return Err(fail("expected a return type")),
        }
    }
    match parse_block(toks, p) {
        Ok((body, q)) => {
            let ghost nv = name@;
            let ghost pv = nodes_view(params@);
            let ghost bv = node_view(*body);
            let node = Node::Func { name, params, r_type, body };
            assert(node_view(node) == NodeView::Func { name: nv, params: pv, r_type, body: Box::new(bv) });
            Ok((Box::new(node), q))
        },
        Err(e) => Err(e),
    }
}

/// A whole program: function declarations up to the end of input.
pub fn parse_program(toks: &Vec<Token>) -> (r: Result<Vec<Box<Node>>, ParseError>)
    ensures
        match r {
            Ok(fs) => g_program(views(toks@), Seq::empty(), 0) == Some(nodes_view(fs@)),
            Err(_) => g_program(views(toks@), Seq::empty(), 0) is None,
        },
{
    let ghost tv = views(toks@);
    let mut funcs: Vec<Box<Node>> = Vec::new();
    let mut p: usize = 0;
    assert(nodes_view(funcs@) =~= Seq::<NodeView>::empty());
    while p < toks.len()
        invariant
            p <= toks.len(),
            tv == views(toks@),
            g_program(tv, Seq::empty(), 0) == g_program(tv, nodes_view(funcs@), p as int),
        decreases toks.len() - p,
    {
        let ghost before = funcs@;
        match parse_func(toks, p) {
            Ok((f, q)) => {
                funcs.push(f);
                p = q;
            },
            Err(e) => return Err(e),
        }
        assert(funcs@.drop_last() =~= before);
    }
    Ok(funcs)
}

/// A parse from the first token that must take every token.
pub fn whole(toks: &Vec<Token>, r: Parsed) -> (out: Result<Box<Node>, ParseError>)
    ensures
        forall|s: Step| agrees(r, s) ==> match g_whole(views(toks@), s) {
            Some(v) => out matches Ok(n) && node_view(*n) == v,
            None => out is Err,
        },
{
    match r {
        Ok((n, p)) => {
            if p == toks.len() {
                Ok(n)
            } else {
                Err(fail("unexpected token after the end"))
            }
        },
        Err(e) => Err(e),
    }
}

} // verus!
