use vstd::prelude::*;

use super::ParseError;
use crate::ast::Node;
use crate::grammar::{parse_stmts, whole};
use crate::grammar_spec::{g_stmts, g_whole};
use crate::lexer::{lex, tokenize};
use crate::tree_view::{node_view, NodeView};

verus! {

/// The tree of `s` read whole as a sequence of statements, chained in order.
pub open spec fn statements_of(s: Seq<char>) -> Option<NodeView> {
    match lex(s) {
        Some(tv) => g_whole(tv, g_stmts(tv, 0)),
        None => None,
    }
}

/// Parses the whole of `s` as a sequence of statements, chained in order.
pub fn parse(s: &str) -> (r: Result<Box<Node>, ParseError>)
    ensures
        match statements_of(s@) {
            Some(v) => r matches Ok(n) && node_view(*n) == v,
            None => r is Err,
        },
{
    let toks = match tokenize(s) {
        Ok(t) => t,
        Err(e) => return Err(e),
    };
    whole(&toks, parse_stmts(&toks, 0))
}

} // verus!
