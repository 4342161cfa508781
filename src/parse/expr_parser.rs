use vstd::prelude::*;

use super::ParseError;
use crate::ast::Node;
use crate::grammar::{parse_or, whole};
use crate::grammar_spec::{g_or, g_whole};
use crate::lexer::{lex, tokenize};
use crate::tree_view::{node_view, NodeView};

verus! {

/// The tree of `s` read whole as an expression.
pub open spec fn expression_of(s: Seq<char>) -> Option<NodeView> {
    match lex(s) {
        Some(tv) => g_whole(tv, g_or(tv, 0)),
        None => None,
    }
}

/// Parses the whole of `s` as an expression.
pub fn parse(s: &str) -> (r: Result<Box<Node>, ParseError>)
    ensures
        match expression_of(s@) {
            Some(v) => r matches Ok(n) && node_view(*n) == v,
            None => r is Err,
        },
{
    let toks = match tokenize(s) {
        Ok(t) => t,
        Err(e) => return Err(e),
    };
    whole(&toks, parse_or(&toks, 0))
}

} // verus!
