use vstd::prelude::*;

use super::ParseError;
use crate::ast::Node;
use crate::grammar::{parse_let, whole};
use crate::grammar_spec::{g_let, g_whole};
use crate::lexer::{lex, tokenize};
use crate::tree_view::{node_view, NodeView};

verus! {

/// The tree of `s` read whole as a `let` declaration without the closing `;`.
pub open spec fn declaration_of(s: Seq<char>) -> Option<NodeView> {
    match lex(s) {
        Some(tv) => g_whole(tv, g_let(tv, 0, false)),
        None => None,
    }
}

/// Parses the whole of `s` as a `let` declaration without the closing `;`.
pub fn parse(s: &str) -> (r: Result<Box<Node>, ParseError>)
    ensures
        match declaration_of(s@) {
            Some(v) => r matches Ok(n) && node_view(*n) == v,
            None => r is Err,
        },
{
    let toks = match tokenize(s) {
        Ok(t) => t,
        Err(e) => return Err(e),
    };
    whole(&toks, parse_let(&toks, 0, false))
}

} // verus!
