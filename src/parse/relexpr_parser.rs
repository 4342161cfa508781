use vstd::prelude::*;

use super::ParseError;
use crate::ast::Node;
use crate::grammar::{parse_rel, whole};
use crate::grammar_spec::{g_rel, g_whole};
use crate::lexer::{lex, tokenize};
use crate::tree_view::{node_view, NodeView};

verus! {

/// The tree of `s` read whole as a sum or a comparison of two sums (`&&` and `||` only inside parentheses).
pub open spec fn comparison_of(s: Seq<char>) -> Option<NodeView> {
    match lex(s) {
        Some(tv) => g_whole(tv, g_rel(tv, 0)),
        None => None,
    }
}

/// Parses the whole of `s` as a sum or a comparison of two sums (`&&` and `||` only inside parentheses).
pub fn parse(s: &str) -> (r: Result<Box<Node>, ParseError>)
    ensures
        match comparison_of(s@) {
            Some(v) => r matches Ok(n) && node_view(*n) == v,
            None => r is Err,
        },
{
    let toks = match tokenize(s) {
        Ok(t) => t,
        Err(e) => return Err(e),
    };
    whole(&toks, parse_rel(&toks, 0))
}

} // verus!
