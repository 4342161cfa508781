use vstd::prelude::*;

use super::ParseError;
use crate::ast::Node;
use crate::grammar::parse_program;
use crate::grammar_spec::g_program;
use crate::lexer::{lex, tokenize};
use crate::tree_view::{nodes_view, NodeView};

verus! {

/// The function declarations that `s` reads as.
pub open spec fn program_of(s: Seq<char>) -> Option<Seq<NodeView>> {
    match lex(s) {
        Some(tv) => g_program(tv, Seq::empty(), 0),
        None => None,
    }
}

/// Parses a program: a sequence of function declarations.
pub fn parse(s: String) -> (r: Result<Vec<Box<Node>>, ParseError>)
    ensures
        match program_of(s@) {
            Some(v) => r matches Ok(fs) && nodes_view(fs@) == v,
            None => r is Err,
        },
{
    let toks = match tokenize(s.as_str()) {
        Ok(t) => t,
        Err(e) => return Err(e),
    };
    parse_program(&toks)
}

} // verus!
