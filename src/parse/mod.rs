//! Entry points of the parser, one for each kind of phrase.

use vstd::prelude::*;

pub mod content_parser;
pub mod expr_parser;
pub mod keyword_parser;
pub mod let_parser;
pub mod logexpr_parser;
pub mod program_parser;
pub mod relexpr_parser;
pub mod statement_parser;

verus! {

/// Why source text could not be parsed.
#[derive(Debug)]
pub struct ParseError {
    pub message: String,
}

} // verus!
