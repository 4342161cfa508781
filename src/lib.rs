//! A small statically typed imperative language: its syntax tree, a static
//! type checker that reports every error it finds, and a tree-walking
//! interpreter, together with the scope and value runtime they share.

pub mod ast;
pub mod context;
pub mod function;


pub mod operators;
pub mod scope;
pub mod sum_tree;

pub mod type_checker;
pub mod type_errors;
pub mod types;
pub mod tree_view;
pub mod value;
pub mod variable;
pub mod lexer;
pub mod parse;
pub mod grammar;
pub mod grammar_spec;
pub mod interpreter;
pub mod laws;
