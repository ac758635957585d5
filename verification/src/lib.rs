//! A small line-oriented scripting language: a character-level scanner/parser
//! that builds a statement/expression tree, and a tree-walking evaluator with a
//! depth-addressed scope chain, first-class lambdas and a pluggable table of
//! native functions.

pub mod ast;
pub mod errors;
pub mod laws;
pub mod natives;
pub mod scan;
pub mod sem;
pub mod runtime;
pub mod text;
pub mod tokenizer;
pub mod utils;
pub mod values;
