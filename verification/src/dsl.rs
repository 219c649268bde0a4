//! The composition DSL: a tokenizer, a recursive-descent parser and the
//! syntax tree it produces.
pub mod ast;
pub mod names;
pub mod tokenizer;
pub mod grammar;
pub mod parser;
pub mod checks;
