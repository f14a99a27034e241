//! A front end for SQL `SELECT` statements: a lexical scanner, a
//! precedence-climbing expression parser, and a statement parser that
//! together turn one line of query text into an abstract syntax tree,
//! or into a typed parse error.

pub mod ast;
pub mod tokenizer;
pub mod pratt;
pub mod parser;
