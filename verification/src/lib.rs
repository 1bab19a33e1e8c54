//! A verified SQL front-end: a tokenizer and a recursive-descent parser for a
//! small SQL subset (SELECT, CREATE, UPDATE, INSERT, DELETE, DROP) with a
//! precedence-climbing expression sublanguage.
//!
//! The grammar itself is written as specification functions over sequences of
//! characters (`grammar` module); the executable tokenizer and parser are
//! proved to return exactly what the specification grammar says, including the
//! position of the first error on inputs that do not parse.

pub mod token;
pub mod statement;
pub mod tokenizer;
pub mod grammar;
pub mod parser;
