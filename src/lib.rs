//! Front end of a small programming language: a tokenizer and a
//! statement-level parser, with contracts over a mathematical model of both.
pub mod ast;
pub mod lexer;
pub mod parser;
pub mod token;
