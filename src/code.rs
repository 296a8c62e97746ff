//! A small scripting language: its tokens, lexer, parser and interpreter.

pub mod token;
pub mod lexer;
pub mod parser;
pub mod interpreter;
