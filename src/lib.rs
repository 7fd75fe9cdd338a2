//! A lexer and backtracking recursive-descent parser for a Lua-like language.

pub mod ast;
pub mod grammar;
pub mod parser;
pub mod position;
pub mod tokenizer;
