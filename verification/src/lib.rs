//! A verified lexical scanner: a single pass over source text that produces a
//! flat sequence of classified tokens, with multi-character operators, bracket
//! delimiters, line comments, string literals with escape sequences, and
//! numeric literals in several bases.

pub mod error;
pub mod keyword;
pub mod laws;
pub mod lexer;
pub mod model;
pub mod parser;
pub mod reporter;
pub mod scanner;
pub mod text;
pub mod token;
pub mod tokenizer;
pub mod transpiler;
