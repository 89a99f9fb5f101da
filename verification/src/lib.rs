//! Core of the Hera scripting language: a lexer, a Pratt (precedence-climbing)
//! parser, and a tree-walking evaluator with lexically scoped closures.
//!
//! Each stage is specified against a mathematical model: lexing and parsing
//! are proved equal to spec-level functions of the source text, and the
//! evaluator is proved equal to a spec-level interpreter over a scope arena.

pub mod token;
pub mod lexer;
pub mod ast;
pub mod object;
pub mod env;
pub mod builtins;
pub mod eval;
pub mod parser;
