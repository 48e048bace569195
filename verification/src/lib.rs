//! A small expression language, front to back: lexical scanning,
//! recursive-descent parsing into a syntax tree, and tree-walking
//! evaluation down to a runtime value.
//!
//! Numbers are IEEE 754 binary64 values, carried everywhere as their
//! 64-bit patterns; rounding arithmetic, decimal conversion and decimal
//! rendering go through `rustc_apfloat`, while negation, equality and
//! ordering are defined and verified here at the bit level.

pub mod ast;
pub mod ast_printer;
pub mod error;
pub mod interpreter;
pub mod lox;
pub mod numeric;
pub mod parser;
pub mod scanner;
pub mod text;
pub mod token;
