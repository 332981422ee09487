//! A recursive-descent parser for arithmetic expressions: numerals, the
//! constant `π`, the infix operators `+ - * / ^`, a leading minus sign,
//! parenthesised groups and a fixed set of named unary functions.
//!
//! Every parsing function is specified by the grammar written as spec
//! functions in [`grammar`], and proved to compute exactly what the grammar
//! says.
pub mod ast;
pub mod grammar;
pub mod numeral;
pub mod text;

pub use grammar::{parse_expr, parse_literal, ParseError};

pub use ast::{Expr, FunctionID};

