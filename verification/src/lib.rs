//! A single-pass bytecode compiler and stack machine for a small scripting
//! language, with every function proved against its contract.
//!
//! Source text flows through [`scanner`], [`compiler`] and [`chunk`] into the
//! machine of [`vm`]. Numbers are IEEE-754 doubles carried as their 64-bit
//! patterns: the library orders, compares and negates them, and whoever drives
//! it supplies what needs floating-point hardware (reading a literal, the four
//! arithmetic operations, writing a number out).

pub mod token;

pub mod text;
pub mod bin_op;
pub mod errors;
pub mod number;
pub mod object;
pub mod string;
pub mod value;
pub mod chunk;
pub mod namespace;
pub mod lexis;
pub mod scanner;
pub mod machine;
pub mod vm;
pub mod laws;
pub mod precedence;
pub mod syntax;
pub mod parser;
pub mod grammar;
pub mod compiler;
pub mod interpret;
