//! A transpiler from a small Java subset to Rust source: a lexer, a
//! recursive-descent parser with scope tracking, a model of a few Java
//! standard-library types, and a code emitter.
pub mod text;
pub mod token;
pub mod lexer;
pub mod error;
pub mod variable;
pub mod nodes;
pub mod stdlib;
pub mod java_string;
pub mod expr;
pub mod method;
pub mod parser;
pub mod convert;
