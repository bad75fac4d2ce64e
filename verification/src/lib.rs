//! A small scripting language: a lexer, a recursive-descent parser and a
//! tree-walking evaluator, each with a machine-checked contract.
//!
//! Floating-point arithmetic and output are left to a host that the caller
//! supplies; everything the language decides is decided here, and holds
//! whatever the host replies.
pub mod text;
pub mod number;
pub mod value;
pub mod env;
pub mod tree;
pub mod token;
pub mod scan;
pub mod lexer;
pub mod grammar;
pub mod parser;
pub mod shape;
pub mod spelling;
pub mod semantics;
pub mod replies;
pub mod interpreter;
pub mod laws;
pub mod translator;
