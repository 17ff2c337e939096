//! A tree-walking interpreter for a small dynamically typed scripting
//! language with closures and classes: its lexer, its parser, its scope
//! resolver and its evaluator, written so that Verus checks what each
//! part promises.
//!
//! What a program means is stated in [`semantics`], what a text means as
//! a program in [`lexer`] and [`grammar`], and what the resolver finds in
//! [`resolver`]; [`interpreter`], [`parser`] and the rest do what is
//! stated there. [`laws`] and [`soundness`] hold what follows for the
//! language as a whole.
//!
//! The library does no arithmetic on floating-point numbers and no input
//! or output. It asks a [`float_unit::FloatUnit`] for the first, and
//! gathers what a program prints, for its caller to show.

pub mod ast;
pub mod ast_printer;
pub mod callable;
pub mod environment;
pub mod error;
pub mod expr;
pub mod float_unit;
pub mod grammar;
pub mod interpreter;
pub mod laws;
pub mod lexer;
pub mod lox_class;
pub mod lox_instance;
pub mod name_map;
pub mod object;
pub mod operators;
pub mod parser;
pub mod resolver;
pub mod semantics;
pub mod session;
pub mod soundness;
pub mod stmt;
pub mod text;
pub mod token;
pub mod token_type;
