//! Senbonzakura: a small indentation-sensitive language that compiles to Python.
//!
//! The library holds the whole pipeline as verified code: source handling,
//! the lexer, the parser, the type checker and the Python emitter.

pub mod text;
pub mod source;
pub mod errors;
pub mod token;
pub mod lexer;
pub mod ast;
pub mod ast_clone;
pub mod parser;
pub mod expr_parser;
pub mod types;
pub mod environment;
pub mod stmt_spec;
pub mod stmt_parser;
pub mod block_parser;
pub mod emit_spec;
pub mod emitter;
pub mod check_spec;
pub mod checker;
pub mod synth;
pub mod check_stmts;
pub mod check_defs;
pub mod imports;
pub mod parsed_imports;
pub mod paths;
pub mod compiler;
pub mod ide;
pub mod round_trip;
pub mod laws;
