//! A small ahead-of-time compiler: source text is scanned into tokens, parsed
//! into a syntax tree and lowered to textual assembly for a stack-frame-based
//! calling convention.

pub mod assembly;
pub mod ast;
pub mod codegen;
pub mod compiler_context;
pub mod driver;
pub mod error;
pub mod interner;
pub mod laws;
pub mod parser;
pub mod scanner;
pub mod scope;
pub mod span;
pub mod text;
