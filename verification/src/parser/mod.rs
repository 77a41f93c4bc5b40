//! ARM64 assembly parser.
//!
//! Hand-written recursive descent parser that consumes the lexer's token stream
//! and produces statements. Line-oriented: each line may have an optional
//! label, then an instruction or directive.

pub mod state;
pub mod expr;
pub mod operand;
pub mod instruction;
pub mod directive;
pub mod statement;

pub use statement::parse;
