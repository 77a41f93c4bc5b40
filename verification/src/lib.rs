//! An ARM64 assembler producing Mach-O relocatable objects.

pub mod encode;
pub mod text;
pub mod types;
pub mod macho;
pub mod pipeline;
pub mod lexer;
pub mod parser;
