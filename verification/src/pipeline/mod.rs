//! Two-pass assembler pipeline.
//!
//! Orchestrates lexing, parsing, symbol resolution, encoding, and Mach-O emission.

pub mod assoc;
pub mod context;
pub mod pass1;
pub mod pass2;
pub mod assembler;

pub use assembler::assemble;
pub mod layout;
