//! Shared types: registers, operands, expressions, instructions, directives, errors.

pub mod directive;
pub mod error;
pub mod expr;
pub mod instruction;
pub mod operand;
pub mod register;
pub mod reloc;
pub mod span;
pub mod statement;
