//! Parsed statements.

use vstd::prelude::*;
use crate::types::directive::{Directive, DirectiveView};
use crate::types::instruction::{Instruction, InstructionView};
use crate::types::span::Span;

verus! {

/// A single parsed statement.
///
/// A line like `_main: nop` produces two statements (`Label` + `Instruction`).
#[derive(Debug, PartialEq)]
pub enum Statement {
    Label { name: String, span: Span },
    Instruction(Instruction),
    Directive { directive: Directive, span: Span },
}

/// The abstract value of a statement.
pub enum StatementView {
    Label { name: Seq<char>, span: Span },
    Instruction(InstructionView),
    Directive { directive: DirectiveView, span: Span },
}

impl View for Statement {
    type V = StatementView;

    open spec fn view(&self) -> StatementView {
        match self {
            Statement::Label { name, span } => StatementView::Label { name: name@, span: *span },
            Statement::Instruction(i) => StatementView::Instruction(i@),
            Statement::Directive { directive, span } => StatementView::Directive { directive: directive@, span: *span },
        }
    }
}

} // verus!
