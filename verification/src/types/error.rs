//! Assembler errors with source locations.

use vstd::prelude::*;
use crate::text::{decimal_digits, push_decimal, push_signed_decimal, push_str, signed_decimal};
use crate::types::span::Span;

verus! {

/// A single assembler error with source location.
#[derive(Debug, PartialEq, Eq)]
pub enum AsmError {
    UnknownMnemonic { mnemonic: String, span: Span },
    InvalidOperand { detail: String, span: Span },
    ImmediateOutOfRange { value: i64, span: Span },
    UndefinedSymbol { name: String, span: Span },
    DuplicateSymbol { name: String, span: Span },
    BranchOutOfRange { span: Span },
    InvalidRegister { name: String, span: Span },
    WrongOperandCount { expected: usize, got: usize, span: Span },
    InvalidDirective { detail: String, span: Span },
    LexError { detail: String, span: Span },
    ParseError { detail: String, span: Span },
    InvalidAlignment { span: Span },
    UnresolvedExpression { span: Span },
    ObjectEmission { detail: String, span: Span },
}

/// A collection of assembler errors for multi-error reporting.
#[derive(Debug, PartialEq, Eq)]
pub struct AsmErrors {
    pub errors: Vec<AsmError>,
}

impl AsmErrors {
    pub fn new(errors: Vec<AsmError>) -> (r: AsmErrors)
        ensures
            r.errors == errors,
    {
        AsmErrors { errors }
    }

    pub fn is_empty(&self) -> (r: bool)
        ensures
            r == (self.errors@.len() == 0),
    {
        self.errors.len() == 0
    }

    /// The summary line: `assembly failed with N error(s)`.
    pub fn to_string(&self) -> (r: String)
        ensures
            r@ == "assembly failed with "@ + decimal_digits(self.errors@.len()) + " error(s)"@,
    {
        let mut s = String::new();
        push_str(&mut s, "assembly failed with ");
        push_decimal(&mut s, self.errors.len() as u64);
        push_str(&mut s, " error(s)");
        s
    }
}

/// The abstract value of an error: its variant, with text fields as character sequences.
pub enum ErrorView {
    UnknownMnemonic { mnemonic: Seq<char>, span: Span },
    InvalidOperand { detail: Seq<char>, span: Span },
    ImmediateOutOfRange { value: i64, span: Span },
    UndefinedSymbol { name: Seq<char>, span: Span },
    DuplicateSymbol { name: Seq<char>, span: Span },
    BranchOutOfRange { span: Span },
    InvalidRegister { name: Seq<char>, span: Span },
    WrongOperandCount { expected: usize, got: usize, span: Span },
    InvalidDirective { detail: Seq<char>, span: Span },
    LexError { detail: Seq<char>, span: Span },
    ParseError { detail: Seq<char>, span: Span },
    InvalidAlignment { span: Span },
    UnresolvedExpression { span: Span },
    ObjectEmission { detail: Seq<char>, span: Span },
}

impl View for AsmError {
    type V = ErrorView;

    open spec fn view(&self) -> ErrorView {
        match self {
            AsmError::UnknownMnemonic { mnemonic, span } => ErrorView::UnknownMnemonic { mnemonic: mnemonic@, span: *span },
            AsmError::InvalidOperand { detail, span } => ErrorView::InvalidOperand { detail: detail@, span: *span },
            AsmError::ImmediateOutOfRange { value, span } => ErrorView::ImmediateOutOfRange { value: *value, span: *span },
            AsmError::UndefinedSymbol { name, span } => ErrorView::UndefinedSymbol { name: name@, span: *span },
            AsmError::DuplicateSymbol { name, span } => ErrorView::DuplicateSymbol { name: name@, span: *span },
            AsmError::BranchOutOfRange { span } => ErrorView::BranchOutOfRange { span: *span },
            AsmError::InvalidRegister { name, span } => ErrorView::InvalidRegister { name: name@, span: *span },
            AsmError::WrongOperandCount { expected, got, span } => ErrorView::WrongOperandCount { expected: *expected, got: *got, span: *span },
            AsmError::InvalidDirective { detail, span } => ErrorView::InvalidDirective { detail: detail@, span: *span },
            AsmError::LexError { detail, span } => ErrorView::LexError { detail: detail@, span: *span },
            AsmError::ParseError { detail, span } => ErrorView::ParseError { detail: detail@, span: *span },
            AsmError::InvalidAlignment { span } => ErrorView::InvalidAlignment { span: *span },
            AsmError::UnresolvedExpression { span } => ErrorView::UnresolvedExpression { span: *span },
            AsmError::ObjectEmission { detail, span } => ErrorView::ObjectEmission { detail: detail@, span: *span },
        }
    }
}

/// The abstract value of a result whose error is an assembler error.
pub open spec fn result_view<T>(r: Result<T, AsmError>) -> Result<T, ErrorView> {
    match r {
        Ok(t) => Ok(t),
        Err(e) => Err(e@),
    }
}

/// A string with the given characters (`str::to_owned`).
pub fn owned(s: &str) -> (r: String)
    ensures
        r@ == s@,
{
    s.to_owned()
}

/// An `InvalidOperand` error carrying the given detail text.
pub fn invalid_operand(detail: &str, span: Span) -> (r: AsmError)
    ensures
        r@ == (ErrorView::InvalidOperand { detail: detail@, span }),
{
    AsmError::InvalidOperand { detail: owned(detail), span }
}

impl AsmError {
    /// The one-line message of the error (its span is not part of the message).
    pub open spec fn message(self) -> Seq<char> {
        match self {
            AsmError::UnknownMnemonic { mnemonic, .. } => "unknown mnemonic `"@ + mnemonic@ + "`"@,
            AsmError::InvalidOperand { .. } => "invalid operand"@,
            AsmError::ImmediateOutOfRange { value, .. } => "immediate value "@ + signed_decimal(value as int) + " out of range"@,
            AsmError::UndefinedSymbol { name, .. } => "undefined symbol `"@ + name@ + "`"@,
            AsmError::DuplicateSymbol { name, .. } => "duplicate symbol `"@ + name@ + "`"@,
            AsmError::BranchOutOfRange { .. } => "branch target out of range"@,
            AsmError::InvalidRegister { name, .. } => "invalid register `"@ + name@ + "`"@,
            AsmError::WrongOperandCount { expected, got, .. } => "wrong number of operands: expected "@
                + decimal_digits(expected as nat) + ", got "@ + decimal_digits(got as nat),
            AsmError::InvalidDirective { .. } => "invalid directive"@,
            AsmError::LexError { .. } => "lexer error"@,
            AsmError::ParseError { .. } => "parse error"@,
            AsmError::InvalidAlignment { .. } => "invalid alignment"@,
            AsmError::UnresolvedExpression { .. } => "unresolved expression"@,
            AsmError::ObjectEmission { detail, .. } => "object emission error: "@ + detail@,
        }
    }

    /// The one-line message of the error.
    pub fn to_string(&self) -> (r: String)
        ensures
            r@ == self.message(),
    {
        let mut s = String::new();
        match self {
            AsmError::UnknownMnemonic { mnemonic, .. } => {
                push_str(&mut s, "unknown mnemonic `");
                push_str(&mut s, mnemonic.as_str());
                push_str(&mut s, "`");
            },
            AsmError::InvalidOperand { .. } => push_str(&mut s, "invalid operand"),
            AsmError::ImmediateOutOfRange { value, .. } => {
                push_str(&mut s, "immediate value ");
                push_signed_decimal(&mut s, *value);
                push_str(&mut s, " out of range");
            },
            AsmError::UndefinedSymbol { name, .. } => {
                push_str(&mut s, "undefined symbol `");
                push_str(&mut s, name.as_str());
                push_str(&mut s, "`");
            },
            AsmError::DuplicateSymbol { name, .. } => {
                push_str(&mut s, "duplicate symbol `");
                push_str(&mut s, name.as_str());
                push_str(&mut s, "`");
            },
            AsmError::BranchOutOfRange { .. } => push_str(&mut s, "branch target out of range"),
            AsmError::InvalidRegister { name, .. } => {
                push_str(&mut s, "invalid register `");
                push_str(&mut s, name.as_str());
                push_str(&mut s, "`");
            },
            AsmError::WrongOperandCount { expected, got, .. } => {
                push_str(&mut s, "wrong number of operands: expected ");
                push_decimal(&mut s, *expected as u64);
                push_str(&mut s, ", got ");
                push_decimal(&mut s, *got as u64);
            },
            AsmError::InvalidDirective { .. } => push_str(&mut s, "invalid directive"),
            AsmError::LexError { .. } => push_str(&mut s, "lexer error"),
            AsmError::ParseError { .. } => push_str(&mut s, "parse error"),
            AsmError::InvalidAlignment { .. } => push_str(&mut s, "invalid alignment"),
            AsmError::UnresolvedExpression { .. } => push_str(&mut s, "unresolved expression"),
            AsmError::ObjectEmission { detail, .. } => {
                push_str(&mut s, "object emission error: ");
                push_str(&mut s, detail.as_str());
            },
        }
        s
    }
}

} // verus!
