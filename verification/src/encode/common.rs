//! Operand helpers shared by the instruction encoders.

use vstd::prelude::*;
use crate::types::error::{AsmError, ErrorView, invalid_operand};
use crate::types::expr::Expr;
use crate::types::instruction::Mnemonic;
use crate::types::operand::Operand;
use crate::types::register::{RegWidth, Register, SpecialReg};
use crate::types::reloc::{PendingRelocation, RelocKind};
use crate::types::span::Span;
use crate::encode::{EncodedInst, EncodedView, with_reloc_view};

verus! {

/// An `InvalidOperand` error value with the given detail.
pub open spec fn bad_operand(detail: Seq<char>, span: Span) -> ErrorView {
    ErrorView::InvalidOperand { detail, span }
}

/// The register of a register operand.
pub open spec fn spec_expect_reg(op: Operand, span: Span) -> Result<Register, ErrorView> {
    match op {
        Operand::Register(r) => Ok(r),
        _ => Err(bad_operand("expected register"@, span)),
    }
}

/// Extract a Register reference from an operand.
pub fn expect_reg(op: &Operand, span: Span) -> (r: Result<&Register, AsmError>)
    ensures
        match r {
            Ok(x) => spec_expect_reg(*op, span) == Ok::<Register, ErrorView>(*x),
            Err(e) => spec_expect_reg(*op, span) == Err::<Register, ErrorView>(e@),
        },
{
    match op {
        Operand::Register(r) => Ok(r),
        _ => Err(invalid_operand("expected register", span)),
    }
}

/// The expression of an immediate operand.
pub open spec fn spec_expect_imm(op: Operand, span: Span) -> Result<Expr, ErrorView> {
    match op {
        Operand::Immediate(e) => Ok(e),
        _ => Err(bad_operand("expected immediate"@, span)),
    }
}

/// Extract an Expr reference from an immediate operand.
pub fn expect_imm(op: &Operand, span: Span) -> (r: Result<&Expr, AsmError>)
    ensures
        match r {
            Ok(x) => spec_expect_imm(*op, span) == Ok::<Expr, ErrorView>(*x),
            Err(e) => spec_expect_imm(*op, span) == Err::<Expr, ErrorView>(e@),
        },
{
    match op {
        Operand::Immediate(e) => Ok(e),
        _ => Err(invalid_operand("expected immediate", span)),
    }
}

/// Classified result from `expect_label_or_imm`.
pub enum LabelOrImm<'a> {
    Label(&'a str),
    Literal(i64),
    SymbolExpr(&'a Expr),
}

/// The abstract value of a `LabelOrImm`.
pub enum LabelOrImmView {
    Label(Seq<char>),
    Literal(i64),
    SymbolExpr(Expr),
}

impl<'a> View for LabelOrImm<'a> {
    type V = LabelOrImmView;

    open spec fn view(&self) -> LabelOrImmView {
        match self {
            LabelOrImm::Label(s) => LabelOrImmView::Label(s@),
            LabelOrImm::Literal(v) => LabelOrImmView::Literal(*v),
            LabelOrImm::SymbolExpr(e) => LabelOrImmView::SymbolExpr(**e),
        }
    }
}

/// A label name, a constant, or a non-constant expression.
pub open spec fn spec_label_or_imm(op: Operand, span: Span) -> Result<LabelOrImmView, ErrorView> {
    match op {
        Operand::Label(name) => Ok(LabelOrImmView::Label(name@)),
        Operand::Immediate(e) => match crate::types::expr::spec_as_literal(e) {
            Some(v) => Ok(LabelOrImmView::Literal(v)),
            None => Ok(LabelOrImmView::SymbolExpr(e)),
        },
        _ => Err(bad_operand("expected label or immediate"@, span)),
    }
}

/// Extract a label name, a literal, or a symbol expression from an operand.
pub fn expect_label_or_imm<'a>(op: &'a Operand, span: Span) -> (r: Result<LabelOrImm<'a>, AsmError>)
    ensures
        match r {
            Ok(x) => spec_label_or_imm(*op, span) == Ok::<LabelOrImmView, ErrorView>(x@),
            Err(e) => spec_label_or_imm(*op, span) == Err::<LabelOrImmView, ErrorView>(e@),
        },
{
    match op {
        Operand::Label(name) => Ok(LabelOrImm::Label(name.as_str())),
        Operand::Immediate(expr) => match expr.as_literal() {
            Some(v) => Ok(LabelOrImm::Literal(v)),
            None => Ok(LabelOrImm::SymbolExpr(expr)),
        },
        _ => Err(invalid_operand("expected label or immediate", span)),
    }
}

/// Whether a register is 64-bit; `None` for registers that are neither general-purpose nor special.
pub open spec fn spec_reg_is_64(r: Register) -> Option<bool> {
    match r {
        Register::Gp(g) => Some(g.width == RegWidth::X64),
        Register::Special(SpecialReg::Sp) => Some(true),
        Register::Special(SpecialReg::Xzr) => Some(true),
        Register::Special(SpecialReg::Wsp) => Some(false),
        Register::Special(SpecialReg::Wzr) => Some(false),
        _ => None,
    }
}

/// `spec_reg_is_64`, with the error reported for other registers.
pub open spec fn reg_width_view(r: Register, span: Span) -> Result<bool, ErrorView> {
    match spec_reg_is_64(r) {
        Some(b) => Ok(b),
        None => Err(bad_operand("expected general-purpose or special register"@, span)),
    }
}

/// Determine if a register is 64-bit.
pub fn reg_is_64(reg: &Register, span: Span) -> (r: Result<bool, AsmError>)
    ensures
        crate::types::error::result_view(r) == reg_width_view(*reg, span),
{
    match reg {
        Register::Gp(gp) => Ok(gp.width == RegWidth::X64),
        Register::Special(SpecialReg::Sp) => Ok(true),
        Register::Special(SpecialReg::Xzr) => Ok(true),
        Register::Special(SpecialReg::Wsp) => Ok(false),
        Register::Special(SpecialReg::Wzr) => Ok(false),
        _ => Err(invalid_operand("expected general-purpose or special register", span)),
    }
}

/// Whether a register is SP or WSP.
pub open spec fn spec_is_sp(r: Register) -> bool {
    r == Register::Special(SpecialReg::Sp) || r == Register::Special(SpecialReg::Wsp)
}

/// Check if a register is SP or WSP.
pub fn is_sp(reg: &Register) -> (r: bool)
    ensures
        r == spec_is_sp(*reg),
{
    match reg {
        Register::Special(SpecialReg::Sp) => true,
        Register::Special(SpecialReg::Wsp) => true,
        _ => false,
    }
}

/// Whether a mnemonic is one of ADD, ADDS, SUB, SUBS.
pub open spec fn is_add_sub(m: Mnemonic) -> bool {
    m == Mnemonic::Add || m == Mnemonic::Adds || m == Mnemonic::Sub || m == Mnemonic::Subs
}

/// The (op, S) bits of ADD/ADDS/SUB/SUBS.
pub open spec fn spec_add_sub_op_s(m: Mnemonic) -> (u32, u32) {
    match m {
        Mnemonic::Add => (0, 0),
        Mnemonic::Adds => (0, 1),
        Mnemonic::Sub => (1, 0),
        _ => (1, 1),
    }
}

/// Extract (op, S) bits for ADD/SUB/ADDS/SUBS.
pub fn add_sub_op_s(mnemonic: Mnemonic) -> (r: (u32, u32))
    requires
        is_add_sub(mnemonic),
    ensures
        r == spec_add_sub_op_s(mnemonic),
        r.0 < 2 && r.1 < 2,
{
    match mnemonic {
        Mnemonic::Add => (0, 0),
        Mnemonic::Adds => (0, 1),
        Mnemonic::Sub => (1, 0),
        _ => (1, 1),
    }
}

/// Whether a mnemonic is one of AND, ORR, EOR, ANDS.
pub open spec fn is_logical(m: Mnemonic) -> bool {
    m == Mnemonic::And || m == Mnemonic::Orr || m == Mnemonic::Eor || m == Mnemonic::Ands
}

/// The opc field of AND/ORR/EOR/ANDS.
pub open spec fn spec_logical_opc(m: Mnemonic) -> u32 {
    match m {
        Mnemonic::And => 0,
        Mnemonic::Orr => 1,
        Mnemonic::Eor => 2,
        _ => 3,
    }
}

/// Extract opc for AND/ORR/EOR/ANDS.
pub fn logical_opc(mnemonic: Mnemonic) -> (r: u32)
    requires
        is_logical(mnemonic),
    ensures
        r == spec_logical_opc(mnemonic),
        r < 4,
{
    match mnemonic {
        Mnemonic::And => 0b00,
        Mnemonic::Orr => 0b01,
        Mnemonic::Eor => 0b10,
        _ => 0b11,
    }
}

/// The zero register of the given width.
pub open spec fn spec_zero_reg(is_64: bool) -> Register {
    if is_64 { Register::Special(SpecialReg::Xzr) } else { Register::Special(SpecialReg::Wzr) }
}

/// Return the zero register matching the given width.
pub fn zero_reg(is_64: bool) -> (r: Register)
    ensures
        r == spec_zero_reg(is_64),
{
    if is_64 {
        Register::Special(SpecialReg::Xzr)
    } else {
        Register::Special(SpecialReg::Wzr)
    }
}

/// A relocation against the symbol that a bare symbol expression names.
pub open spec fn spec_label_reloc(expr: Expr, base: u32, kind: RelocKind, span: Span) -> Result<EncodedView, ErrorView> {
    match expr {
        Expr::Symbol(name) => Ok(with_reloc_view(base, kind, name@, 0)),
        _ => Err(bad_operand("expected label or literal immediate"@, span)),
    }
}

/// Extract relocation info from a non-literal Expr.
pub fn label_reloc_from_expr(expr: &Expr, base: u32, kind: RelocKind, span: Span) -> (r: Result<EncodedInst, AsmError>)
    ensures
        crate::encode::common::enc_view(r) == spec_label_reloc(*expr, base, kind, span),
{
    match expr {
        Expr::Symbol(name) => Ok(EncodedInst::with_reloc(base, PendingRelocation::simple(kind, name.clone()))),
        _ => Err(invalid_operand("expected label or literal immediate", span)),
    }
}

/// The abstract value of an encoding result.
pub open spec fn enc_view(r: Result<EncodedInst, AsmError>) -> Result<EncodedView, ErrorView> {
    match r {
        Ok(e) => Ok(e@),
        Err(e) => Err(e@),
    }
}

} // verus!
