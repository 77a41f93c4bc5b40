//! Data Processing — Immediate instruction encoders.

use vstd::prelude::*;
use crate::text::{hex_digits, push_hex, push_str};
use crate::types::error::{AsmError, ErrorView, invalid_operand};
use crate::types::expr::{Expr, RelocModifier, spec_as_literal};
use crate::types::instruction::Mnemonic;
use crate::types::operand::{Operand, ShiftOp};
use crate::types::register::Register;
use crate::types::reloc::{PendingRelocation, RelocKind};
use crate::types::span::Span;
use crate::encode::{EncodedInst, EncodedView, plain, with_reloc_view};
use crate::encode::common::{
    add_sub_op_s, bad_operand, enc_view, expect_imm, expect_reg, is_add_sub, is_logical, logical_opc,
    reg_is_64, reg_width_view, spec_add_sub_op_s, spec_expect_imm, spec_expect_reg, spec_logical_opc,
};
use crate::encode::fields::{lemma_field_limits, set_field, set_rd, set_rn, set_sf, spec_set_field, spec_set_sf};
use crate::encode::bitmask::{encode_bitmask_imm, spec_encode_bitmask};

verus! {

/// `sf op S 100010 sh imm12 Rn Rd`
pub open spec fn add_sub_imm_word(is_64: bool, op: u32, s: u32, sh: u32, imm12: u32, rn: u32, rd: u32) -> u32 {
    spec_set_sf(0x1100_0000, is_64) | (op << 30) | (s << 29) | (sh << 22) | (imm12 << 10) | (rn << 5) | rd
}

proof fn lemma_add_sub_imm_word(is_64: bool, op: u32, s: u32, sh: u32, imm12: u32, rn: u32, rd: u32)
    requires
        op < 2, s < 2, sh < 2, imm12 < 4096, rn < 32, rd < 32,
    ensures
        spec_set_field(spec_set_field(spec_set_field(spec_set_field(spec_set_field(spec_set_field(
            spec_set_sf(0x1100_0000, is_64), 30, 30, op), 29, 29, s), 4, 0, rd), 9, 5, rn), 22, 22, sh), 21, 10, imm12)
            == add_sub_imm_word(is_64, op, s, sh, imm12, rn, rd),
        spec_set_field(spec_set_field(spec_set_field(spec_set_field(
            spec_set_sf(0x1100_0000, is_64), 30, 30, op), 29, 29, s), 4, 0, rd), 9, 5, rn)
            == add_sub_imm_word(is_64, op, s, 0, 0, rn, rd),
{
    assert(spec_set_field(spec_set_field(spec_set_field(spec_set_field(spec_set_field(spec_set_field(
            spec_set_sf(0x1100_0000, is_64), 30, 30, op), 29, 29, s), 4, 0, rd), 9, 5, rn), 22, 22, sh), 21, 10, imm12)
            == add_sub_imm_word(is_64, op, s, sh, imm12, rn, rd)
        && spec_set_field(spec_set_field(spec_set_field(spec_set_field(
            spec_set_sf(0x1100_0000, is_64), 30, 30, op), 29, 29, s), 4, 0, rd), 9, 5, rn)
            == add_sub_imm_word(is_64, op, s, 0, 0, rn, rd)) by (bit_vector)
        requires op < 2, s < 2, sh < 2, imm12 < 4096, rn < 32, rd < 32;
}

/// The (sh, imm12) pair for an ADD/SUB immediate: unshifted when it fits in 12 bits,
/// shifted by 12 when it is a multiple of 4096 below 2^24; `None` otherwise.
pub open spec fn spec_imm12(value: i64) -> Option<(u32, u32)> {
    if value < 0 {
        None
    } else if value <= 0xFFF {
        Some((0, value as u32))
    } else if value <= 0xFF_F000 && value % 4096 == 0 {
        Some((1, (value / 4096) as u32))
    } else {
        None
    }
}

/// The result of ADD/SUB/ADDS/SUBS (immediate).
pub open spec fn spec_add_sub_imm(m: Mnemonic, rd: Register, rn: Register, imm: Expr, span: Span) -> Result<EncodedView, ErrorView> {
    match reg_width_view(rd, span) {
        Err(e) => Err(e),
        Ok(is_64) => {
            let (op, s) = spec_add_sub_op_s(m);
            let rdn = rd.spec_encoding() as u32;
            let rnn = rn.spec_encoding() as u32;
            match imm {
                Expr::Relocated { modifier: RelocModifier::Lo12, symbol, addend } =>
                    Ok(with_reloc_view(add_sub_imm_word(is_64, op, s, 0, 0, rnn, rdn), RelocKind::PageOff12, symbol@, addend)),
                _ => match spec_as_literal(imm) {
                    None => Err(bad_operand("ADD/SUB immediate requires a constant or :lo12: relocation"@, span)),
                    Some(value) => match spec_imm12(value) {
                        None => Err(ErrorView::ImmediateOutOfRange { value, span }),
                        Some((sh, imm12)) => Ok(plain(add_sub_imm_word(is_64, op, s, sh, imm12, rnn, rdn))),
                    },
                },
            }
        },
    }
}

/// Encode ADD/SUB/ADDS/SUBS immediate.
pub fn encode_add_sub_imm(mnemonic: Mnemonic, rd: &Register, rn: &Register, imm_expr: &Expr, span: Span) -> (r: Result<EncodedInst, AsmError>)
    requires
        is_add_sub(mnemonic),
        rd.wf(), rn.wf(),
    ensures
        enc_view(r) == spec_add_sub_imm(mnemonic, *rd, *rn, *imm_expr, span),
{
    let is_64 = reg_is_64(rd, span)?;
    let (op, s_bit) = add_sub_op_s(mnemonic);
    proof { lemma_field_limits(); }
    let mut inst: u32 = 0x1100_0000;
    inst = set_sf(inst, is_64);
    inst = set_field(inst, 30, 30, op);
    inst = set_field(inst, 29, 29, s_bit);
    inst = set_rd(inst, rd.encoding());
    inst = set_rn(inst, rn.encoding());
    let ghost rdn = rd.spec_encoding() as u32;
    let ghost rnn = rn.spec_encoding() as u32;
    proof { lemma_add_sub_imm_word(is_64, op, s_bit, 0, 0, rnn, rdn); }
    match imm_expr {
        Expr::Relocated { modifier: RelocModifier::Lo12, symbol, addend } => {
            return Ok(EncodedInst::with_reloc(
                inst,
                PendingRelocation { kind: RelocKind::PageOff12, symbol: symbol.clone(), addend: *addend },
            ));
        },
        _ => {},
    }
    let value = match imm_expr.as_literal() {
        Some(v) => v,
        None => {
            return Err(invalid_operand("ADD/SUB immediate requires a constant or :lo12: relocation", span));
        },
    };
    if value < 0 {
        return Err(AsmError::ImmediateOutOfRange { value, span });
    }
    assert((value & 0xFFF == 0 <==> value % 4096 == 0) && value >> 12 == value / 4096) by (bit_vector) requires value >= 0;
    let (sh, imm12): (u32, u32) = if value <= 0xFFF {
        (0, value as u32)
    } else if value <= 0xFF_F000 && (value & 0xFFF) == 0 {
        (1, (value >> 12) as u32)
    } else {
        return Err(AsmError::ImmediateOutOfRange { value, span });
    };
    let ghost before = inst;
    inst = set_field(inst, 22, 22, sh);
    inst = set_field(inst, 21, 10, imm12);
    proof { lemma_add_sub_imm_word(is_64, op, s_bit, sh, imm12, rnn, rdn); }
    Ok(EncodedInst::new(inst))
}

/// The result of ADD/SUB immediate with an explicit `LSL #shift` operand.
pub open spec fn spec_add_sub_imm_with_shift(m: Mnemonic, rd: Register, rn: Register, imm: Expr, shift: i64, span: Span) -> Result<EncodedView, ErrorView> {
    match reg_width_view(rd, span) {
        Err(e) => Err(e),
        Ok(is_64) => {
            let (op, s) = spec_add_sub_op_s(m);
            match spec_as_literal(imm) {
                None => Err(bad_operand("shifted immediate requires a literal value"@, span)),
                Some(value) => if shift != 0 && shift != 12 {
                    Err(bad_operand("ADD/SUB immediate shift must be 0 or 12"@, span))
                } else if value < 0 || value > 0xFFF {
                    Err(ErrorView::ImmediateOutOfRange { value, span })
                } else {
                    Ok(plain(add_sub_imm_word(is_64, op, s, if shift == 12 { 1 } else { 0 }, value as u32,
                        rn.spec_encoding() as u32, rd.spec_encoding() as u32)))
                },
            }
        },
    }
}

/// Encode ADD/SUB immediate with explicit shift operand.
pub fn encode_add_sub_imm_with_shift(
    mnemonic: Mnemonic,
    rd: &Register,
    rn: &Register,
    imm_expr: &Expr,
    shift_amount: i64,
    span: Span,
) -> (r: Result<EncodedInst, AsmError>)
    requires
        is_add_sub(mnemonic),
        rd.wf(), rn.wf(),
    ensures
        enc_view(r) == spec_add_sub_imm_with_shift(mnemonic, *rd, *rn, *imm_expr, shift_amount, span),
{
    let is_64 = reg_is_64(rd, span)?;
    let (op, s_bit) = add_sub_op_s(mnemonic);
    let value = match imm_expr.as_literal() {
        Some(v) => v,
        None => {
            return Err(invalid_operand("shifted immediate requires a literal value", span));
        },
    };
    if shift_amount != 0 && shift_amount != 12 {
        return Err(invalid_operand("ADD/SUB immediate shift must be 0 or 12", span));
    }
    if value < 0 || value > 0xFFF {
        return Err(AsmError::ImmediateOutOfRange { value, span });
    }
    let sh: u32 = if shift_amount == 12 { 1 } else { 0 };
    proof { lemma_field_limits(); }
    let mut inst: u32 = 0x1100_0000;
    inst = set_sf(inst, is_64);
    inst = set_field(inst, 30, 30, op);
    inst = set_field(inst, 29, 29, s_bit);
    inst = set_rd(inst, rd.encoding());
    inst = set_rn(inst, rn.encoding());
    inst = set_field(inst, 22, 22, sh);
    inst = set_field(inst, 21, 10, value as u32);
    proof { lemma_add_sub_imm_word(is_64, op, s_bit, sh, value as u32, rn.spec_encoding() as u32, rd.spec_encoding() as u32); }
    Ok(EncodedInst::new(inst))
}


/// `sf opc 100101 hw imm16 Rd`
pub open spec fn mov_wide_word(is_64: bool, opc: u32, hw: u32, imm16: u32, rd: u32) -> u32 {
    spec_set_sf(0x1280_0000, is_64) | (opc << 29) | (hw << 21) | (imm16 << 5) | rd
}

proof fn lemma_mov_wide_word(is_64: bool, opc: u32, hw: u32, imm16: u32, rd: u32)
    requires
        opc < 4, hw < 4, imm16 < 0x10000, rd < 32,
    ensures
        spec_set_field(spec_set_field(spec_set_field(spec_set_field(spec_set_sf(0x1280_0000, is_64), 30, 29, opc),
            22, 21, hw), 20, 5, imm16), 4, 0, rd) == mov_wide_word(is_64, opc, hw, imm16, rd),
{
    assert(spec_set_field(spec_set_field(spec_set_field(spec_set_field(spec_set_sf(0x1280_0000, is_64), 30, 29, opc),
            22, 21, hw), 20, 5, imm16), 4, 0, rd) == mov_wide_word(is_64, opc, hw, imm16, rd)) by (bit_vector)
        requires opc < 4, hw < 4, imm16 < 0x10000, rd < 32;
}

/// Whether a mnemonic is one of MOVZ, MOVN, MOVK.
pub open spec fn is_mov_wide(m: Mnemonic) -> bool {
    m == Mnemonic::Movz || m == Mnemonic::Movn || m == Mnemonic::Movk
}

/// The opc field of MOVZ (10), MOVN (00), MOVK (11).
pub open spec fn mov_wide_opc(m: Mnemonic) -> u32 {
    match m {
        Mnemonic::Movz => 2,
        Mnemonic::Movn => 0,
        _ => 3,
    }
}

/// The hw field selected by an optional `LSL #shift` operand of a wide move.
pub open spec fn spec_mov_wide_hw(ops: Seq<Operand>, is_64: bool, span: Span) -> Result<u32, ErrorView> {
    if ops.len() == 3 {
        match ops[2] {
            Operand::Shift { op: ShiftOp::Lsl, amount } => match spec_as_literal(amount) {
                None => Err(bad_operand("shift amount must be a literal"@, span)),
                Some(shift) => if shift == 0 {
                    Ok(0)
                } else if shift == 16 {
                    Ok(1)
                } else if shift == 32 {
                    if !is_64 { Err(bad_operand("LSL #32 not valid for 32-bit register"@, span)) } else { Ok(2) }
                } else if shift == 48 {
                    if !is_64 { Err(bad_operand("LSL #48 not valid for 32-bit register"@, span)) } else { Ok(3) }
                } else {
                    Err(bad_operand("MOVZ/MOVN/MOVK shift must be 0, 16, 32, or 48"@, span))
                },
            },
            _ => Err(bad_operand("expected LSL shift"@, span)),
        }
    } else {
        Ok(0)
    }
}

/// The result of MOVZ/MOVN/MOVK.
pub open spec fn spec_mov_wide(m: Mnemonic, ops: Seq<Operand>, span: Span) -> Result<EncodedView, ErrorView> {
    if ops.len() < 2 || ops.len() > 3 {
        Err(ErrorView::WrongOperandCount { expected: 2, got: ops.len() as usize, span })
    } else {
        match spec_expect_reg(ops[0], span) {
            Err(e) => Err(e),
            Ok(rd) => match reg_width_view(rd, span) {
                Err(e) => Err(e),
                Ok(is_64) => match spec_expect_imm(ops[1], span) {
                    Err(e) => Err(e),
                    Ok(imm) => match spec_as_literal(imm) {
                        None => Err(bad_operand("MOV wide requires a literal immediate"@, span)),
                        Some(value) => if value < 0 || value > 0xFFFF {
                            Err(ErrorView::ImmediateOutOfRange { value, span })
                        } else {
                            match spec_mov_wide_hw(ops, is_64, span) {
                                Err(e) => Err(e),
                                Ok(hw) => Ok(plain(mov_wide_word(is_64, mov_wide_opc(m), hw, value as u32, rd.spec_encoding() as u32))),
                            }
                        },
                    },
                },
            },
        }
    }
}

/// Whether every register in the operands is well formed.
pub open spec fn operands_wf(ops: Seq<Operand>) -> bool {
    forall|i: int| 0 <= i < ops.len() ==> #[trigger] operand_wf(ops[i])
}

/// Whether every register in an operand is well formed.
pub open spec fn operand_wf(op: Operand) -> bool {
    match op {
        Operand::Register(r) => r.wf(),
        Operand::Memory(m) => match m {
            crate::types::operand::MemoryOperand::Base { reg } => reg.wf(),
            crate::types::operand::MemoryOperand::BaseOffset { reg, .. } => reg.wf(),
            crate::types::operand::MemoryOperand::PreIndex { reg, .. } => reg.wf(),
            crate::types::operand::MemoryOperand::PostIndex { reg, .. } => reg.wf(),
            crate::types::operand::MemoryOperand::BaseRegister { base, index, .. } => base.wf() && index.wf(),
            crate::types::operand::MemoryOperand::Label(_) => true,
        },
        _ => true,
    }
}

/// Encode MOVZ, MOVN, or MOVK.
pub fn encode_mov_wide(mnemonic: Mnemonic, operands: &[Operand], span: Span) -> (r: Result<EncodedInst, AsmError>)
    requires
        is_mov_wide(mnemonic),
        operands_wf(operands@),
    ensures
        enc_view(r) == spec_mov_wide(mnemonic, operands@, span),
{
    if operands.len() < 2 || operands.len() > 3 {
        return Err(AsmError::WrongOperandCount { expected: 2, got: operands.len(), span });
    }
    let rd = expect_reg(&operands[0], span)?;
    assert(operand_wf(operands@[0]));
    let is_64 = reg_is_64(rd, span)?;
    let imm_expr = expect_imm(&operands[1], span)?;
    let value = match imm_expr.as_literal() {
        Some(v) => v,
        None => {
            return Err(invalid_operand("MOV wide requires a literal immediate", span));
        },
    };
    if value < 0 || value > 0xFFFF {
        return Err(AsmError::ImmediateOutOfRange { value, span });
    }
    let hw: u32 = if operands.len() == 3 {
        match &operands[2] {
            Operand::Shift { op: ShiftOp::Lsl, amount } => {
                let shift = match amount.as_literal() {
                    Some(v) => v,
                    None => {
                        return Err(invalid_operand("shift amount must be a literal", span));
                    },
                };
                if shift == 0 {
                    0
                } else if shift == 16 {
                    1
                } else if shift == 32 {
                    if !is_64 {
                        return Err(invalid_operand("LSL #32 not valid for 32-bit register", span));
                    }
                    2
                } else if shift == 48 {
                    if !is_64 {
                        return Err(invalid_operand("LSL #48 not valid for 32-bit register", span));
                    }
                    3
                } else {
                    return Err(invalid_operand("MOVZ/MOVN/MOVK shift must be 0, 16, 32, or 48", span));
                }
            },
            _ => {
                return Err(invalid_operand("expected LSL shift", span));
            },
        }
    } else {
        0
    };
    let opc: u32 = match mnemonic {
        Mnemonic::Movz => 0b10,
        Mnemonic::Movn => 0b00,
        _ => 0b11,
    };
    proof { lemma_field_limits(); }
    let mut inst: u32 = 0x1280_0000;
    inst = set_sf(inst, is_64);
    inst = set_field(inst, 30, 29, opc);
    inst = set_field(inst, 22, 21, hw);
    inst = set_field(inst, 20, 5, value as u32);
    inst = set_rd(inst, rd.encoding());
    proof { lemma_mov_wide_word(is_64, opc, hw, value as u32, rd.spec_encoding() as u32); }
    Ok(EncodedInst::new(inst))
}

/// ADR: `0 immlo 10000 immhi Rd`; ADRP: `1 immlo 10000 immhi Rd`
pub open spec fn adr_word(is_adrp: bool, immlo: u32, immhi: u32, rd: u32) -> u32 {
    (if is_adrp { 0x9000_0000u32 } else { 0x1000_0000u32 }) | (immlo << 29) | (immhi << 5) | rd
}

proof fn lemma_adr_word(is_adrp: bool, immlo: u32, immhi: u32, rd: u32)
    requires
        immlo < 4, immhi < 0x80000, rd < 32,
    ensures
        spec_set_field(spec_set_field(spec_set_field(if is_adrp { 0x9000_0000u32 } else { 0x1000_0000u32 }, 4, 0, rd),
            30, 29, immlo), 23, 5, immhi) == adr_word(is_adrp, immlo, immhi, rd),
        spec_set_field(if is_adrp { 0x9000_0000u32 } else { 0x1000_0000u32 }, 4, 0, rd) == adr_word(is_adrp, 0, 0, rd),
{
    assert(spec_set_field(spec_set_field(spec_set_field(if is_adrp { 0x9000_0000u32 } else { 0x1000_0000u32 }, 4, 0, rd),
            30, 29, immlo), 23, 5, immhi) == adr_word(is_adrp, immlo, immhi, rd)
        && spec_set_field(if is_adrp { 0x9000_0000u32 } else { 0x1000_0000u32 }, 4, 0, rd) == adr_word(is_adrp, 0, 0, rd))
        by (bit_vector) requires immlo < 4, immhi < 0x80000, rd < 32;
}

/// The debug name of ADR or ADRP, as used in error details.
pub open spec fn adr_name(is_adrp: bool) -> Seq<char> {
    if is_adrp { "Adrp"@ } else { "Adr"@ }
}

/// The result of ADR/ADRP.
pub open spec fn spec_adr_adrp(m: Mnemonic, ops: Seq<Operand>, span: Span) -> Result<EncodedView, ErrorView> {
    if ops.len() != 2 {
        Err(ErrorView::WrongOperandCount { expected: 2, got: ops.len() as usize, span })
    } else {
        match spec_expect_reg(ops[0], span) {
            Err(e) => Err(e),
            Ok(rd) => {
                let is_adrp = m == Mnemonic::Adrp;
                let base = adr_word(is_adrp, 0, 0, rd.spec_encoding() as u32);
                let kind = if is_adrp { RelocKind::Page21 } else { RelocKind::Adr21 };
                match ops[1] {
                    Operand::Label(name) => Ok(with_reloc_view(base, kind, name@, 0)),
                    Operand::Immediate(expr) => match expr {
                        Expr::Symbol(name) => Ok(with_reloc_view(base, kind, name@, 0)),
                        Expr::Relocated { modifier, symbol, addend } => match modifier {
                            RelocModifier::PgHi21 => Ok(with_reloc_view(base, RelocKind::Page21, symbol@, addend)),
                            RelocModifier::Got => Ok(with_reloc_view(base, RelocKind::GotLoadPage21, symbol@, addend)),
                            _ => Err(bad_operand("invalid relocation modifier for "@ + adr_name(is_adrp), span)),
                        },
                        Expr::Literal(imm) => Ok(plain(adr_word(is_adrp, (imm as u32) & 3, ((imm as u32) >> 2) & 0x7FFFF,
                            rd.spec_encoding() as u32))),
                        _ => Err(bad_operand("ADR/ADRP requires a symbol or label"@, span)),
                    },
                    _ => Err(bad_operand("expected label or symbol"@, span)),
                }
            },
        }
    }
}

/// Encode ADR or ADRP.
pub fn encode_adr_adrp(mnemonic: Mnemonic, operands: &[Operand], span: Span) -> (r: Result<EncodedInst, AsmError>)
    requires
        mnemonic == Mnemonic::Adr || mnemonic == Mnemonic::Adrp,
        operands_wf(operands@),
    ensures
        enc_view(r) == spec_adr_adrp(mnemonic, operands@, span),
{
    if operands.len() != 2 {
        return Err(AsmError::WrongOperandCount { expected: 2, got: operands.len(), span });
    }
    let rd = expect_reg(&operands[0], span)?;
    assert(operand_wf(operands@[0]));
    let is_adrp = mnemonic == Mnemonic::Adrp;
    proof { lemma_field_limits(); }
    let mut inst: u32 = if is_adrp { 0x9000_0000 } else { 0x1000_0000 };
    inst = set_rd(inst, rd.encoding());
    proof { lemma_adr_word(is_adrp, 0, 0, rd.spec_encoding() as u32); }
    let reloc_kind = if is_adrp { RelocKind::Page21 } else { RelocKind::Adr21 };
    match &operands[1] {
        Operand::Label(name) => Ok(EncodedInst::with_reloc(inst, PendingRelocation::simple(reloc_kind, name.clone()))),
        Operand::Immediate(expr) => match expr {
            Expr::Symbol(name) => Ok(EncodedInst::with_reloc(inst, PendingRelocation::simple(reloc_kind, name.clone()))),
            Expr::Relocated { modifier, symbol, addend } => {
                let kind = match modifier {
                    RelocModifier::PgHi21 => RelocKind::Page21,
                    RelocModifier::Got => RelocKind::GotLoadPage21,
                    _ => {
                        let mut detail = String::new();
                        push_str(&mut detail, "invalid relocation modifier for ");
                        push_str(&mut detail, if is_adrp { "Adrp" } else { "Adr" });
                        return Err(AsmError::InvalidOperand { detail, span });
                    },
                };
                Ok(EncodedInst::with_reloc(inst, PendingRelocation { kind, symbol: symbol.clone(), addend: *addend }))
            },
            Expr::Literal(value) => {
                let imm = *value;
                let immlo = (#[verifier::truncate] (imm as u32)) & 0b11;
                let immhi = ((#[verifier::truncate] (imm as u32)) >> 2) & 0x7FFFF;
                assert((imm as u32) & 3 < 4 && ((imm as u32) >> 2) & 0x7FFFF < 0x80000) by (bit_vector);
                let ghost base = inst;
                inst = set_field(inst, 30, 29, immlo);
                inst = set_field(inst, 23, 5, immhi);
                proof { lemma_adr_word(is_adrp, immlo, immhi, rd.spec_encoding() as u32); }
                Ok(EncodedInst::new(inst))
            },
            _ => Err(invalid_operand("ADR/ADRP requires a symbol or label", span)),
        },
        _ => Err(invalid_operand("expected label or symbol", span)),
    }
}

/// `sf opc 100100 N immr imms Rn Rd`
pub open spec fn logical_imm_word(is_64: bool, opc: u32, n: u32, immr: u32, imms: u32, rn: u32, rd: u32) -> u32 {
    spec_set_sf(0x1200_0000, is_64) | (opc << 29) | (n << 22) | (immr << 16) | (imms << 10) | (rn << 5) | rd
}

proof fn lemma_logical_imm_word(is_64: bool, opc: u32, n: u32, immr: u32, imms: u32, rn: u32, rd: u32)
    requires
        opc < 4, n < 2, immr < 64, imms < 64, rn < 32, rd < 32,
    ensures
        spec_set_field(spec_set_field(spec_set_field(spec_set_field(spec_set_field(spec_set_field(
            spec_set_sf(0x1200_0000, is_64), 30, 29, opc), 22, 22, n), 21, 16, immr), 15, 10, imms), 9, 5, rn), 4, 0, rd)
            == logical_imm_word(is_64, opc, n, immr, imms, rn, rd),
{
    assert(spec_set_field(spec_set_field(spec_set_field(spec_set_field(spec_set_field(spec_set_field(
            spec_set_sf(0x1200_0000, is_64), 30, 29, opc), 22, 22, n), 21, 16, immr), 15, 10, imms), 9, 5, rn), 4, 0, rd)
            == logical_imm_word(is_64, opc, n, immr, imms, rn, rd)) by (bit_vector)
        requires opc < 4, n < 2, immr < 64, imms < 64, rn < 32, rd < 32;
}

/// The result of AND/ORR/EOR/ANDS (immediate).
pub open spec fn spec_logical_imm(m: Mnemonic, rd: Register, rn: Register, imm: Expr, span: Span) -> Result<EncodedView, ErrorView> {
    match reg_width_view(rd, span) {
        Err(e) => Err(e),
        Ok(is_64) => match spec_as_literal(imm) {
            None => Err(bad_operand("logical immediate requires a constant"@, span)),
            Some(value) => match spec_encode_bitmask(value as u64, is_64) {
                None => Err(bad_operand("value 0x"@ + hex_digits((value as u64) as nat) + " cannot be encoded as a logical immediate"@, span)),
                Some((n, immr, imms)) => if !is_64 && n != 0 {
                    Err(bad_operand("N=1 not valid for 32-bit logical immediate"@, span))
                } else {
                    Ok(plain(logical_imm_word(is_64, spec_logical_opc(m), n, immr, imms, rn.spec_encoding() as u32,
                        rd.spec_encoding() as u32)))
                },
            },
        },
    }
}

/// Encode logical immediate (AND, ORR, EOR, ANDS).
pub fn encode_logical_imm(mnemonic: Mnemonic, rd: &Register, rn: &Register, imm_expr: &Expr, span: Span) -> (r: Result<EncodedInst, AsmError>)
    requires
        is_logical(mnemonic),
        rd.wf(), rn.wf(),
    ensures
        enc_view(r) == spec_logical_imm(mnemonic, *rd, *rn, *imm_expr, span),
{
    let is_64 = reg_is_64(rd, span)?;
    let opc = logical_opc(mnemonic);
    let value = match imm_expr.as_literal() {
        Some(v) => v,
        None => {
            return Err(invalid_operand("logical immediate requires a constant", span));
        },
    };
    let (n, immr, imms) = match encode_bitmask_imm(value as u64, is_64) {
        Some(t) => t,
        None => {
            let mut detail = String::new();
            push_str(&mut detail, "value 0x");
            push_hex(&mut detail, value as u64);
            push_str(&mut detail, " cannot be encoded as a logical immediate");
            return Err(AsmError::InvalidOperand { detail, span });
        },
    };
    if !is_64 && n != 0 {
        return Err(invalid_operand("N=1 not valid for 32-bit logical immediate", span));
    }
    proof { lemma_field_limits(); }
    let mut inst: u32 = 0x1200_0000;
    inst = set_sf(inst, is_64);
    inst = set_field(inst, 30, 29, opc);
    inst = set_field(inst, 22, 22, n);
    inst = set_field(inst, 21, 16, immr);
    inst = set_field(inst, 15, 10, imms);
    inst = set_rn(inst, rn.encoding());
    inst = set_rd(inst, rd.encoding());
    proof { lemma_logical_imm_word(is_64, opc, n, immr, imms, rn.spec_encoding() as u32, rd.spec_encoding() as u32); }
    Ok(EncodedInst::new(inst))
}

} // verus!

