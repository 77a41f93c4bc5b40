//! Branch, exception-generating and related instruction encoders.

use vstd::prelude::*;
use crate::types::error::{AsmError, ErrorView, invalid_operand};
use crate::types::expr::{Expr, spec_as_literal};
use crate::types::instruction::Mnemonic;
use crate::types::operand::Operand;
use crate::types::reloc::{PendingRelocation, RelocKind};
use crate::types::span::Span;
use crate::encode::{EncodedInst, EncodedView, plain, with_reloc_view};
use crate::encode::common::{
    LabelOrImm, LabelOrImmView, bad_operand, enc_view, expect_imm, expect_label_or_imm, expect_reg,
    label_reloc_from_expr, reg_is_64, reg_width_view, spec_expect_imm, spec_expect_reg, spec_label_or_imm,
    spec_label_reloc,
};
use crate::encode::dp_imm::{operand_wf, operands_wf};
use crate::encode::fields::{lemma_field_limits, set_field, set_rn, set_rt, set_sf, spec_set_field, spec_set_sf, spec_truncate_imm, truncate_imm};

verus! {

/// `op 00101 imm26` (op = 1 for BL)
pub open spec fn b_word(is_bl: bool, imm26: u32) -> u32 {
    (if is_bl { 0x9400_0000u32 } else { 0x1400_0000u32 }) | imm26
}

/// The B/BL word is built from its opcode bit, and its 26-bit field set afterwards.
proof fn lemma_b_word(is_bl: bool, op_bit: u32, imm26: u32)
    by (bit_vector)
    requires
        op_bit == (if is_bl { 1u32 } else { 0u32 }),
        imm26 < 0x400_0000,
    ensures
        (op_bit << 31u32) | (0b00101u32 << 26u32) == b_word(is_bl, 0),
        spec_set_field(b_word(is_bl, 0), 25, 0, imm26) == b_word(is_bl, imm26),
{
}

/// The 26-bit field holding a byte offset divided by four.
pub open spec fn imm26_of(offset: i64) -> u32 {
    spec_truncate_imm(offset >> 2, 26)
}

/// The 19-bit field holding a byte offset divided by four.
pub open spec fn imm19_of(offset: i64) -> u32 {
    spec_truncate_imm(offset >> 2, 19)
}

/// The result of B/BL.
pub open spec fn spec_b_bl(m: Mnemonic, ops: Seq<Operand>, span: Span) -> Result<EncodedView, ErrorView> {
    if ops.len() != 1 {
        Err(ErrorView::WrongOperandCount { expected: 1, got: ops.len() as usize, span })
    } else {
        let base = b_word(m == Mnemonic::Bl, 0);
        match ops[0] {
            Operand::Label(name) => Ok(with_reloc_view(base, RelocKind::Branch26, name@, 0)),
            Operand::Immediate(expr) => match spec_as_literal(expr) {
                Some(offset) => Ok(plain(b_word(m == Mnemonic::Bl, imm26_of(offset)))),
                None => spec_label_reloc(expr, base, RelocKind::Branch26, span),
            },
            _ => Err(bad_operand("expected label or immediate"@, span)),
        }
    }
}

/// Encode B or BL.
pub fn encode_b_bl(mnemonic: Mnemonic, operands: &[Operand], span: Span) -> (r: Result<EncodedInst, AsmError>)
    ensures
        enc_view(r) == spec_b_bl(mnemonic, operands@, span),
{
    if operands.len() != 1 {
        return Err(AsmError::WrongOperandCount { expected: 1, got: operands.len(), span });
    }
    let is_bl = mnemonic == Mnemonic::Bl;
    let op_bit: u32 = if is_bl { 1 } else { 0 };
    let base: u32 = (op_bit << 31u32) | (0b00101u32 << 26u32);
    proof { lemma_b_word(is_bl, op_bit, 0); }
    match &operands[0] {
        Operand::Label(name) => Ok(EncodedInst::with_reloc(base, PendingRelocation::simple(RelocKind::Branch26, name.clone()))),
        Operand::Immediate(expr) => match expr.as_literal() {
            Some(offset) => {
                let imm26 = truncate_imm(offset >> 2u32, 26);
                proof { lemma_field_limits(); }
                let inst = set_field(base, 25, 0, imm26);
                proof { lemma_b_word(is_bl, op_bit, imm26); }
                Ok(EncodedInst::new(inst))
            },
            None => label_reloc_from_expr(expr, base, RelocKind::Branch26, span),
        },
        _ => Err(invalid_operand("expected label or immediate", span)),
    }
}

/// `1101011 0 0 opc 11111 000000 Rn 00000`
pub open spec fn br_word(opc: u32, rn: u32) -> u32 {
    0xD61F_0000u32 | (opc << 21) | (rn << 5)
}

/// The opc field of BR (00), BLR (01), RET (10).
pub open spec fn br_opc(m: Mnemonic) -> u32 {
    match m {
        Mnemonic::Br => 0,
        Mnemonic::Blr => 1,
        _ => 2,
    }
}

/// The result of BR/BLR/RET; RET without an operand returns through X30.
pub open spec fn spec_br_blr_ret(m: Mnemonic, ops: Seq<Operand>, span: Span) -> Result<EncodedView, ErrorView> {
    if ops.len() == 0 {
        if m == Mnemonic::Ret {
            Ok(plain(br_word(br_opc(m), 30)))
        } else {
            Err(ErrorView::WrongOperandCount { expected: 1, got: 0, span })
        }
    } else if ops.len() == 1 {
        match spec_expect_reg(ops[0], span) {
            Err(e) => Err(e),
            Ok(rn) => Ok(plain(br_word(br_opc(m), rn.spec_encoding() as u32))),
        }
    } else {
        Err(ErrorView::WrongOperandCount { expected: 1, got: ops.len() as usize, span })
    }
}

/// Encode BR, BLR, or RET.
pub fn encode_br_blr_ret(mnemonic: Mnemonic, operands: &[Operand], span: Span) -> (r: Result<EncodedInst, AsmError>)
    requires
        mnemonic == Mnemonic::Br || mnemonic == Mnemonic::Blr || mnemonic == Mnemonic::Ret,
        operands_wf(operands@),
    ensures
        enc_view(r) == spec_br_blr_ret(mnemonic, operands@, span),
{
    let opc: u32 = match mnemonic {
        Mnemonic::Br => 0b00,
        Mnemonic::Blr => 0b01,
        _ => 0b10,
    };
    let rn: u8 = if operands.len() == 0 {
        if mnemonic == Mnemonic::Ret {
            30
        } else {
            return Err(AsmError::WrongOperandCount { expected: 1, got: 0, span });
        }
    } else if operands.len() == 1 {
        assert(operand_wf(operands@[0]));
        expect_reg(&operands[0], span)?.encoding()
    } else {
        return Err(AsmError::WrongOperandCount { expected: 1, got: operands.len(), span });
    };
    proof { lemma_field_limits(); }
    let base: u32 = 0xD61F_0000;
    let inst = set_field(base, 22, 21, opc);
    let inst = set_rn(inst, rn);
    assert(spec_set_field(spec_set_field(0xD61F_0000u32, 22, 21, opc), 9, 5, rn as u32) == br_word(opc, rn as u32)) by (bit_vector)
        requires opc < 4, rn < 32;
    Ok(EncodedInst::new(inst))
}

/// `01010100 imm19 0 cond`
pub open spec fn bcond_word(imm19: u32, cond: u32) -> u32 {
    0x5400_0000u32 | (imm19 << 5) | cond
}

/// The B.cond word is built from its condition, and its 19-bit field set afterwards.
pub(crate) proof fn lemma_bcond_word(cond: u32, imm19: u32)
    by (bit_vector)
    requires
        cond < 16,
        imm19 < 0x80000,
    ensures
        (0b01010100u32 << 24u32) | cond == bcond_word(0, cond),
        spec_set_field(bcond_word(0, cond), 23, 5, imm19) == bcond_word(imm19, cond),
        bcond_word(imm19, cond) & 0xF == cond,
        bcond_word(imm19, cond) >> 24 == 0x54,
{
}

/// The result of B.cond.
pub open spec fn spec_bcond(ops: Seq<Operand>, span: Span) -> Result<EncodedView, ErrorView> {
    if ops.len() != 2 {
        Err(ErrorView::WrongOperandCount { expected: 2, got: ops.len() as usize, span })
    } else {
        match ops[0] {
            Operand::Condition(c) => {
                let cond = c.spec_encoding() as u32;
                let base = bcond_word(0, cond);
                match ops[1] {
                    Operand::Label(name) => Ok(with_reloc_view(base, RelocKind::Pcrel19, name@, 0)),
                    Operand::Immediate(expr) => match spec_as_literal(expr) {
                        Some(offset) => Ok(plain(bcond_word(imm19_of(offset), cond))),
                        None => spec_label_reloc(expr, base, RelocKind::Pcrel19, span),
                    },
                    _ => Err(bad_operand("expected label or immediate"@, span)),
                }
            },
            _ => Err(bad_operand("expected condition code"@, span)),
        }
    }
}

/// Encode B.cond.
pub fn encode_bcond(operands: &[Operand], span: Span) -> (r: Result<EncodedInst, AsmError>)
    ensures
        enc_view(r) == spec_bcond(operands@, span),
{
    if operands.len() != 2 {
        return Err(AsmError::WrongOperandCount { expected: 2, got: operands.len(), span });
    }
    let cond: u32 = match &operands[0] {
        Operand::Condition(c) => c.encoding() as u32,
        _ => {
            return Err(invalid_operand("expected condition code", span));
        },
    };
    let base: u32 = (0b01010100u32 << 24u32) | cond;
    proof { lemma_bcond_word(cond, 0); }
    match &operands[1] {
        Operand::Label(name) => Ok(EncodedInst::with_reloc(base, PendingRelocation::simple(RelocKind::Pcrel19, name.clone()))),
        Operand::Immediate(expr) => match expr.as_literal() {
            Some(offset) => {
                let imm19 = truncate_imm(offset >> 2u32, 19);
                proof { lemma_field_limits(); }
                let inst = set_field(base, 23, 5, imm19);
                proof { lemma_bcond_word(cond, imm19); }
                Ok(EncodedInst::new(inst))
            },
            None => label_reloc_from_expr(expr, base, RelocKind::Pcrel19, span),
        },
        _ => Err(invalid_operand("expected label or immediate", span)),
    }
}

/// `sf 011010 op imm19 Rt`
pub open spec fn cbz_word(is_64: bool, op: u32, imm19: u32, rt: u32) -> u32 {
    spec_set_sf(0x3400_0000, is_64) | (op << 24) | (imm19 << 5) | rt
}

/// The CBZ/CBNZ word is built from its width, opcode and register, and its 19-bit field set
/// afterwards.
proof fn lemma_cbz_word(is_64: bool, op: u32, rt: u32, imm19: u32)
    by (bit_vector)
    requires
        op < 2,
        rt < 32,
        imm19 < 0x80000,
    ensures
        spec_set_field(spec_set_field(spec_set_sf(0x3400_0000, is_64), 24, 24, op), 4, 0, rt) == cbz_word(is_64, op, 0, rt),
        spec_set_field(cbz_word(is_64, op, 0, rt), 23, 5, imm19) == cbz_word(is_64, op, imm19, rt),
{
}

/// The result of CBZ/CBNZ.
pub open spec fn spec_cbz_cbnz(m: Mnemonic, ops: Seq<Operand>, span: Span) -> Result<EncodedView, ErrorView> {
    if ops.len() != 2 {
        Err(ErrorView::WrongOperandCount { expected: 2, got: ops.len() as usize, span })
    } else {
        match spec_expect_reg(ops[0], span) {
            Err(e) => Err(e),
            Ok(reg) => match reg_width_view(reg, span) {
                Err(e) => Err(e),
                Ok(is_64) => {
                    let op: u32 = if m == Mnemonic::Cbnz { 1 } else { 0 };
                    let rt = reg.spec_encoding() as u32;
                    let base = cbz_word(is_64, op, 0, rt);
                    match spec_label_or_imm(ops[1], span) {
                        Err(e) => Err(e),
                        Ok(LabelOrImmView::Label(name)) => Ok(with_reloc_view(base, RelocKind::Pcrel19, name, 0)),
                        Ok(LabelOrImmView::Literal(offset)) => Ok(plain(cbz_word(is_64, op, imm19_of(offset), rt))),
                        Ok(LabelOrImmView::SymbolExpr(expr)) => spec_label_reloc(expr, base, RelocKind::Pcrel19, span),
                    }
                },
            },
        }
    }
}

/// Encode CBZ or CBNZ.
pub fn encode_cbz_cbnz(mnemonic: Mnemonic, operands: &[Operand], span: Span) -> (r: Result<EncodedInst, AsmError>)
    requires
        operands_wf(operands@),
    ensures
        enc_view(r) == spec_cbz_cbnz(mnemonic, operands@, span),
{
    if operands.len() != 2 {
        return Err(AsmError::WrongOperandCount { expected: 2, got: operands.len(), span });
    }
    let reg = expect_reg(&operands[0], span)?;
    assert(operand_wf(operands@[0]));
    let is_64 = reg_is_64(reg, span)?;
    let rt = reg.encoding();
    let op: u32 = if mnemonic == Mnemonic::Cbnz { 1 } else { 0 };
    proof { lemma_field_limits(); }
    let base = set_sf(0x3400_0000, is_64);
    let base = set_field(base, 24, 24, op);
    let base = set_rt(base, rt);
    proof { lemma_cbz_word(is_64, op, rt as u32, 0); }
    match expect_label_or_imm(&operands[1], span)? {
        LabelOrImm::Label(name) => Ok(EncodedInst::with_reloc(
            base,
            PendingRelocation::simple(RelocKind::Pcrel19, crate::types::error::owned(name)),
        )),
        LabelOrImm::Literal(offset) => {
            let imm19 = truncate_imm(offset >> 2u32, 19);
            let inst = set_field(base, 23, 5, imm19);
            proof { lemma_cbz_word(is_64, op, rt as u32, imm19); }
            Ok(EncodedInst::new(inst))
        },
        LabelOrImm::SymbolExpr(expr) => label_reloc_from_expr(expr, base, RelocKind::Pcrel19, span),
    }
}

/// SVC: `0xD4000001 | (imm16 << 5)`; BRK: `0xD4200000 | (imm16 << 5)`
pub open spec fn svc_brk_word(is_svc: bool, imm16: u32) -> u32 {
    (if is_svc { 0xD400_0001u32 } else { 0xD420_0000u32 }) | (imm16 << 5)
}

/// The result of SVC/BRK.
pub open spec fn spec_svc_brk(m: Mnemonic, ops: Seq<Operand>, span: Span) -> Result<EncodedView, ErrorView> {
    if ops.len() != 1 {
        Err(ErrorView::WrongOperandCount { expected: 1, got: ops.len() as usize, span })
    } else {
        match spec_expect_imm(ops[0], span) {
            Err(e) => Err(e),
            Ok(imm) => match spec_as_literal(imm) {
                None => Err(bad_operand("SVC/BRK requires a literal immediate"@, span)),
                Some(value) => if value < 0 || value > 0xFFFF {
                    Err(ErrorView::ImmediateOutOfRange { value, span })
                } else {
                    Ok(plain(svc_brk_word(m == Mnemonic::Svc, value as u32)))
                },
            },
        }
    }
}

/// Encode SVC or BRK.
pub fn encode_svc_brk(mnemonic: Mnemonic, operands: &[Operand], span: Span) -> (r: Result<EncodedInst, AsmError>)
    requires
        mnemonic == Mnemonic::Svc || mnemonic == Mnemonic::Brk,
    ensures
        enc_view(r) == spec_svc_brk(mnemonic, operands@, span),
{
    if operands.len() != 1 {
        return Err(AsmError::WrongOperandCount { expected: 1, got: operands.len(), span });
    }
    let imm = expect_imm(&operands[0], span)?;
    let value = match imm.as_literal() {
        Some(v) => v,
        None => {
            return Err(invalid_operand("SVC/BRK requires a literal immediate", span));
        },
    };
    if value < 0 || value > 0xFFFF {
        return Err(AsmError::ImmediateOutOfRange { value, span });
    }
    let base: u32 = match mnemonic {
        Mnemonic::Svc => 0xD400_0001,
        _ => 0xD420_0000,
    };
    proof { lemma_field_limits(); }
    let inst = set_field(base, 20, 5, value as u32);
    let is_svc = mnemonic == Mnemonic::Svc;
    let v32 = value as u32;
    assert(spec_set_field(if is_svc { 0xD400_0001u32 } else { 0xD420_0000u32 }, 20, 5, v32) == svc_brk_word(is_svc, v32))
        by (bit_vector) requires v32 < 0x10000;
    Ok(EncodedInst::new(inst))
}

} // verus!
