//! Data Processing — Register instruction encoders.

use vstd::prelude::*;
use crate::types::error::{AsmError, ErrorView};
use crate::types::instruction::Mnemonic;
use crate::types::operand::{ExtendOp, ShiftOp};
use crate::types::register::Register;
use crate::types::span::Span;
use crate::encode::{EncodedInst, EncodedView, plain};
use crate::encode::common::{add_sub_op_s, enc_view, is_add_sub, is_logical, logical_opc, reg_is_64, reg_width_view, spec_add_sub_op_s, spec_logical_opc};
use crate::encode::fields::{lemma_field_limits, set_field, set_rd, set_rm, set_rn, set_sf, spec_set_field, spec_set_sf};

verus! {

/// `sf op S 01011 shift 0 Rm imm6 Rn Rd`
pub open spec fn add_sub_shifted_word(is_64: bool, op: u32, s: u32, shift: u32, rm: u32, imm6: u32, rn: u32, rd: u32) -> u32 {
    spec_set_sf(0x0B00_0000, is_64) | (op << 30) | (s << 29) | (shift << 22) | (rm << 16) | (imm6 << 10) | (rn << 5) | rd
}

/// `sf op S 01011 00 1 Rm option imm3 Rn Rd`
pub open spec fn add_sub_extended_word(is_64: bool, op: u32, s: u32, rm: u32, option: u32, imm3: u32, rn: u32, rd: u32) -> u32 {
    spec_set_sf(0x0B20_0000, is_64) | (op << 30) | (s << 29) | (rm << 16) | (option << 13) | (imm3 << 10) | (rn << 5) | rd
}

/// `sf opc 01010 shift 0 Rm imm6 Rn Rd`
pub open spec fn logical_shifted_word(is_64: bool, opc: u32, shift: u32, rm: u32, imm6: u32, rn: u32, rd: u32) -> u32 {
    spec_set_sf(0x0A00_0000, is_64) | (opc << 29) | (shift << 22) | (rm << 16) | (imm6 << 10) | (rn << 5) | rd
}

proof fn lemma_add_sub_shifted_word(is_64: bool, op: u32, s: u32, shift: u32, rm: u32, imm6: u32, rn: u32, rd: u32)
    requires
        op < 2, s < 2, shift < 4, rm < 32, imm6 < 64, rn < 32, rd < 32,
    ensures
        spec_set_field(spec_set_field(spec_set_field(spec_set_field(spec_set_field(spec_set_field(spec_set_field(
            spec_set_sf(0x0B00_0000, is_64), 30, 30, op), 29, 29, s), 23, 22, shift), 20, 16, rm), 15, 10, imm6),
            9, 5, rn), 4, 0, rd) == add_sub_shifted_word(is_64, op, s, shift, rm, imm6, rn, rd),
{
    assert(spec_set_field(spec_set_field(spec_set_field(spec_set_field(spec_set_field(spec_set_field(spec_set_field(
            spec_set_sf(0x0B00_0000, is_64), 30, 30, op), 29, 29, s), 23, 22, shift), 20, 16, rm), 15, 10, imm6),
            9, 5, rn), 4, 0, rd) == add_sub_shifted_word(is_64, op, s, shift, rm, imm6, rn, rd)) by (bit_vector)
        requires
            op < 2, s < 2, shift < 4, rm < 32, imm6 < 64, rn < 32, rd < 32;
}

/// The result of ADD/SUB/ADDS/SUBS (shifted register).
pub open spec fn spec_add_sub_shifted(m: Mnemonic, rd: Register, rn: Register, rm: Register, shift_op: Option<ShiftOp>, amount: u32, span: Span) -> Result<EncodedView, ErrorView> {
    match reg_width_view(rd, span) {
        Err(e) => Err(e),
        Ok(is_64) => {
            let (op, s) = spec_add_sub_op_s(m);
            let shift = match shift_op { Some(o) => o.spec_encoding(), None => 0 } as u32;
            if amount > (if is_64 { 63u32 } else { 31u32 }) {
                Err(ErrorView::ImmediateOutOfRange { value: amount as i64, span })
            } else {
                Ok(plain(add_sub_shifted_word(is_64, op, s, shift, rm.spec_encoding() as u32, amount,
                    rn.spec_encoding() as u32, rd.spec_encoding() as u32)))
            }
        },
    }
}

/// Encode ADD/SUB/ADDS/SUBS shifted register.
pub fn encode_add_sub_shifted(
    mnemonic: Mnemonic,
    rd: &Register,
    rn: &Register,
    rm: &Register,
    shift_op: Option<ShiftOp>,
    shift_amount: u32,
    span: Span,
) -> (r: Result<EncodedInst, AsmError>)
    requires
        is_add_sub(mnemonic),
        rd.wf(), rn.wf(), rm.wf(),
    ensures
        enc_view(r) == spec_add_sub_shifted(mnemonic, *rd, *rn, *rm, shift_op, shift_amount, span),
{
    let is_64 = reg_is_64(rd, span)?;
    let (op, s_bit) = add_sub_op_s(mnemonic);
    let shift = match shift_op {
        Some(o) => o.encoding(),
        None => ShiftOp::Lsl.encoding(),
    } as u32;
    let max_shift: u32 = if is_64 { 63 } else { 31 };
    if shift_amount > max_shift {
        return Err(AsmError::ImmediateOutOfRange { value: shift_amount as i64, span });
    }
    proof { lemma_field_limits(); }
    let mut inst: u32 = 0x0B00_0000;
    inst = set_sf(inst, is_64);
    inst = set_field(inst, 30, 30, op);
    inst = set_field(inst, 29, 29, s_bit);
    inst = set_field(inst, 23, 22, shift);
    inst = set_rm(inst, rm.encoding());
    inst = set_field(inst, 15, 10, shift_amount);
    inst = set_rn(inst, rn.encoding());
    inst = set_rd(inst, rd.encoding());
    proof {
        lemma_add_sub_shifted_word(is_64, op, s_bit, shift, rm.spec_encoding() as u32, shift_amount,
            rn.spec_encoding() as u32, rd.spec_encoding() as u32);
    }
    Ok(EncodedInst::new(inst))
}


proof fn lemma_add_sub_extended_word(is_64: bool, op: u32, s: u32, rm: u32, option: u32, imm3: u32, rn: u32, rd: u32)
    requires
        op < 2, s < 2, rm < 32, option < 8, imm3 < 8, rn < 32, rd < 32,
    ensures
        spec_set_field(spec_set_field(spec_set_field(spec_set_field(spec_set_field(spec_set_field(spec_set_field(
            spec_set_sf(0x0B20_0000, is_64), 30, 30, op), 29, 29, s), 20, 16, rm), 15, 13, option), 12, 10, imm3),
            9, 5, rn), 4, 0, rd) == add_sub_extended_word(is_64, op, s, rm, option, imm3, rn, rd),
{
    assert(spec_set_field(spec_set_field(spec_set_field(spec_set_field(spec_set_field(spec_set_field(spec_set_field(
            spec_set_sf(0x0B20_0000, is_64), 30, 30, op), 29, 29, s), 20, 16, rm), 15, 13, option), 12, 10, imm3),
            9, 5, rn), 4, 0, rd) == add_sub_extended_word(is_64, op, s, rm, option, imm3, rn, rd)) by (bit_vector)
        requires
            op < 2, s < 2, rm < 32, option < 8, imm3 < 8, rn < 32, rd < 32;
}

/// The result of ADD/SUB/ADDS/SUBS (extended register).
pub open spec fn spec_add_sub_extended(m: Mnemonic, rd: Register, rn: Register, rm: Register, ext: ExtendOp, amount: u32, span: Span) -> Result<EncodedView, ErrorView> {
    match reg_width_view(rd, span) {
        Err(e) => Err(e),
        Ok(is_64) => {
            let (op, s) = spec_add_sub_op_s(m);
            if amount > 4 {
                Err(ErrorView::ImmediateOutOfRange { value: amount as i64, span })
            } else {
                Ok(plain(add_sub_extended_word(is_64, op, s, rm.spec_encoding() as u32, ext.spec_encoding() as u32,
                    amount, rn.spec_encoding() as u32, rd.spec_encoding() as u32)))
            }
        },
    }
}

/// Encode ADD/SUB/ADDS/SUBS extended register.
pub fn encode_add_sub_extended(
    mnemonic: Mnemonic,
    rd: &Register,
    rn: &Register,
    rm: &Register,
    extend_op: ExtendOp,
    amount: u32,
    span: Span,
) -> (r: Result<EncodedInst, AsmError>)
    requires
        is_add_sub(mnemonic),
        rd.wf(), rn.wf(), rm.wf(),
    ensures
        enc_view(r) == spec_add_sub_extended(mnemonic, *rd, *rn, *rm, extend_op, amount, span),
{
    let is_64 = reg_is_64(rd, span)?;
    let (op, s_bit) = add_sub_op_s(mnemonic);
    if amount > 4 {
        return Err(AsmError::ImmediateOutOfRange { value: amount as i64, span });
    }
    proof { lemma_field_limits(); }
    let mut inst: u32 = 0x0B20_0000;
    inst = set_sf(inst, is_64);
    inst = set_field(inst, 30, 30, op);
    inst = set_field(inst, 29, 29, s_bit);
    inst = set_rm(inst, rm.encoding());
    inst = set_field(inst, 15, 13, extend_op.encoding() as u32);
    inst = set_field(inst, 12, 10, amount);
    inst = set_rn(inst, rn.encoding());
    inst = set_rd(inst, rd.encoding());
    proof {
        lemma_add_sub_extended_word(is_64, op, s_bit, rm.spec_encoding() as u32, extend_op.spec_encoding() as u32,
            amount, rn.spec_encoding() as u32, rd.spec_encoding() as u32);
    }
    Ok(EncodedInst::new(inst))
}

proof fn lemma_logical_shifted_word(is_64: bool, opc: u32, shift: u32, rm: u32, imm6: u32, rn: u32, rd: u32)
    requires
        opc < 4, shift < 4, rm < 32, imm6 < 64, rn < 32, rd < 32,
    ensures
        spec_set_field(spec_set_field(spec_set_field(spec_set_field(spec_set_field(spec_set_field(
            spec_set_sf(0x0A00_0000, is_64), 30, 29, opc), 23, 22, shift), 20, 16, rm), 15, 10, imm6),
            9, 5, rn), 4, 0, rd) == logical_shifted_word(is_64, opc, shift, rm, imm6, rn, rd),
{
    assert(spec_set_field(spec_set_field(spec_set_field(spec_set_field(spec_set_field(spec_set_field(
            spec_set_sf(0x0A00_0000, is_64), 30, 29, opc), 23, 22, shift), 20, 16, rm), 15, 10, imm6),
            9, 5, rn), 4, 0, rd) == logical_shifted_word(is_64, opc, shift, rm, imm6, rn, rd)) by (bit_vector)
        requires
            opc < 4, shift < 4, rm < 32, imm6 < 64, rn < 32, rd < 32;
}

/// The result of AND/ORR/EOR/ANDS (shifted register).
pub open spec fn spec_logical_shifted(m: Mnemonic, rd: Register, rn: Register, rm: Register, shift_op: Option<ShiftOp>, amount: u32, span: Span) -> Result<EncodedView, ErrorView> {
    match reg_width_view(rd, span) {
        Err(e) => Err(e),
        Ok(is_64) => {
            let shift = match shift_op { Some(o) => o.spec_encoding(), None => 0 } as u32;
            if amount > (if is_64 { 63u32 } else { 31u32 }) {
                Err(ErrorView::ImmediateOutOfRange { value: amount as i64, span })
            } else {
                Ok(plain(logical_shifted_word(is_64, spec_logical_opc(m), shift, rm.spec_encoding() as u32, amount,
                    rn.spec_encoding() as u32, rd.spec_encoding() as u32)))
            }
        },
    }
}

/// Encode logical shifted register (AND, ORR, EOR, ANDS); N is 0 (non-inverted forms).
pub fn encode_logical_shifted(
    mnemonic: Mnemonic,
    rd: &Register,
    rn: &Register,
    rm: &Register,
    shift_op: Option<ShiftOp>,
    shift_amount: u32,
    span: Span,
) -> (r: Result<EncodedInst, AsmError>)
    requires
        is_logical(mnemonic),
        rd.wf(), rn.wf(), rm.wf(),
    ensures
        enc_view(r) == spec_logical_shifted(mnemonic, *rd, *rn, *rm, shift_op, shift_amount, span),
{
    let is_64 = reg_is_64(rd, span)?;
    let opc = logical_opc(mnemonic);
    let shift = match shift_op {
        Some(o) => o.encoding(),
        None => ShiftOp::Lsl.encoding(),
    } as u32;
    let max_shift: u32 = if is_64 { 63 } else { 31 };
    if shift_amount > max_shift {
        return Err(AsmError::ImmediateOutOfRange { value: shift_amount as i64, span });
    }
    proof { lemma_field_limits(); }
    let mut inst: u32 = 0x0A00_0000;
    inst = set_sf(inst, is_64);
    inst = set_field(inst, 30, 29, opc);
    inst = set_field(inst, 23, 22, shift);
    inst = set_rm(inst, rm.encoding());
    inst = set_field(inst, 15, 10, shift_amount);
    inst = set_rn(inst, rn.encoding());
    inst = set_rd(inst, rd.encoding());
    proof {
        lemma_logical_shifted_word(is_64, opc, shift, rm.spec_encoding() as u32, shift_amount,
            rn.spec_encoding() as u32, rd.spec_encoding() as u32);
    }
    Ok(EncodedInst::new(inst))
}

} // verus!

