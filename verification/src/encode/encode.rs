//! Top-level instruction encoding dispatch, and the aliases CMP, CMN, TST and MOV.

use vstd::prelude::*;
use crate::types::error::{AsmError, ErrorView, invalid_operand};
use crate::types::expr::{Expr, spec_as_literal};
use crate::types::instruction::{Instruction, Mnemonic};
use crate::types::operand::{condition_holds, condition_meaning, law_condition_encoding, Condition, ExtendOp, Flags, MemoryOperand, Operand, ShiftOp};
use crate::types::reloc::RelocKind;
use crate::types::register::Register;
use crate::types::span::Span;
use crate::encode::{EncodedInst, EncodedView, plain};
use crate::encode::branch::{
    encode_b_bl, encode_bcond, encode_br_blr_ret, encode_cbz_cbnz, encode_svc_brk, spec_b_bl, spec_bcond,
    spec_br_blr_ret, spec_cbz_cbnz, spec_svc_brk,
};
use crate::encode::common::{
    bad_operand, enc_view, expect_reg, is_add_sub, is_logical, is_sp, reg_is_64, reg_width_view, spec_expect_reg, spec_reg_is_64,
    spec_is_sp, spec_zero_reg, zero_reg,
};
use crate::encode::dp_imm::{
    encode_add_sub_imm, encode_add_sub_imm_with_shift, encode_adr_adrp, encode_logical_imm, encode_mov_wide,
    is_mov_wide, mov_wide_word, operand_wf, operands_wf, spec_add_sub_imm, spec_add_sub_imm_with_shift,
    spec_adr_adrp, spec_logical_imm, spec_mov_wide,
};
use crate::encode::dp_reg::{
    encode_add_sub_extended, encode_add_sub_shifted, encode_logical_shifted, spec_add_sub_extended,
    spec_add_sub_shifted, spec_logical_shifted,
};
use crate::encode::fields::{lemma_field_limits, set_field, set_rd, set_sf, spec_set_field, spec_set_sf};
use crate::encode::ldst::{encode_ldp_stp, encode_ldst, is_ldst, lemma_ldst_register_word, spec_ldp_stp, spec_ldst, spec_ldst_params};
use crate::encode::branch::lemma_bcond_word;
use crate::encode::system::{encode_nop, nop_word};

verus! {

/// The result of encoding an instruction.
pub open spec fn spec_encode(inst: Instruction) -> Result<EncodedView, ErrorView> {
    let ops = inst.operands@;
    let span = inst.span;
    let m = inst.mnemonic;
    match m {
        Mnemonic::Nop => if ops.len() != 0 {
            Err(ErrorView::WrongOperandCount { expected: 0, got: ops.len() as usize, span })
        } else {
            Ok(plain(nop_word()))
        },
        Mnemonic::B | Mnemonic::Bl => spec_b_bl(m, ops, span),
        Mnemonic::Br | Mnemonic::Blr | Mnemonic::Ret => spec_br_blr_ret(m, ops, span),
        Mnemonic::BCond => spec_bcond(ops, span),
        Mnemonic::Cbz | Mnemonic::Cbnz => spec_cbz_cbnz(m, ops, span),
        Mnemonic::Svc | Mnemonic::Brk => spec_svc_brk(m, ops, span),
        Mnemonic::Movz | Mnemonic::Movn | Mnemonic::Movk => spec_mov_wide(m, ops, span),
        Mnemonic::Adr | Mnemonic::Adrp => spec_adr_adrp(m, ops, span),
        Mnemonic::Add | Mnemonic::Adds | Mnemonic::Sub | Mnemonic::Subs => spec_encode_add_sub(m, ops, span),
        Mnemonic::Cmp => spec_compare(Mnemonic::Subs, ops, span),
        Mnemonic::Cmn => spec_compare(Mnemonic::Adds, ops, span),
        Mnemonic::And | Mnemonic::Ands | Mnemonic::Orr | Mnemonic::Eor => spec_encode_logical(m, ops, span),
        Mnemonic::Tst => spec_tst(ops, span),
        Mnemonic::Mov => spec_mov(ops, span),
        Mnemonic::Ldr | Mnemonic::Str | Mnemonic::Ldrb | Mnemonic::Strb | Mnemonic::Ldrh | Mnemonic::Strh =>
            spec_ldst(m, ops, span),
        Mnemonic::Ldp | Mnemonic::Stp => spec_ldp_stp(m, ops, span),
    }
}

/// Encode a single ARM64 instruction.
pub fn encode(inst: &Instruction) -> (r: Result<EncodedInst, AsmError>)
    requires
        operands_wf(inst.operands@),
    ensures
        enc_view(r) == spec_encode(*inst),
{
    let ops = inst.operands.as_slice();
    let span = inst.span;
    match inst.mnemonic {
        Mnemonic::Nop => {
            if ops.len() != 0 {
                return Err(AsmError::WrongOperandCount { expected: 0, got: ops.len(), span });
            }
            Ok(encode_nop())
        },
        Mnemonic::B | Mnemonic::Bl => encode_b_bl(inst.mnemonic, ops, span),
        Mnemonic::Br | Mnemonic::Blr | Mnemonic::Ret => encode_br_blr_ret(inst.mnemonic, ops, span),
        Mnemonic::BCond => encode_bcond(ops, span),
        Mnemonic::Cbz | Mnemonic::Cbnz => encode_cbz_cbnz(inst.mnemonic, ops, span),
        Mnemonic::Svc | Mnemonic::Brk => encode_svc_brk(inst.mnemonic, ops, span),
        Mnemonic::Movz | Mnemonic::Movn | Mnemonic::Movk => encode_mov_wide(inst.mnemonic, ops, span),
        Mnemonic::Adr | Mnemonic::Adrp => encode_adr_adrp(inst.mnemonic, ops, span),
        Mnemonic::Add | Mnemonic::Adds | Mnemonic::Sub | Mnemonic::Subs => encode_add_sub(inst.mnemonic, ops, span),
        Mnemonic::Cmp => encode_compare(Mnemonic::Subs, ops, span),
        Mnemonic::Cmn => encode_compare(Mnemonic::Adds, ops, span),
        Mnemonic::And | Mnemonic::Ands | Mnemonic::Orr | Mnemonic::Eor => encode_logical(inst.mnemonic, ops, span),
        Mnemonic::Tst => encode_tst(ops, span),
        Mnemonic::Mov => encode_mov(ops, span),
        Mnemonic::Ldr | Mnemonic::Str | Mnemonic::Ldrb | Mnemonic::Strb | Mnemonic::Ldrh | Mnemonic::Strh =>
            encode_ldst(inst.mnemonic, ops, span),
        Mnemonic::Ldp | Mnemonic::Stp => encode_ldp_stp(inst.mnemonic, ops, span),
    }
}

/// ADD/SUB with a register second source: a shift or extend modifier when there is a fourth
/// operand; otherwise the extended form (UXTX, or UXTW for a 32-bit source) when SP is involved,
/// and the plain shifted form when not.
pub open spec fn spec_add_sub_register(m: Mnemonic, ops: Seq<Operand>, rd: Register, rn: Register, rm: Register, span: Span) -> Result<EncodedView, ErrorView> {
    if ops.len() == 4 {
        match ops[3] {
            Operand::Shift { op, amount } => match spec_as_literal(amount) {
                None => Err(bad_operand("shift amount must be a literal"@, span)),
                Some(a) => spec_add_sub_shifted(m, rd, rn, rm, Some(op), a as u32, span),
            },
            Operand::Extend { op, amount } => match amount {
                Some(e) => match spec_as_literal(e) {
                    None => Err(bad_operand("extend amount must be a literal"@, span)),
                    Some(a) => spec_add_sub_extended(m, rd, rn, rm, op, a as u32, span),
                },
                None => spec_add_sub_extended(m, rd, rn, rm, op, 0, span),
            },
            _ => Err(bad_operand("expected shift or extend modifier"@, span)),
        }
    } else if spec_is_sp(rd) || spec_is_sp(rn) {
        match reg_width_view(rm, span) {
            Err(e) => Err(e),
            Ok(b) => spec_add_sub_extended(m, rd, rn, rm, if b { ExtendOp::Uxtx } else { ExtendOp::Uxtw }, 0, span),
        }
    } else {
        spec_add_sub_shifted(m, rd, rn, rm, None, 0, span)
    }
}

/// The result of ADD/ADDS/SUB/SUBS, dispatched between the immediate and register forms.
pub open spec fn spec_encode_add_sub(m: Mnemonic, ops: Seq<Operand>, span: Span) -> Result<EncodedView, ErrorView> {
    if ops.len() < 3 || ops.len() > 4 {
        Err(ErrorView::WrongOperandCount { expected: 3, got: ops.len() as usize, span })
    } else {
        match spec_expect_reg(ops[0], span) {
            Err(e) => Err(e),
            Ok(rd) => match spec_expect_reg(ops[1], span) {
                Err(e) => Err(e),
                Ok(rn) => match ops[2] {
                    Operand::Immediate(expr) => if ops.len() == 4 {
                        match ops[3] {
                            Operand::Shift { op: ShiftOp::Lsl, amount } => match spec_as_literal(amount) {
                                None => Err(bad_operand("shift amount must be a literal"@, span)),
                                Some(shift) => spec_add_sub_imm_with_shift(m, rd, rn, expr, shift, span),
                            },
                            _ => Err(bad_operand("expected LSL shift after immediate"@, span)),
                        }
                    } else {
                        spec_add_sub_imm(m, rd, rn, expr, span)
                    },
                    Operand::Register(rm) => spec_add_sub_register(m, ops, rd, rn, rm, span),
                    _ => Err(bad_operand("expected immediate or register"@, span)),
                },
            },
        }
    }
}

/// Dispatch ADD/SUB between immediate and register forms.
pub fn encode_add_sub(mnemonic: Mnemonic, ops: &[Operand], span: Span) -> (r: Result<EncodedInst, AsmError>)
    requires
        is_add_sub(mnemonic),
        operands_wf(ops@),
    ensures
        enc_view(r) == spec_encode_add_sub(mnemonic, ops@, span),
{
    if ops.len() < 3 || ops.len() > 4 {
        return Err(AsmError::WrongOperandCount { expected: 3, got: ops.len(), span });
    }
    let rd = expect_reg(&ops[0], span)?;
    let rn = expect_reg(&ops[1], span)?;
    assert(operand_wf(ops@[0]) && operand_wf(ops@[1]) && operand_wf(ops@[2]));
    match &ops[2] {
        Operand::Immediate(expr) => {
            if ops.len() == 4 {
                match &ops[3] {
                    Operand::Shift { op: ShiftOp::Lsl, amount } => {
                        let shift = match amount.as_literal() {
                            Some(v) => v,
                            None => {
                                return Err(invalid_operand("shift amount must be a literal", span));
                            },
                        };
                        return encode_add_sub_imm_with_shift(mnemonic, rd, rn, expr, shift, span);
                    },
                    _ => {
                        return Err(invalid_operand("expected LSL shift after immediate", span));
                    },
                }
            }
            encode_add_sub_imm(mnemonic, rd, rn, expr, span)
        },
        Operand::Register(rm) => {
            if ops.len() == 4 {
                match &ops[3] {
                    Operand::Shift { op, amount } => {
                        let shift_amt = match amount.as_literal() {
                            Some(v) => v,
                            None => {
                                return Err(invalid_operand("shift amount must be a literal", span));
                            },
                        };
                        encode_add_sub_shifted(mnemonic, rd, rn, rm, Some(*op), shift_amt as u32, span)
                    },
                    Operand::Extend { op, amount } => {
                        let ext_amt: u32 = match amount {
                            Some(expr) => match expr.as_literal() {
                                Some(v) => v as u32,
                                None => {
                                    return Err(invalid_operand("extend amount must be a literal", span));
                                },
                            },
                            None => 0,
                        };
                        encode_add_sub_extended(mnemonic, rd, rn, rm, *op, ext_amt, span)
                    },
                    _ => Err(invalid_operand("expected shift or extend modifier", span)),
                }
            } else if is_sp(rd) || is_sp(rn) {
                let ext = if reg_is_64(rm, span)? { ExtendOp::Uxtx } else { ExtendOp::Uxtw };
                encode_add_sub_extended(mnemonic, rd, rn, rm, ext, 0, span)
            } else {
                encode_add_sub_shifted(mnemonic, rd, rn, rm, None, 0, span)
            }
        },
        _ => Err(invalid_operand("expected immediate or register", span)),
    }
}

/// The operands with the zero register of the first operand's width put in front; the error
/// when the first operand is not a register of known width.
pub open spec fn spec_with_zero_dest(ops: Seq<Operand>, span: Span) -> Result<Seq<Operand>, ErrorView> {
    match spec_expect_reg(ops[0], span) {
        Err(e) => Err(e),
        Ok(rn) => match reg_width_view(rn, span) {
            Err(e) => Err(e),
            Ok(is_64) => Ok(seq![Operand::Register(spec_zero_reg(is_64))] + ops),
        },
    }
}

/// Prefix the operands with the zero register matching the width of the first one.
fn with_zero_dest(ops: &[Operand], span: Span) -> (r: Result<Vec<Operand>, AsmError>)
    requires
        ops.len() >= 1,
        operands_wf(ops@),
    ensures
        match r {
            Ok(v) => spec_with_zero_dest(ops@, span) == Ok::<Seq<Operand>, ErrorView>(v@) && operands_wf(v@),
            Err(e) => spec_with_zero_dest(ops@, span) == Err::<Seq<Operand>, ErrorView>(e@),
        },
{
    let rn = expect_reg(&ops[0], span)?;
    let is_64 = reg_is_64(rn, span)?;
    let zr = zero_reg(is_64);
    let mut new_ops: Vec<Operand> = Vec::new();
    new_ops.push(Operand::Register(zr));
    let mut i: usize = 0;
    while i < ops.len()
        invariant
            i <= ops.len(),
            new_ops@ == seq![Operand::Register(zr)] + ops@.subrange(0, i as int),
        decreases ops.len() - i,
    {
        new_ops.push(ops[i].copy());
        assert(ops@.subrange(0, i + 1) == ops@.subrange(0, i as int).push(ops@[i as int]));
        i += 1;
    }
    assert(ops@.subrange(0, ops.len() as int) == ops@);
    assert forall|k: int| 0 <= k < new_ops@.len() implies #[trigger] operand_wf(new_ops@[k]) by {
        if k > 0 {
            assert(new_ops@[k] == ops@[k - 1]);
        }
    }
    Ok(new_ops)
}

/// The result of CMP (SUBS) or CMN (ADDS) with the zero register as destination.
pub open spec fn spec_compare(underlying: Mnemonic, ops: Seq<Operand>, span: Span) -> Result<EncodedView, ErrorView> {
    if ops.len() < 2 || ops.len() > 3 {
        Err(ErrorView::WrongOperandCount { expected: 2, got: ops.len() as usize, span })
    } else {
        match spec_with_zero_dest(ops, span) {
            Err(e) => Err(e),
            Ok(new_ops) => spec_encode_add_sub(underlying, new_ops, span),
        }
    }
}

/// Encode CMP/CMN — aliases for SUBS/ADDS XZR, Rn, op2.
fn encode_compare(underlying: Mnemonic, ops: &[Operand], span: Span) -> (r: Result<EncodedInst, AsmError>)
    requires
        underlying == Mnemonic::Subs || underlying == Mnemonic::Adds,
        operands_wf(ops@),
    ensures
        enc_view(r) == spec_compare(underlying, ops@, span),
{
    if ops.len() < 2 || ops.len() > 3 {
        return Err(AsmError::WrongOperandCount { expected: 2, got: ops.len(), span });
    }
    let new_ops = with_zero_dest(ops, span)?;
    encode_add_sub(underlying, new_ops.as_slice(), span)
}

/// The result of TST: ANDS with the zero register as destination.
pub open spec fn spec_tst(ops: Seq<Operand>, span: Span) -> Result<EncodedView, ErrorView> {
    if ops.len() < 2 || ops.len() > 3 {
        Err(ErrorView::WrongOperandCount { expected: 2, got: ops.len() as usize, span })
    } else {
        match spec_with_zero_dest(ops, span) {
            Err(e) => Err(e),
            Ok(new_ops) => spec_encode_logical(Mnemonic::Ands, new_ops, span),
        }
    }
}

/// Encode TST — alias for ANDS XZR, Rn, op2.
fn encode_tst(ops: &[Operand], span: Span) -> (r: Result<EncodedInst, AsmError>)
    requires
        operands_wf(ops@),
    ensures
        enc_view(r) == spec_tst(ops@, span),
{
    if ops.len() < 2 || ops.len() > 3 {
        return Err(AsmError::WrongOperandCount { expected: 2, got: ops.len(), span });
    }
    let new_ops = with_zero_dest(ops, span)?;
    encode_logical(Mnemonic::Ands, new_ops.as_slice(), span)
}

/// The result of AND/ANDS/ORR/EOR, dispatched between the immediate and register forms.
pub open spec fn spec_encode_logical(m: Mnemonic, ops: Seq<Operand>, span: Span) -> Result<EncodedView, ErrorView> {
    if ops.len() < 3 || ops.len() > 4 {
        Err(ErrorView::WrongOperandCount { expected: 3, got: ops.len() as usize, span })
    } else {
        match spec_expect_reg(ops[0], span) {
            Err(e) => Err(e),
            Ok(rd) => match spec_expect_reg(ops[1], span) {
                Err(e) => Err(e),
                Ok(rn) => match ops[2] {
                    Operand::Immediate(expr) => spec_logical_imm(m, rd, rn, expr, span),
                    Operand::Register(rm) => if ops.len() == 4 {
                        match ops[3] {
                            Operand::Shift { op, amount } => match spec_as_literal(amount) {
                                None => Err(bad_operand("shift amount must be a literal"@, span)),
                                Some(a) => spec_logical_shifted(m, rd, rn, rm, Some(op), a as u32, span),
                            },
                            _ => Err(bad_operand("expected shift modifier"@, span)),
                        }
                    } else {
                        spec_logical_shifted(m, rd, rn, rm, None, 0, span)
                    },
                    _ => Err(bad_operand("expected immediate or register"@, span)),
                },
            },
        }
    }
}

/// Dispatch logical between immediate and register forms.
fn encode_logical(mnemonic: Mnemonic, ops: &[Operand], span: Span) -> (r: Result<EncodedInst, AsmError>)
    requires
        is_logical(mnemonic),
        operands_wf(ops@),
    ensures
        enc_view(r) == spec_encode_logical(mnemonic, ops@, span),
{
    if ops.len() < 3 || ops.len() > 4 {
        return Err(AsmError::WrongOperandCount { expected: 3, got: ops.len(), span });
    }
    let rd = expect_reg(&ops[0], span)?;
    let rn = expect_reg(&ops[1], span)?;
    assert(operand_wf(ops@[0]) && operand_wf(ops@[1]) && operand_wf(ops@[2]));
    match &ops[2] {
        Operand::Immediate(expr) => encode_logical_imm(mnemonic, rd, rn, expr, span),
        Operand::Register(rm) => {
            let (shift_op, shift_amt): (Option<ShiftOp>, u32) = if ops.len() == 4 {
                match &ops[3] {
                    Operand::Shift { op, amount } => {
                        let amt = match amount.as_literal() {
                            Some(v) => v,
                            None => {
                                return Err(invalid_operand("shift amount must be a literal", span));
                            },
                        };
                        (Some(*op), amt as u32)
                    },
                    _ => {
                        return Err(invalid_operand("expected shift modifier", span));
                    },
                }
            } else {
                (None, 0)
            };
            encode_logical_shifted(mnemonic, rd, rn, rm, shift_op, shift_amt, span)
        },
        _ => Err(invalid_operand("expected immediate or register", span)),
    }
}

/// The 16-bit chunk of `uval` at halfword `hw`.
pub open spec fn halfword(uval: u64, hw: u32) -> u64 {
    (uval >> ((hw * 16) as u64)) & 0xFFFF
}

/// `uval` is zero outside halfword `hw`.
pub open spec fn only_in_halfword(uval: u64, hw: u32) -> bool {
    uval == halfword(uval, hw) << ((hw * 16) as u64)
}

/// The first halfword position (of 2, or 4 for a 64-bit register) outside which `uval` is zero.
pub open spec fn first_halfword(uval: u64, is_64: bool) -> Option<u32> {
    if only_in_halfword(uval, 0) {
        Some(0)
    } else if only_in_halfword(uval, 1) {
        Some(1)
    } else if is_64 && only_in_halfword(uval, 2) {
        Some(2)
    } else if is_64 && only_in_halfword(uval, 3) {
        Some(3)
    } else {
        None
    }
}

/// The wide move (opc 2: MOVZ, opc 0: MOVN) of `uval` into `rd`, when one halfword holds it.
pub open spec fn spec_try_mov_wide(rd: Register, uval: u64, is_64: bool, opc: u32) -> Option<EncodedView> {
    match first_halfword(uval, is_64) {
        Some(hw) => Some(plain(mov_wide_word(is_64, opc, hw, halfword(uval, hw) as u32, rd.spec_encoding() as u32))),
        None => None,
    }
}

/// Core logic for encoding a wide move (MOVZ or MOVN).
fn try_mov_wide(rd: &Register, uval: u64, is_64: bool, opc: u32) -> (r: Option<EncodedInst>)
    requires
        rd.wf(),
        opc == 0 || opc == 2,
    ensures
        match r {
            Some(e) => spec_try_mov_wide(*rd, uval, is_64, opc) == Some(e@),
            None => spec_try_mov_wide(*rd, uval, is_64, opc) is None,
        },
{
    let hw_positions: u32 = if is_64 { 4 } else { 2 };
    let mut hw: u32 = 0;
    while hw < hw_positions
        invariant
            hw <= hw_positions,
            hw_positions == (if is_64 { 4u32 } else { 2u32 }),
            rd.wf(),
            opc == 0 || opc == 2,
            forall|h: u32| h < hw ==> !#[trigger] only_in_halfword(uval, h),
        decreases hw_positions - hw,
    {
        let shift: u64 = (hw as u64) * 16;
        let imm16 = (uval >> shift) & 0xFFFF;
        if uval == (imm16 << shift) {
            assert(only_in_halfword(uval, hw));
            assert(first_halfword(uval, is_64) == Some(hw)) by {
                assert(forall|h: u32| h < hw ==> !#[trigger] only_in_halfword(uval, h));
            }
            assert(imm16 < 0x10000) by (bit_vector)
                requires imm16 == (uval >> shift) & 0xFFFF;
            proof { lemma_field_limits(); }
            let mut inst: u32 = if opc == 2 { 0x5280_0000 } else { 0x1280_0000 };
            assert(inst == spec_set_field(0x1280_0000, 30, 29, opc)) by (bit_vector)
                requires inst == (if opc == 2 { 0x5280_0000u32 } else { 0x1280_0000u32 }), opc == 0 || opc == 2;
            inst = set_sf(inst, is_64);
            inst = set_field(inst, 22, 21, hw);
            inst = set_field(inst, 20, 5, imm16 as u32);
            inst = set_rd(inst, rd.encoding());
            proof { lemma_try_mov_wide_word(is_64, opc, hw, imm16 as u32, rd.spec_encoding() as u32); }
            return Some(EncodedInst::new(inst));
        }
        hw += 1;
    }
    assert(first_halfword(uval, is_64) is None);
    None
}

proof fn lemma_try_mov_wide_word(is_64: bool, opc: u32, hw: u32, imm16: u32, rd: u32)
    requires
        opc == 0 || opc == 2, hw < 4, imm16 < 0x10000, rd < 32,
    ensures
        spec_set_field(spec_set_field(spec_set_field(spec_set_sf(spec_set_field(0x1280_0000, 30, 29, opc), is_64),
            22, 21, hw), 20, 5, imm16), 4, 0, rd) == mov_wide_word(is_64, opc, hw, imm16, rd),
{
    assert(spec_set_field(spec_set_field(spec_set_field(spec_set_sf(spec_set_field(0x1280_0000, 30, 29, opc), is_64),
            22, 21, hw), 20, 5, imm16), 4, 0, rd) == mov_wide_word(is_64, opc, hw, imm16, rd)) by (bit_vector)
        requires opc == 0 || opc == 2, hw < 4, imm16 < 0x10000, rd < 32;
}

/// The value a MOVZ must produce: the register-width bits of `value`.
pub open spec fn movz_value(value: i64, is_64: bool) -> u64 {
    if is_64 { value as u64 } else { (value as u64) & 0xFFFF_FFFF }
}

/// The value a MOVN must hold: the register-width bits of `!value`.
pub open spec fn movn_value(value: i64, is_64: bool) -> u64 {
    if is_64 { !(value as u64) } else { (!(value as u64)) & 0xFFFF_FFFF }
}

/// Try to encode a MOV as MOVZ.
fn try_movz(rd: &Register, value: i64, is_64: bool) -> (r: Option<EncodedInst>)
    requires
        rd.wf(),
    ensures
        match r {
            Some(e) => spec_try_mov_wide(*rd, movz_value(value, is_64), is_64, 2) == Some(e@),
            None => spec_try_mov_wide(*rd, movz_value(value, is_64), is_64, 2) is None,
        },
{
    let uval = if is_64 { value as u64 } else { (value as u64) & 0xFFFF_FFFF };
    try_mov_wide(rd, uval, is_64, 2)
}

/// Try to encode a MOV as MOVN.
fn try_movn(rd: &Register, value: i64, is_64: bool) -> (r: Option<EncodedInst>)
    requires
        rd.wf(),
    ensures
        match r {
            Some(e) => spec_try_mov_wide(*rd, movn_value(value, is_64), is_64, 0) == Some(e@),
            None => spec_try_mov_wide(*rd, movn_value(value, is_64), is_64, 0) is None,
        },
{
    let inverted = if is_64 { !(value as u64) } else { (!(value as u64)) & 0xFFFF_FFFF };
    try_mov_wide(rd, inverted, is_64, 0)
}

/// The result of MOV: between registers, ORR from the zero register (ADD #0 when SP is
/// involved); of an immediate, MOVZ, else MOVN, else ORR with a logical immediate.
pub open spec fn spec_mov(ops: Seq<Operand>, span: Span) -> Result<EncodedView, ErrorView> {
    if ops.len() != 2 {
        Err(ErrorView::WrongOperandCount { expected: 2, got: ops.len() as usize, span })
    } else {
        match spec_expect_reg(ops[0], span) {
            Err(e) => Err(e),
            Ok(rd) => match reg_width_view(rd, span) {
                Err(e) => Err(e),
                Ok(is_64) => match ops[1] {
                    Operand::Register(rn) => if spec_is_sp(rd) || spec_is_sp(rn) {
                        spec_add_sub_imm(Mnemonic::Add, rd, rn, Expr::Literal(0), span)
                    } else {
                        spec_logical_shifted(Mnemonic::Orr, rd, spec_zero_reg(is_64), rn, None, 0, span)
                    },
                    Operand::Immediate(expr) => match spec_as_literal(expr) {
                        None => Err(bad_operand("MOV immediate requires a constant"@, span)),
                        Some(value) => match spec_try_mov_wide(rd, movz_value(value, is_64), is_64, 2) {
                            Some(e) => Ok(e),
                            None => match spec_try_mov_wide(rd, movn_value(value, is_64), is_64, 0) {
                                Some(e) => Ok(e),
                                None => spec_logical_imm(Mnemonic::Orr, rd, spec_zero_reg(is_64), expr, span),
                            },
                        },
                    },
                    _ => Err(bad_operand("expected register or immediate"@, span)),
                },
            },
        }
    }
}

/// Encode MOV — complex alias.
fn encode_mov(ops: &[Operand], span: Span) -> (r: Result<EncodedInst, AsmError>)
    requires
        operands_wf(ops@),
    ensures
        enc_view(r) == spec_mov(ops@, span),
{
    if ops.len() != 2 {
        return Err(AsmError::WrongOperandCount { expected: 2, got: ops.len(), span });
    }
    let rd = expect_reg(&ops[0], span)?;
    let is_64 = reg_is_64(rd, span)?;
    assert(operand_wf(ops@[0]) && operand_wf(ops@[1]));
    match &ops[1] {
        Operand::Register(rn) => {
            if is_sp(rd) || is_sp(rn) {
                encode_add_sub_imm(Mnemonic::Add, rd, rn, &Expr::Literal(0), span)
            } else {
                let zr = zero_reg(is_64);
                encode_logical_shifted(Mnemonic::Orr, rd, &zr, rn, None, 0, span)
            }
        },
        Operand::Immediate(expr) => {
            let value = match expr.as_literal() {
                Some(v) => v,
                None => {
                    return Err(invalid_operand("MOV immediate requires a constant", span));
                },
            };
            if let Some(enc) = try_movz(rd, value, is_64) {
                return Ok(enc);
            }
            if let Some(enc) = try_movn(rd, value, is_64) {
                return Ok(enc);
            }
            let zr = zero_reg(is_64);
            encode_logical_imm(Mnemonic::Orr, rd, &zr, expr, span)
        },
        _ => Err(invalid_operand("expected register or immediate", span)),
    }
}

/// An add or subtract with fewer than three or more than four operands is refused for its
/// operand count, before any operand is looked at.
pub proof fn law_add_sub_operand_count(inst: Instruction)
    requires
        is_add_sub(inst.mnemonic),
        inst.operands@.len() < 3 || inst.operands@.len() > 4,
    ensures
        spec_encode(inst) == Err::<EncodedView, ErrorView>(
            ErrorView::WrongOperandCount { expected: 3, got: inst.operands@.len() as usize, span: inst.span },
        ),
{
}

/// MOV between registers where either one is the stack pointer is `ADD Rd, Rn, #0`: in the
/// ORR form, register 31 would name the zero register instead.
pub proof fn law_mov_sp_is_add(mov: Instruction, add: Instruction, rd: Register, rn: Register)
    requires
        mov.mnemonic == Mnemonic::Mov,
        add.mnemonic == Mnemonic::Add,
        mov.operands@ == seq![Operand::Register(rd), Operand::Register(rn)],
        add.operands@ == seq![Operand::Register(rd), Operand::Register(rn), Operand::Immediate(Expr::Literal(0))],
        mov.span == add.span,
        spec_is_sp(rd) || spec_is_sp(rn),
    ensures
        spec_encode(mov) == spec_encode(add),
{
}

/// MOV between registers neither of which is the stack pointer is `ORR Rd, ZR, Rm`, with the
/// zero register of the destination's width.
pub proof fn law_mov_register_is_orr(mov: Instruction, orr: Instruction, rd: Register, rm: Register, is_64: bool)
    requires
        mov.mnemonic == Mnemonic::Mov,
        orr.mnemonic == Mnemonic::Orr,
        spec_reg_is_64(rd) == Some(is_64),
        mov.operands@ == seq![Operand::Register(rd), Operand::Register(rm)],
        orr.operands@ == seq![Operand::Register(rd), Operand::Register(spec_zero_reg(is_64)), Operand::Register(rm)],
        mov.span == orr.span,
        !spec_is_sp(rd) && !spec_is_sp(rm),
    ensures
        spec_encode(mov) == spec_encode(orr),
{
}

/// A register-offset load or store: the word has the register-offset form (`111000`, bit 21
/// set, bits 11:10 `10`), scales its index (bit 12, `S`, is set) exactly when a shift amount
/// above zero is given, and holds the access size (3 for a 64-bit LDR/STR, 2 for 32-bit, 1 for
/// halfwords, 0 for bytes), the load bit, the index, base and data registers, and the extend
/// (LSL, that is UXTX, when none is given).
pub proof fn law_ldst_register_scaling(
    inst: Instruction,
    rt: Register,
    base: Register,
    index: Register,
    extend: Option<ExtendOp>,
    amount: Option<u8>,
)
    requires
        is_ldst(inst.mnemonic),
        operands_wf(inst.operands@),
        inst.operands@ == seq![
            Operand::Register(rt),
            Operand::Memory(MemoryOperand::BaseRegister { base, index, extend, amount }),
        ],
        spec_reg_is_64(rt) is Some,
    ensures
        spec_encode(inst) is Ok,
        ((spec_encode(inst)->Ok_0.bits >> 12) & 1 == 1) <==> (amount matches Some(a) && a > 0),
        ({
            let bits = spec_encode(inst)->Ok_0.bits;
            let m = inst.mnemonic;
            &&& (bits >> 24) & 0x3F == 0x38 && (bits >> 21) & 1 == 1 && (bits >> 10) & 3 == 2
            &&& bits >> 30 == if m == Mnemonic::Ldrb || m == Mnemonic::Strb { 0u32 } else if m == Mnemonic::Ldrh
                || m == Mnemonic::Strh { 1u32 } else if spec_reg_is_64(rt) == Some(true) { 3u32 } else { 2u32 }
            &&& ((bits >> 22) & 3 == 1) == (m == Mnemonic::Ldr || m == Mnemonic::Ldrb || m == Mnemonic::Ldrh)
            &&& (bits >> 22) & 3 <= 1
            &&& (bits >> 16) & 0x1F == index.spec_encoding()
            &&& (bits >> 5) & 0x1F == base.spec_encoding()
            &&& bits & 0x1F == rt.spec_encoding()
            &&& (bits >> 13) & 7 == match extend { Some(e) => e.spec_encoding(), None => ExtendOp::Uxtx.spec_encoding() }
        }),
        spec_encode(inst)->Ok_0.relocation is None,
{
    assert(operand_wf(inst.operands@[0]) && operand_wf(inst.operands@[1]));
    let m = inst.mnemonic;
    let width = if m == Mnemonic::Ldrb || m == Mnemonic::Strb || m == Mnemonic::Ldrh || m == Mnemonic::Strh {
        false
    } else {
        spec_reg_is_64(rt)->0
    };
    let (size, opc, _) = spec_ldst_params(m, width);
    let option = match extend { Some(e) => e.spec_encoding(), None => 3 } as u32;
    let sb: u32 = match amount { Some(a) => if a > 0 { 1 } else { 0 }, None => 0 };
    lemma_ldst_register_word(size, opc, index.spec_encoding() as u32, option, sb, base.spec_encoding() as u32,
        rt.spec_encoding() as u32);
}

/// B.cond to a label: the word is a B.cond (top byte `0x54`) whose low four bits, read by ARM's
/// ConditionHolds, test what the condition's name says, and the label is left as a 19-bit
/// PC-relative reference.
pub proof fn law_bcond_condition(inst: Instruction, c: Condition, label: String, f: Flags)
    requires
        inst.mnemonic == Mnemonic::BCond,
        inst.operands@ == seq![Operand::Condition(c), Operand::Label(label)],
    ensures
        spec_encode(inst) is Ok,
        spec_encode(inst)->Ok_0.bits >> 24 == 0x54,
        condition_holds((spec_encode(inst)->Ok_0.bits & 0xF) as u8, f) == condition_meaning(c, f),
        spec_encode(inst)->Ok_0.relocation matches Some(r) && r.kind == RelocKind::Pcrel19 && r.symbol == label@,
{
    law_condition_encoding(c, f);
    lemma_bcond_word(c.spec_encoding() as u32, 0);
}

} // verus!
