//! Load/Store instruction encoders.

use vstd::prelude::*;
use crate::text::{decimal_digits, push_decimal, push_str};
use crate::types::error::{AsmError, ErrorView, invalid_operand};
use crate::types::expr::{Expr, RelocModifier, spec_as_literal};
use crate::types::instruction::Mnemonic;
use crate::types::operand::{ExtendOp, MemoryOperand, Operand};
use crate::types::register::Register;
use crate::types::reloc::{PendingRelocation, RelocKind};
use crate::types::span::Span;
use crate::encode::{EncodedInst, EncodedView, plain, with_reloc_view};
use crate::encode::common::{bad_operand, enc_view, expect_reg, reg_is_64, reg_width_view, spec_expect_reg};
use crate::encode::dp_imm::{operand_wf, operands_wf};
use crate::encode::fields::{
    lemma_field_limits, set_field, set_rm, set_rn, set_rt, set_rt2, spec_set_field, spec_truncate_imm, truncate_imm,
};

verus! {

/// Size/opc mapping for load/store instructions.
pub struct LdstParams {
    /// bits [31:30]
    pub size: u32,
    /// bit [26] — 0 for GP registers
    pub v: u32,
    /// bits [23:22]
    pub opc: u32,
    pub is_load: bool,
}

/// Whether a mnemonic is a single-register load or store.
pub open spec fn is_ldst(m: Mnemonic) -> bool {
    m == Mnemonic::Ldr || m == Mnemonic::Str || m == Mnemonic::Ldrb || m == Mnemonic::Strb
        || m == Mnemonic::Ldrh || m == Mnemonic::Strh
}

/// The (size, opc, is_load) of a single-register load or store.
pub open spec fn spec_ldst_params(m: Mnemonic, is_64: bool) -> (u32, u32, bool) {
    match m {
        Mnemonic::Ldr => (if is_64 { 3 } else { 2 }, 1, true),
        Mnemonic::Str => (if is_64 { 3 } else { 2 }, 0, false),
        Mnemonic::Ldrb => (0, 1, true),
        Mnemonic::Strb => (0, 0, false),
        Mnemonic::Ldrh => (1, 1, true),
        _ => (1, 0, false),
    }
}

/// The load/store parameters for a mnemonic and register width.
pub fn ldst_params(mnemonic: Mnemonic, is_64: bool) -> (r: LdstParams)
    requires
        is_ldst(mnemonic),
    ensures
        (r.size, r.opc, r.is_load) == spec_ldst_params(mnemonic, is_64),
        r.v == 0,
        r.size < 4,
        r.opc < 4,
{
    match mnemonic {
        Mnemonic::Ldr => LdstParams { size: if is_64 { 0b11 } else { 0b10 }, v: 0, opc: 0b01, is_load: true },
        Mnemonic::Str => LdstParams { size: if is_64 { 0b11 } else { 0b10 }, v: 0, opc: 0b00, is_load: false },
        Mnemonic::Ldrb => LdstParams { size: 0b00, v: 0, opc: 0b01, is_load: true },
        Mnemonic::Strb => LdstParams { size: 0b00, v: 0, opc: 0b00, is_load: false },
        Mnemonic::Ldrh => LdstParams { size: 0b01, v: 0, opc: 0b01, is_load: true },
        _ => LdstParams { size: 0b01, v: 0, opc: 0b00, is_load: false },
    }
}

/// Access size in bytes for a size encoding: 00→1, 01→2, 10→4, 11→8.
pub open spec fn spec_access_size(size: u32) -> u32 {
    if size == 0 { 1 } else if size == 1 { 2 } else if size == 2 { 4 } else { 8 }
}

/// Access size in bytes for the given size encoding.
pub fn access_size_bytes(size: u32) -> (r: u32)
    requires
        size < 4,
    ensures
        r == spec_access_size(size),
{
    let r = 1u32 << size;
    assert(size < 4 ==> (1u32 << size) == (if size == 0 { 1u32 } else if size == 1 { 2u32 } else if size == 2 { 4u32 } else { 8u32 })) by (bit_vector);
    r
}

/// `size 111 V 01 opc imm12 Rn Rt`
pub open spec fn ldst_unsigned_word(size: u32, opc: u32, imm12: u32, rn: u32, rt: u32) -> u32 {
    0x3900_0000u32 | (size << 30) | (opc << 22) | (imm12 << 10) | (rn << 5) | rt
}

/// `size 111 V 00 opc 0 imm9 idx Rn Rt`
pub open spec fn ldst_pre_post_word(size: u32, opc: u32, imm9: u32, idx: u32, rn: u32, rt: u32) -> u32 {
    0x3800_0000u32 | (size << 30) | (opc << 22) | (imm9 << 12) | (idx << 10) | (rn << 5) | rt
}

/// `size 111 V 00 opc 1 Rm option S 10 Rn Rt`
pub open spec fn ldst_register_word(size: u32, opc: u32, rm: u32, option: u32, s: u32, rn: u32, rt: u32) -> u32 {
    0x3820_0800u32 | (size << 30) | (opc << 22) | (rm << 16) | (option << 13) | (s << 12) | (rn << 5) | rt
}

/// `opc 011000 imm19 Rt`
pub open spec fn ldr_literal_word(opc: u32, rt: u32) -> u32 {
    0x1800_0000u32 | (opc << 30) | rt
}

/// `opc 101 V 0 type L imm7 Rt2 Rn Rt`
pub open spec fn ldp_stp_word(opc: u32, addr_type: u32, l: u32, imm7: u32, rt2: u32, rn: u32, rt: u32) -> u32 {
    0x2800_0000u32 | (opc << 30) | (addr_type << 23) | (l << 22) | (imm7 << 15) | (rt2 << 10) | (rn << 5) | rt
}

/// The result of a load/store with an unsigned scaled 12-bit offset (or a page-offset relocation).
pub open spec fn spec_ldst_unsigned(rt: u32, rn: u32, offset: Expr, size: u32, opc: u32, span: Span) -> Result<EncodedView, ErrorView> {
    let base = ldst_unsigned_word(size, opc, 0, rn, rt);
    match offset {
        Expr::Relocated { modifier, symbol, addend } => match modifier {
            RelocModifier::Lo12 => Ok(with_reloc_view(base, RelocKind::PageOff12, symbol@, addend)),
            RelocModifier::GotLo12 => Ok(with_reloc_view(base, RelocKind::GotLoadPageOff12, symbol@, addend)),
            _ => Err(bad_operand("invalid relocation for load/store"@, span)),
        },
        _ => match spec_as_literal(offset) {
            None => Err(bad_operand("unsigned offset requires a constant or relocation"@, span)),
            Some(value) => {
                let access = spec_access_size(size);
                if value < 0 {
                    Err(ErrorView::ImmediateOutOfRange { value, span })
                } else if value % (access as i64) != 0 {
                    Err(bad_operand("offset must be a multiple of "@ + decimal_digits(access as nat), span))
                } else if value / (access as i64) > 0xFFF {
                    Err(ErrorView::ImmediateOutOfRange { value, span })
                } else {
                    Ok(plain(ldst_unsigned_word(size, opc, (value / (access as i64)) as u32, rn, rt)))
                }
            },
        },
    }
}

proof fn lemma_ldst_unsigned_word(size: u32, opc: u32, imm12: u32, rn: u32, rt: u32)
    requires
        size < 4, opc < 4, imm12 < 4096, rn < 32, rt < 32,
    ensures
        spec_set_field(spec_set_field(spec_set_field(spec_set_field(spec_set_field(0x3900_0000u32, 31, 30, size),
            26, 26, 0), 23, 22, opc), 4, 0, rt), 9, 5, rn) == ldst_unsigned_word(size, opc, 0, rn, rt),
        spec_set_field(ldst_unsigned_word(size, opc, 0, rn, rt), 21, 10, imm12) == ldst_unsigned_word(size, opc, imm12, rn, rt),
{
    assert(spec_set_field(spec_set_field(spec_set_field(spec_set_field(spec_set_field(0x3900_0000u32, 31, 30, size),
            26, 26, 0), 23, 22, opc), 4, 0, rt), 9, 5, rn) == ldst_unsigned_word(size, opc, 0, rn, rt)
        && spec_set_field(ldst_unsigned_word(size, opc, 0, rn, rt), 21, 10, imm12) == ldst_unsigned_word(size, opc, imm12, rn, rt))
        by (bit_vector) requires size < 4, opc < 4, imm12 < 4096, rn < 32, rt < 32;
}

/// Encode unsigned offset: `size 111 V 01 opc imm12 Rn Rt`
pub fn encode_ldst_unsigned_offset(rt: u8, rn: u8, offset: &Expr, params: &LdstParams, span: Span) -> (r: Result<EncodedInst, AsmError>)
    requires
        rt < 32, rn < 32, params.size < 4, params.opc < 4, params.v == 0,
    ensures
        enc_view(r) == spec_ldst_unsigned(rt as u32, rn as u32, *offset, params.size, params.opc, span),
{
    proof { lemma_field_limits(); }
    let mut inst: u32 = 0x3900_0000;
    inst = set_field(inst, 31, 30, params.size);
    inst = set_field(inst, 26, 26, params.v);
    inst = set_field(inst, 23, 22, params.opc);
    inst = set_rt(inst, rt);
    inst = set_rn(inst, rn);
    proof { lemma_ldst_unsigned_word(params.size, params.opc, 0, rn as u32, rt as u32); }
    match offset {
        Expr::Relocated { modifier, symbol, addend } => {
            let kind = match modifier {
                RelocModifier::Lo12 => RelocKind::PageOff12,
                RelocModifier::GotLo12 => RelocKind::GotLoadPageOff12,
                _ => {
                    return Err(invalid_operand("invalid relocation for load/store", span));
                },
            };
            return Ok(EncodedInst::with_reloc(inst, PendingRelocation { kind, symbol: symbol.clone(), addend: *addend }));
        },
        _ => {},
    }
    let value = match offset.as_literal() {
        Some(v) => v,
        None => {
            return Err(invalid_operand("unsigned offset requires a constant or relocation", span));
        },
    };
    let access = access_size_bytes(params.size);
    if value < 0 {
        return Err(AsmError::ImmediateOutOfRange { value, span });
    }
    let uval = value as u64;
    if uval % (access as u64) != 0 {
        let mut detail = String::new();
        push_str(&mut detail, "offset must be a multiple of ");
        push_decimal(&mut detail, access as u64);
        return Err(AsmError::InvalidOperand { detail, span });
    }
    let scaled = uval / (access as u64);
    if scaled > 0xFFF {
        return Err(AsmError::ImmediateOutOfRange { value, span });
    }
    let ghost before = inst;
    inst = set_field(inst, 21, 10, scaled as u32);
    proof { lemma_ldst_unsigned_word(params.size, params.opc, scaled as u32, rn as u32, rt as u32); }
    Ok(EncodedInst::new(inst))
}

/// The result of a pre-index or post-index load/store with a signed 9-bit offset.
pub open spec fn spec_ldst_pre_post(rt: u32, rn: u32, offset: Expr, is_pre: bool, size: u32, opc: u32, span: Span) -> Result<EncodedView, ErrorView> {
    match spec_as_literal(offset) {
        None => Err(bad_operand("pre/post-index offset must be a literal"@, span)),
        Some(value) => if value < -256 || value > 255 {
            Err(ErrorView::ImmediateOutOfRange { value, span })
        } else {
            Ok(plain(ldst_pre_post_word(size, opc, spec_truncate_imm(value, 9), if is_pre { 3 } else { 1 }, rn, rt)))
        },
    }
}

/// Encode pre-index or post-index: `size 111000 opc 0 imm9 idx Rn Rt`
pub fn encode_ldst_pre_post(rt: u8, rn: u8, offset: &Expr, is_pre: bool, params: &LdstParams, span: Span) -> (r: Result<EncodedInst, AsmError>)
    requires
        rt < 32, rn < 32, params.size < 4, params.opc < 4, params.v == 0,
    ensures
        enc_view(r) == spec_ldst_pre_post(rt as u32, rn as u32, *offset, is_pre, params.size, params.opc, span),
{
    let value = match offset.as_literal() {
        Some(v) => v,
        None => {
            return Err(invalid_operand("pre/post-index offset must be a literal", span));
        },
    };
    if value < -256 || value > 255 {
        return Err(AsmError::ImmediateOutOfRange { value, span });
    }
    let idx: u32 = if is_pre { 0b11 } else { 0b01 };
    proof { lemma_field_limits(); }
    let imm9 = truncate_imm(value, 9);
    let mut inst: u32 = 0x3800_0000;
    inst = set_field(inst, 31, 30, params.size);
    inst = set_field(inst, 26, 26, params.v);
    inst = set_field(inst, 23, 22, params.opc);
    inst = set_field(inst, 20, 12, imm9);
    inst = set_field(inst, 11, 10, idx);
    inst = set_rn(inst, rn);
    inst = set_rt(inst, rt);
    let size = params.size;
    let opc = params.opc;
    let rn32 = rn as u32;
    let rt32 = rt as u32;
    assert(spec_set_field(spec_set_field(spec_set_field(spec_set_field(spec_set_field(spec_set_field(spec_set_field(
        0x3800_0000u32, 31, 30, size), 26, 26, 0), 23, 22, opc), 20, 12, imm9), 11, 10, idx), 9, 5, rn32), 4, 0, rt32)
        == ldst_pre_post_word(size, opc, imm9, idx, rn32, rt32)) by (bit_vector)
        requires size < 4, opc < 4, imm9 < 512, idx < 4, rn32 < 32, rt32 < 32;
    Ok(EncodedInst::new(inst))
}

/// The word of a register-offset load/store; LSL-less indexing defaults to UXTX and S is set
/// when an amount above zero is given.
pub open spec fn spec_ldst_register(rt: u32, rn: u32, rm: u32, extend: Option<ExtendOp>, amount: Option<u8>, size: u32, opc: u32) -> EncodedView {
    let option = match extend { Some(e) => e.spec_encoding(), None => 3 } as u32;
    let s: u32 = match amount { Some(a) => if a > 0 { 1 } else { 0 }, None => 0 };
    plain(ldst_register_word(size, opc, rm, option, s, rn, rt))
}

/// Encode register offset: `size 111 V 00 opc 1 Rm option S 10 Rn Rt`
pub fn encode_ldst_register(rt: u8, rn: u8, rm: u8, extend: &Option<ExtendOp>, amount: &Option<u8>, params: &LdstParams) -> (r: Result<EncodedInst, AsmError>)
    requires
        rt < 32, rn < 32, rm < 32, params.size < 4, params.opc < 4, params.v == 0,
    ensures
        enc_view(r) == Ok::<EncodedView, ErrorView>(spec_ldst_register(rt as u32, rn as u32, rm as u32, *extend, *amount, params.size, params.opc)),
{
    let option = match extend {
        Some(e) => e.encoding(),
        None => ExtendOp::Uxtx.encoding(),
    } as u32;
    let s_bit: u32 = match amount {
        Some(a) => if *a > 0 { 1 } else { 0 },
        None => 0,
    };
    proof { lemma_field_limits(); }
    let mut inst: u32 = 0x3820_0800;
    inst = set_field(inst, 31, 30, params.size);
    inst = set_field(inst, 26, 26, params.v);
    inst = set_field(inst, 23, 22, params.opc);
    inst = set_rm(inst, rm);
    inst = set_field(inst, 15, 13, option);
    inst = set_field(inst, 12, 12, s_bit);
    inst = set_rn(inst, rn);
    inst = set_rt(inst, rt);
    let size = params.size;
    let opc = params.opc;
    let rn32 = rn as u32;
    let rt32 = rt as u32;
    let rm32 = rm as u32;
    proof { lemma_ldst_register_word(size, opc, rm32, option, s_bit, rn32, rt32); }
    Ok(EncodedInst::new(inst))
}

/// The register-offset word is built field by field, and its bit 12 is the scaling bit `S`.
pub(crate) proof fn lemma_ldst_register_word(size: u32, opc: u32, rm: u32, option: u32, s: u32, rn: u32, rt: u32)
    by (bit_vector)
    requires
        size < 4, opc < 4, rm < 32, option < 8, s < 2, rn < 32, rt < 32,
    ensures
        spec_set_field(spec_set_field(spec_set_field(spec_set_field(spec_set_field(spec_set_field(spec_set_field(
            spec_set_field(0x3820_0800u32, 31, 30, size), 26, 26, 0), 23, 22, opc), 20, 16, rm), 15, 13, option),
            12, 12, s), 9, 5, rn), 4, 0, rt) == ldst_register_word(size, opc, rm, option, s, rn, rt),
        (ldst_register_word(size, opc, rm, option, s, rn, rt) >> 12) & 1 == s,
        ldst_register_word(size, opc, rm, option, s, rn, rt) >> 30 == size,
        (ldst_register_word(size, opc, rm, option, s, rn, rt) >> 22) & 3 == opc,
        (ldst_register_word(size, opc, rm, option, s, rn, rt) >> 16) & 0x1F == rm,
        (ldst_register_word(size, opc, rm, option, s, rn, rt) >> 13) & 7 == option,
        (ldst_register_word(size, opc, rm, option, s, rn, rt) >> 5) & 0x1F == rn,
        ldst_register_word(size, opc, rm, option, s, rn, rt) & 0x1F == rt,
        (ldst_register_word(size, opc, rm, option, s, rn, rt) >> 24) & 0x3F == 0x38,
        (ldst_register_word(size, opc, rm, option, s, rn, rt) >> 10) & 3 == 2,
        (ldst_register_word(size, opc, rm, option, s, rn, rt) >> 21) & 1 == 1,
{
}

/// The result of LDR (literal): a PC-relative 19-bit relocation against the label.
pub open spec fn spec_ldr_literal(rt: u32, label: Seq<char>, is_64: bool) -> EncodedView {
    with_reloc_view(ldr_literal_word(if is_64 { 1 } else { 0 }, rt), RelocKind::Pcrel19, label, 0)
}

/// Encode LDR literal: `opc 011000 imm19 Rt`
pub fn encode_ldr_literal(rt: u8, label: &str, is_64: bool) -> (r: Result<EncodedInst, AsmError>)
    requires
        rt < 32,
    ensures
        enc_view(r) == Ok::<EncodedView, ErrorView>(spec_ldr_literal(rt as u32, label@, is_64)),
{
    let opc: u32 = if is_64 { 0b01 } else { 0b00 };
    proof { lemma_field_limits(); }
    let mut inst: u32 = 0x1800_0000;
    inst = set_field(inst, 31, 30, opc);
    inst = set_rt(inst, rt);
    let rt32 = rt as u32;
    assert(spec_set_field(spec_set_field(0x1800_0000u32, 31, 30, opc), 4, 0, rt32) == ldr_literal_word(opc, rt32)) by (bit_vector)
        requires opc < 4, rt32 < 32;
    Ok(EncodedInst::with_reloc(inst, PendingRelocation::simple(RelocKind::Pcrel19, crate::types::error::owned(label))))
}

/// The result of a load/store whose second operand is a memory operand.
pub open spec fn spec_ldst_mem(rt: u32, mem: MemoryOperand, size: u32, opc: u32, is_load: bool, span: Span) -> Result<EncodedView, ErrorView> {
    match mem {
        MemoryOperand::Base { reg } => spec_ldst_unsigned(rt, reg.spec_encoding() as u32, Expr::Literal(0), size, opc, span),
        MemoryOperand::BaseOffset { reg, offset } => spec_ldst_unsigned(rt, reg.spec_encoding() as u32, offset, size, opc, span),
        MemoryOperand::PreIndex { reg, offset } => spec_ldst_pre_post(rt, reg.spec_encoding() as u32, offset, true, size, opc, span),
        MemoryOperand::PostIndex { reg, offset } => spec_ldst_pre_post(rt, reg.spec_encoding() as u32, offset, false, size, opc, span),
        MemoryOperand::BaseRegister { base, index, extend, amount } => Ok(spec_ldst_register(rt, base.spec_encoding() as u32,
            index.spec_encoding() as u32, extend, amount, size, opc)),
        MemoryOperand::Label(name) => if is_load {
            Ok(spec_ldr_literal(rt, name@, size >= 2))
        } else {
            Err(bad_operand("invalid addressing mode for this instruction"@, span))
        },
    }
}

/// Encode a load/store whose second operand is a memory operand.
pub fn encode_ldst_mem(rt: u8, mem: &MemoryOperand, params: &LdstParams, span: Span) -> (r: Result<EncodedInst, AsmError>)
    requires
        rt < 32, params.size < 4, params.opc < 4, params.v == 0,
        operand_wf(Operand::Memory(*mem)),
    ensures
        enc_view(r) == spec_ldst_mem(rt as u32, *mem, params.size, params.opc, params.is_load, span),
{
    match mem {
        MemoryOperand::Base { reg } => encode_ldst_unsigned_offset(rt, reg.encoding(), &Expr::Literal(0), params, span),
        MemoryOperand::BaseOffset { reg, offset } => encode_ldst_unsigned_offset(rt, reg.encoding(), offset, params, span),
        MemoryOperand::PreIndex { reg, offset } => encode_ldst_pre_post(rt, reg.encoding(), offset, true, params, span),
        MemoryOperand::PostIndex { reg, offset } => encode_ldst_pre_post(rt, reg.encoding(), offset, false, params, span),
        MemoryOperand::BaseRegister { base, index, extend, amount } => encode_ldst_register(
            rt, base.encoding(), index.encoding(), extend, amount, params),
        MemoryOperand::Label(name) => {
            if params.is_load {
                let is_64 = params.size >= 0b10;
                encode_ldr_literal(rt, name.as_str(), is_64)
            } else {
                Err(invalid_operand("invalid addressing mode for this instruction", span))
            }
        },
    }
}

/// The result of LDR/STR/LDRB/STRB/LDRH/STRH.
pub open spec fn spec_ldst(m: Mnemonic, ops: Seq<Operand>, span: Span) -> Result<EncodedView, ErrorView> {
    if ops.len() != 2 {
        Err(ErrorView::WrongOperandCount { expected: 2, got: ops.len() as usize, span })
    } else {
        match spec_expect_reg(ops[0], span) {
            Err(e) => Err(e),
            Ok(reg) => {
                let width = if m == Mnemonic::Ldrb || m == Mnemonic::Strb || m == Mnemonic::Ldrh || m == Mnemonic::Strh {
                    Ok(false)
                } else {
                    reg_width_view(reg, span)
                };
                match width {
                    Err(e) => Err(e),
                    Ok(is_64) => {
                        let (size, opc, is_load) = spec_ldst_params(m, is_64);
                        let rt = reg.spec_encoding() as u32;
                        match ops[1] {
                            Operand::Memory(mem) => spec_ldst_mem(rt, mem, size, opc, is_load, span),
                            Operand::Label(name) => if is_load {
                                Ok(spec_ldr_literal(rt, name@, is_64))
                            } else {
                                Err(bad_operand("expected memory operand or label"@, span))
                            },
                            _ => Err(bad_operand("expected memory operand or label"@, span)),
                        }
                    },
                }
            },
        }
    }
}

/// Encode LDR/STR/LDRB/STRB/LDRH/STRH, dispatching on the addressing mode.
pub fn encode_ldst(mnemonic: Mnemonic, operands: &[Operand], span: Span) -> (r: Result<EncodedInst, AsmError>)
    requires
        is_ldst(mnemonic),
        operands_wf(operands@),
    ensures
        enc_view(r) == spec_ldst(mnemonic, operands@, span),
{
    if operands.len() != 2 {
        return Err(AsmError::WrongOperandCount { expected: 2, got: operands.len(), span });
    }
    let reg = expect_reg(&operands[0], span)?;
    assert(operand_wf(operands@[0]));
    assert(operand_wf(operands@[1]));
    let is_64 = match mnemonic {
        Mnemonic::Ldrb | Mnemonic::Strb | Mnemonic::Ldrh | Mnemonic::Strh => false,
        _ => reg_is_64(reg, span)?,
    };
    let rt = reg.encoding();
    let params = ldst_params(mnemonic, is_64);
    match &operands[1] {
        Operand::Memory(mem) => encode_ldst_mem(rt, mem, &params, span),
        Operand::Label(name) => {
            if params.is_load {
                encode_ldr_literal(rt, name.as_str(), is_64)
            } else {
                Err(invalid_operand("expected memory operand or label", span))
            }
        },
        _ => Err(invalid_operand("expected memory operand or label", span)),
    }
}

/// The base register, offset and addressing type of an LDP/STP memory operand.
pub open spec fn spec_pair_address(mem: MemoryOperand) -> Option<(Register, Expr, u32)> {
    match mem {
        MemoryOperand::Base { reg } => Some((reg, Expr::Literal(0), 2)),
        MemoryOperand::BaseOffset { reg, offset } => Some((reg, offset, 2)),
        MemoryOperand::PreIndex { reg, offset } => Some((reg, offset, 3)),
        MemoryOperand::PostIndex { reg, offset } => Some((reg, offset, 1)),
        _ => None,
    }
}

/// The result of LDP/STP; a non-constant offset counts as zero.
pub open spec fn spec_ldp_stp(m: Mnemonic, ops: Seq<Operand>, span: Span) -> Result<EncodedView, ErrorView> {
    if ops.len() != 3 {
        Err(ErrorView::WrongOperandCount { expected: 3, got: ops.len() as usize, span })
    } else {
        match spec_expect_reg(ops[0], span) {
            Err(e) => Err(e),
            Ok(rt1) => match spec_expect_reg(ops[1], span) {
                Err(e) => Err(e),
                Ok(rt2) => match reg_width_view(rt1, span) {
                    Err(e) => Err(e),
                    Ok(is_64) => {
                        let l: u32 = if m == Mnemonic::Ldp { 1 } else { 0 };
                        let opc: u32 = if is_64 { 2 } else { 0 };
                        let access: i64 = if is_64 { 8 } else { 4 };
                        match ops[2] {
                            Operand::Memory(mem) => match spec_pair_address(mem) {
                                None => Err(bad_operand("LDP/STP requires base+offset addressing"@, span)),
                                Some((rn, off, addr_type)) => {
                                    let offset = match spec_as_literal(off) { Some(v) => v, None => 0 };
                                    if offset % access != 0 {
                                        Err(bad_operand("LDP/STP offset must be a multiple of "@ + decimal_digits(access as nat), span))
                                    } else if offset / access < -64 || offset / access > 63 {
                                        Err(ErrorView::ImmediateOutOfRange { value: offset, span })
                                    } else {
                                        Ok(plain(ldp_stp_word(opc, addr_type, l, spec_truncate_imm((offset / access) as i64, 7),
                                            rt2.spec_encoding() as u32, rn.spec_encoding() as u32, rt1.spec_encoding() as u32)))
                                    }
                                },
                            },
                            _ => Err(bad_operand("expected memory operand"@, span)),
                        }
                    },
                },
            },
        }
    }
}

/// Encode LDP or STP (signed offset, pre-index or post-index).
pub fn encode_ldp_stp(mnemonic: Mnemonic, operands: &[Operand], span: Span) -> (r: Result<EncodedInst, AsmError>)
    requires
        mnemonic == Mnemonic::Ldp || mnemonic == Mnemonic::Stp,
        operands_wf(operands@),
    ensures
        enc_view(r) == spec_ldp_stp(mnemonic, operands@, span),
{
    if operands.len() != 3 {
        return Err(AsmError::WrongOperandCount { expected: 3, got: operands.len(), span });
    }
    let rt1 = expect_reg(&operands[0], span)?;
    let rt2 = expect_reg(&operands[1], span)?;
    assert(operand_wf(operands@[0]));
    assert(operand_wf(operands@[1]));
    assert(operand_wf(operands@[2]));
    let is_64 = reg_is_64(rt1, span)?;
    let l_bit: u32 = if mnemonic == Mnemonic::Ldp { 1 } else { 0 };
    let opc: u32 = if is_64 { 0b10 } else { 0b00 };
    let access: i64 = if is_64 { 8 } else { 4 };
    match &operands[2] {
        Operand::Memory(mem) => {
            let (rn, offset_expr, addr_type): (u8, &Expr, u32) = match mem {
                MemoryOperand::Base { reg } => (reg.encoding(), &Expr::Literal(0), 0b10),
                MemoryOperand::BaseOffset { reg, offset } => (reg.encoding(), offset, 0b10),
                MemoryOperand::PreIndex { reg, offset } => (reg.encoding(), offset, 0b11),
                MemoryOperand::PostIndex { reg, offset } => (reg.encoding(), offset, 0b01),
                _ => {
                    return Err(invalid_operand("LDP/STP requires base+offset addressing", span));
                },
            };
            let offset = match offset_expr.as_literal() {
                Some(v) => v,
                None => 0,
            };
            if offset % access != 0 {
                let mut detail = String::new();
                push_str(&mut detail, "LDP/STP offset must be a multiple of ");
                push_decimal(&mut detail, access as u64);
                return Err(AsmError::InvalidOperand { detail, span });
            }
            let scaled = offset / access;
            if scaled < -64 || scaled > 63 {
                return Err(AsmError::ImmediateOutOfRange { value: offset, span });
            }
            proof { lemma_field_limits(); }
            let imm7 = truncate_imm(scaled, 7);
            let mut inst: u32 = 0x2800_0000;
            inst = set_field(inst, 31, 30, opc);
            inst = set_field(inst, 24, 23, addr_type);
            inst = set_field(inst, 22, 22, l_bit);
            inst = set_field(inst, 21, 15, imm7);
            inst = set_rt2(inst, rt2.encoding());
            inst = set_rn(inst, rn);
            inst = set_rt(inst, rt1.encoding());
            let rt2n = rt2.encoding() as u32;
            let rnn = rn as u32;
            let rt1n = rt1.encoding() as u32;
            assert(spec_set_field(spec_set_field(spec_set_field(spec_set_field(spec_set_field(spec_set_field(spec_set_field(
                0x2800_0000u32, 31, 30, opc), 24, 23, addr_type), 22, 22, l_bit), 21, 15, imm7), 14, 10, rt2n), 9, 5, rnn), 4, 0, rt1n)
                == ldp_stp_word(opc, addr_type, l_bit, imm7, rt2n, rnn, rt1n)) by (bit_vector)
                requires opc < 4, addr_type < 4, l_bit < 2, imm7 < 128, rt2n < 32, rnn < 32, rt1n < 32;
            Ok(EncodedInst::new(inst))
        },
        _ => Err(invalid_operand("expected memory operand", span)),
    }
}

} // verus!
