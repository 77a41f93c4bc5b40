//! Pass 2: encode instructions, emit data, resolve branches, emit relocations.

use vstd::prelude::*;
use vstd::utf8::encode_utf8;
use crate::text::{chars_eq, push_str, str_chars};
use crate::types::directive::Directive;
use crate::types::error::{AsmError, ErrorView, owned};
use crate::types::expr::{Expr, spec_as_literal};
use crate::types::instruction::Instruction;
use crate::types::reloc::{PendingRelocation, RelocKind, RelocView};
use crate::types::span::Span;
use crate::types::statement::Statement;
use crate::encode::EncodedView;
use crate::encode::common::enc_view;
use crate::encode::dp_imm::operands_wf;
use crate::encode::encode::{encode, spec_encode};
use crate::macho::builder::{
    emit_failure, is_pow2, le_bytes, lemma_shl_pow2, lemma_small_pow2, padded_len, spec_add_relocation, spec_define, spec_emit, spec_get_or_create, spec_set_global,
    ObjectBuilder, ObjectView,
};
use crate::pipeline::context::{AssemblyContext, ContextView, SectionKey};
use crate::macho::SectionIndex;

verus! {

/// NOP encoding (used as placeholder on encoding errors).
pub const NOP: u32 = 0xD503201F;

/// Every instruction's registers are well formed.
pub open spec fn statements_wf(stmts: Seq<Statement>) -> bool {
    forall|i: int| 0 <= i < stmts.len() ==> (#[trigger] stmts[i] matches Statement::Instruction(inst) ==> operands_wf(inst.operands@))
}

/// The state of pass 2: the object being built, the errors so far, and the current section.
pub struct Pass2State {
    pub obj: ObjectView,
    pub errors: Seq<ErrorView>,
    pub current: SectionKey,
}

/// The distance from the instruction to the target, plus the addend (modulo 2^64).
pub open spec fn pc_offset(target: u64, inst_offset: u64, addend: i64) -> i64 {
    ((target as i64) as int - (inst_offset as i64) as int + addend as int) as i64
}

/// Whether the symbol is defined in the given section.
pub open spec fn same_section(ctx: ContextView, symbol: Seq<char>, cur: SectionKey) -> bool {
    ctx.symbols.contains_key(symbol) && ctx.symbols[symbol].section == cur
}

/// `bits` with the 26-bit branch field holding `pc / 4`.
pub open spec fn patch_branch26(bits: u32, pc: i64) -> u32 {
    (bits & !0x03FF_FFFFu32) | (((pc >> 2) as u32) & 0x03FF_FFFF)
}

/// `bits` with the 19-bit field at bit 5 holding `pc / 4`.
pub open spec fn patch_pcrel19(bits: u32, pc: i64) -> u32 {
    (bits & !0x00FF_FFE0u32) | ((((pc >> 2) as u32) & 0x7FFFF) << 5)
}

/// `bits` with ADR's immlo (bits 30:29) and immhi (bits 23:5) holding `pc`.
pub open spec fn patch_adr21(bits: u32, pc: i64) -> u32 {
    (bits & !((3u32 << 29) | (0x7FFFFu32 << 5))) | (((pc as u32) & 3) << 29) | ((((pc as u32) >> 2) & 0x7FFFF) << 5)
}

/// The byte distance a word's 26-bit branch field holds: the field sign-extended, times four.
pub open spec fn branch26_distance(word: u32) -> int {
    let f = word & 0x03FF_FFFF;
    if f >= 0x200_0000 { (f - 0x400_0000) * 4 } else { f * 4 }
}

/// The byte distance a word's 19-bit field at bit 5 holds: the field sign-extended, times four.
pub open spec fn pcrel19_distance(word: u32) -> int {
    let f = (word >> 5) & 0x7FFFF;
    if f >= 0x4_0000 { (f - 0x8_0000) * 4 } else { f * 4 }
}

/// The byte distance ADR's immhi:immlo fields hold, sign-extended.
pub open spec fn adr21_distance(word: u32) -> int {
    let f = ((((word >> 5) & 0x7FFFF) << 2) | ((word >> 29) & 3)) as int;
    if f >= 0x10_0000 { f - 0x20_0000 } else { f }
}

/// A branch patched with an in-range, word-aligned distance holds that distance, and keeps
/// every bit outside its 26-bit field.
pub proof fn law_branch26_patch(bits: u32, pc: i64)
    by (bit_vector)
    requires
        -0x800_0000 <= pc < 0x800_0000,
        pc & 3 == 0,
    ensures
        branch26_distance(patch_branch26(bits, pc)) == pc,
        patch_branch26(bits, pc) & !0x03FF_FFFFu32 == bits & !0x03FF_FFFFu32,
{
}

/// A conditional branch or CBZ/CBNZ patched with an in-range, word-aligned distance holds that
/// distance, and keeps every bit outside its 19-bit field.
pub proof fn law_pcrel19_patch(bits: u32, pc: i64)
    by (bit_vector)
    requires
        -0x10_0000 <= pc < 0x10_0000,
        pc & 3 == 0,
    ensures
        pcrel19_distance(patch_pcrel19(bits, pc)) == pc,
        patch_pcrel19(bits, pc) & !0x00FF_FFE0u32 == bits & !0x00FF_FFE0u32,
{
}

/// An ADR patched with an in-range distance holds that distance, and keeps every bit outside
/// its immediate fields.
pub proof fn law_adr21_patch(bits: u32, pc: i64)
    by (bit_vector)
    requires
        -0x10_0000 <= pc < 0x10_0000,
    ensures
        adr21_distance(patch_adr21(bits, pc)) == pc,
        patch_adr21(bits, pc) & !((3u32 << 29) | (0x7FFFFu32 << 5)) == bits & !((3u32 << 29) | (0x7FFFFu32 << 5)),
{
}

/// Resolving a relocation: the instruction bits, the relocation left for the linker, and the
/// error, if any. A PC-relative reference to its own section is patched in place when in range;
/// one to another section or to an undefined symbol, and every page reference, is left to the
/// linker with the bits unchanged.
pub open spec fn spec_resolve(r: RelocView, bits: u32, inst_offset: u64, cur: SectionKey, ctx: ContextView, span: Span)
    -> (u32, Option<RelocView>, Option<ErrorView>)
{
    let same = same_section(ctx, r.symbol, cur);
    let pc = pc_offset(ctx.symbols[r.symbol].offset, inst_offset, r.addend);
    match r.kind {
        RelocKind::Branch26 => if same {
            if !(-0x800_0000 <= pc < 0x800_0000) || pc & 3 != 0 {
                (bits, None, Some(ErrorView::BranchOutOfRange { span }))
            } else {
                (patch_branch26(bits, pc), None, None)
            }
        } else {
            (bits, Some(r), None)
        },
        RelocKind::Pcrel19 => if same {
            if !(-0x10_0000 <= pc < 0x10_0000) || pc & 3 != 0 {
                (bits, None, Some(ErrorView::BranchOutOfRange { span }))
            } else {
                (patch_pcrel19(bits, pc), None, None)
            }
        } else {
            (bits, Some(r), None)
        },
        RelocKind::Adr21 => if same {
            if !(-0x10_0000 <= pc < 0x10_0000) {
                (bits, None, Some(ErrorView::BranchOutOfRange { span }))
            } else {
                (patch_adr21(bits, pc), None, None)
            }
        } else {
            (bits, Some(r), None)
        },
        _ => (bits, Some(r), None),
    }
}

/// The errors with one more, when there is one.
pub open spec fn push_opt(errors: Seq<ErrorView>, e: Option<ErrorView>) -> Seq<ErrorView> {
    match e {
        Some(x) => errors.push(x),
        None => errors,
    }
}

/// The object after an emission, or unchanged when the emission is refused.
pub open spec fn emitted(v: ObjectView, bytes: Seq<u8>, align: u64) -> ObjectView {
    match spec_emit(v, bytes, align) {
        Some((o, _)) => o,
        None => v,
    }
}

/// The state after an emission whose failure is reported at `span`.
pub open spec fn emit_reported(st: Pass2State, bytes: Seq<u8>, align: u64, span: Span) -> Pass2State {
    match spec_emit(st.obj, bytes, align) {
        Some((o, _)) => Pass2State { obj: o, ..st },
        None => Pass2State { errors: st.errors.push(ErrorView::ObjectEmission { detail: emit_failure(st.obj), span }), ..st },
    }
}

/// The state after an encoded instruction: resolve its relocation against the current offset,
/// emit the word, and hand what is left to the linker at the word's offset.
pub open spec fn spec_place_instruction(st: Pass2State, ctx: ContextView, enc: EncodedView, span: Span) -> Pass2State {
    match st.obj.current_section {
        None => st,
        Some(sec) => {
            let off = st.obj.sections[sec.0 as int].data.len() as u64;
            let (bits, linker, err) = match enc.relocation {
                Some(r) => spec_resolve(r, enc.bits, off, st.current, ctx, span),
                None => (enc.bits, None, None),
            };
            let errs1 = push_opt(st.errors, err);
            let (o1, eoff, errs2) = match spec_emit(st.obj, le_bytes(bits as u64, 4), 4) {
                Some((o, e)) => (o, e, errs1),
                None => (st.obj, 0u64, errs1.push(ErrorView::ObjectEmission { detail: emit_failure(st.obj), span })),
            };
            match linker {
                Some(r) => {
                    let (o2, msg) = spec_add_relocation(o1, sec, eoff, r);
                    Pass2State {
                        obj: o2,
                        errors: match msg {
                            Some(m) => errs2.push(ErrorView::ObjectEmission { detail: m, span }),
                            None => errs2,
                        },
                        ..st
                    }
                },
                None => Pass2State { obj: o1, errors: errs2, ..st },
            }
        },
    }
}

/// The state after an instruction; one that fails to encode leaves a NOP in its place.
pub open spec fn spec_pass2_instruction(st: Pass2State, ctx: ContextView, inst: Instruction) -> Pass2State {
    match spec_encode(inst) {
        Ok(enc) => spec_place_instruction(st, ctx, enc, inst.span),
        Err(e) => Pass2State { obj: emitted(st.obj, le_bytes(NOP as u64, 4), 4), errors: st.errors.push(e), ..st },
    }
}

/// The state after a label: define the symbol at the current position, exported when global.
pub open spec fn spec_pass2_label(st: Pass2State, ctx: ContextView, name: Seq<char>) -> Pass2State {
    match st.obj.current_section {
        None => st,
        Some(sec) => {
            let o1 = spec_define(st.obj, name, st.obj.sections[sec.0 as int].data.len() as u64, sec);
            Pass2State { obj: if ctx.globals.contains(name) { spec_set_global(o1, name).0 } else { o1 }, ..st }
        },
    }
}

/// The state after one data value of `size` bytes; a value that is not constant is reported
/// and emitted as zeros.
pub open spec fn spec_emit_value(st: Pass2State, e: Expr, size: nat, span: Span) -> Pass2State {
    match spec_as_literal(e) {
        Some(val) => emit_reported(st, le_bytes(val as u64, size), 1, span),
        None => Pass2State {
            obj: emitted(st.obj, Seq::new(size, |i: int| 0u8), 1),
            errors: st.errors.push(ErrorView::UnresolvedExpression { span }),
            ..st
        },
    }
}

/// The state after a list of data values.
pub open spec fn spec_emit_values(st: Pass2State, es: Seq<Expr>, size: nat, span: Span) -> Pass2State
    decreases es.len(),
{
    if es.len() == 0 {
        st
    } else {
        spec_emit_value(spec_emit_values(st, es.drop_last(), size, span), es.last(), size, span)
    }
}

proof fn lemma_emit_values_current(st: Pass2State, es: Seq<Expr>, size: nat, span: Span)
    ensures
        spec_emit_values(st, es, size, span).current == st.current,
    decreases es.len(),
{
    if es.len() > 0 {
        lemma_emit_values_current(st, es.drop_last(), size, span);
    }
}

/// The state after switching sections.
pub open spec fn spec_pass2_switch(st: Pass2State, key: SectionKey) -> Pass2State {
    let (o, i) = spec_get_or_create(st.obj, key.0, key.1);
    Pass2State { obj: ObjectView { current_section: Some(crate::macho::SectionIndex(i as usize)), ..o }, current: key, ..st }
}

/// The fill byte of `.space`: the fill value's low byte, or 0.
pub open spec fn fill_byte(fill: Option<Expr>) -> u8 {
    match fill {
        Some(f) => match spec_as_literal(f) {
            Some(v) => v as u8,
            None => 0,
        },
        None => 0,
    }
}

/// The state after a directive.
pub open spec fn spec_pass2_directive(st: Pass2State, d: Directive, span: Span) -> Pass2State {
    match d {
        Directive::Text => spec_pass2_switch(st, ("__TEXT"@, "__text"@)),
        Directive::Data => spec_pass2_switch(st, ("__DATA"@, "__data"@)),
        Directive::Section(spec) => spec_pass2_switch(st, (spec.segment@, spec.section@)),
        Directive::Global(name) => Pass2State { obj: spec_set_global(st.obj, name@).0, ..st },
        Directive::Local(_) => st,
        Directive::Align(e) | Directive::P2Align(e) => match spec_as_literal(e) {
            Some(val) => if 0 <= val <= 30 {
                emit_reported(st, Seq::empty(), (1u64 << (val as u64)) as u64, span)
            } else {
                st
            },
            None => st,
        },
        Directive::Byte(es) => spec_emit_values(st, es@, 1, span),
        Directive::Short(es) => spec_emit_values(st, es@, 2, span),
        Directive::Word(es) => spec_emit_values(st, es@, 4, span),
        Directive::Quad(es) => spec_emit_values(st, es@, 8, span),
        Directive::Ascii(s) => emit_reported(st, encode_utf8(s@), 1, span),
        Directive::Asciz(s) => emit_reported(st, encode_utf8(s@).push(0u8), 1, span),
        Directive::Space { size, fill } => match spec_as_literal(size) {
            Some(sz) => if sz > 0 {
                emit_reported(st, Seq::new(sz as nat, |i: int| fill_byte(fill)), 1, span)
            } else {
                st
            },
            None => st,
        },
        Directive::SubsectionsViaSymbols => Pass2State { obj: ObjectView { subsections_via_symbols: true, ..st.obj }, ..st },
        Directive::BuildVersion(bv) => Pass2State {
            obj: ObjectView {
                build_version: Some(crate::macho::builder::BuildVersionFields {
                    platform: crate::macho::builder::platform_code(bv.platform),
                    minos: crate::macho::version::spec_parse_version(bv.min_version@),
                    sdk: 0,
                }),
                ..st.obj
            },
            ..st
        },
    }
}

/// The state after one statement.
pub open spec fn spec_pass2_statement(st: Pass2State, ctx: ContextView, s: Statement) -> Pass2State {
    match s {
        Statement::Label { name, .. } => spec_pass2_label(st, ctx, name@),
        Statement::Instruction(inst) => spec_pass2_instruction(st, ctx, inst),
        Statement::Directive { directive, span } => spec_pass2_directive(st, directive, span),
    }
}

/// The state after a sequence of statements.
pub open spec fn spec_pass2(st: Pass2State, ctx: ContextView, stmts: Seq<Statement>) -> Pass2State
    decreases stmts.len(),
{
    if stmts.len() == 0 {
        st
    } else {
        spec_pass2_statement(spec_pass2(st, ctx, stmts.drop_last()), ctx, stmts.last())
    }
}

/// The state pass 2 starts from, given the object and the errors so far.
pub open spec fn pass2_start(obj: ObjectView, errors: Seq<ErrorView>) -> Pass2State {
    Pass2State { obj, errors, current: ("__TEXT"@, "__text"@) }
}

/// The abstract value of a list of errors.
pub open spec fn errors_view(errors: Seq<AsmError>) -> Seq<ErrorView> {
    errors.map_values(|e: AsmError| e@)
}

/// The invariant pass 2 keeps: a well-formed object with a current section.
pub open spec fn builder_ready(v: ObjectView) -> bool {
    v.wf() && v.current_section is Some
}

fn push_error(errors: &mut Vec<AsmError>, e: AsmError)
    ensures
        errors_view(final(errors)@) == errors_view(old(errors)@).push(e@),
{
    errors.push(e);
    assert(errors_view(errors@) =~= errors_view(old(errors)@).push(e@));
}

/// Pass 2: encode instructions, emit data, resolve branches, emit relocations.
pub fn pass2(statements: &[Statement], ctx: &AssemblyContext, builder: &mut ObjectBuilder, errors: &mut Vec<AsmError>)
    requires
        ctx.wf(),
        builder_ready(old(builder)@),
        statements_wf(statements@),
    ensures
        builder_ready(final(builder)@),
        ({
            let st = spec_pass2(pass2_start(old(builder)@, errors_view(old(errors)@)), ctx@, statements@);
            final(builder)@ == st.obj && errors_view(final(errors)@) == st.errors
        }),
{
    let mut current_section: (String, String) = (owned("__TEXT"), owned("__text"));
    let mut i: usize = 0;
    while i < statements.len()
        invariant
            i <= statements@.len(),
            ctx.wf(),
            statements_wf(statements@),
            builder_ready(builder@),
            ({
                let st = spec_pass2(pass2_start(old(builder)@, errors_view(old(errors)@)), ctx@, statements@.take(i as int));
                builder@ == st.obj && errors_view(errors@) == st.errors
                    && (current_section.0@, current_section.1@) == st.current
            }),
        decreases statements.len() - i,
    {
        assert(statements@.take(i + 1).drop_last() == statements@.take(i as int));
        match &statements[i] {
            Statement::Label { name, span: _ } => {
                place_label(name.as_str(), ctx, builder);
            },
            Statement::Instruction(inst) => {
                assert(operands_wf(inst.operands@)) by {
                    assert(statements@[i as int] matches Statement::Instruction(x) ==> operands_wf(x.operands@));
                }
                place_instruction(inst, &current_section, ctx, builder, errors);
            },
            Statement::Directive { directive, span } => {
                handle_directive(directive, *span, &mut current_section, builder, errors);
            },
        }
        i += 1;
    }
    assert(statements@.take(statements.len() as int) == statements@);
}

fn place_label(name: &str, ctx: &AssemblyContext, builder: &mut ObjectBuilder)
    requires
        ctx.wf(),
        builder_ready(old(builder)@),
    ensures
        builder_ready(final(builder)@),
        final(builder)@ == spec_pass2_label(pass2_start(old(builder)@, Seq::empty()), ctx@, name@).obj,
{
    let section = match builder.current_section() {
        Some(s) => s,
        None => {
            return;
        },
    };
    let offset = builder.section_offset(section);
    let _ = builder.define_symbol(name, offset, section);
    if ctx.is_global(name) {
        builder.set_global(name);
    }
}

fn place_instruction(
    inst: &Instruction,
    current_section: &(String, String),
    ctx: &AssemblyContext,
    builder: &mut ObjectBuilder,
    errors: &mut Vec<AsmError>,
)
    requires
        ctx.wf(),
        builder_ready(old(builder)@),
        operands_wf(inst.operands@),
    ensures
        builder_ready(final(builder)@),
        ({
            let st = spec_pass2_instruction(
                Pass2State { obj: old(builder)@, errors: errors_view(old(errors)@), current: (current_section.0@, current_section.1@) },
                ctx@, *inst);
            final(builder)@ == st.obj && errors_view(final(errors)@) == st.errors
        }),
{
    match encode(inst) {
        Ok(encoded) => {
            let section = match builder.current_section() {
                Some(s) => s,
                None => {
                    return;
                },
            };
            let offset = builder.section_offset(section);
            let (final_bits, linker_reloc) = match &encoded.relocation {
                Some(reloc) => resolve_relocation(reloc, encoded.bits, offset, current_section, ctx, inst.span, errors),
                None => (encoded.bits, None),
            };
            let emit_offset = match builder.emit_instruction(final_bits) {
                Ok(o) => o,
                Err(e) => {
                    push_error(errors, AsmError::ObjectEmission { detail: e.to_string(), span: inst.span });
                    0
                },
            };
            match linker_reloc {
                Some(reloc) => {
                    match builder.add_relocation(section, emit_offset, &reloc) {
                        Ok(()) => {},
                        Err(e) => {
                            push_error(errors, AsmError::ObjectEmission { detail: e.to_string(), span: inst.span });
                        },
                    }
                },
                None => {},
            }
        },
        Err(e) => {
            push_error(errors, e);
            let _ = builder.emit_instruction(NOP);
        },
    }
}

/// Whether a symbol is defined in the given section.
fn in_section(ctx: &AssemblyContext, symbol: &str, current_section: &(String, String)) -> (r: Option<u64>)
    requires
        ctx.wf(),
    ensures
        match r {
            Some(off) => same_section(ctx@, symbol@, (current_section.0@, current_section.1@)) && off == ctx@.symbols[symbol@].offset,
            None => !same_section(ctx@, symbol@, (current_section.0@, current_section.1@)),
        },
{
    match ctx.symbol(symbol) {
        Some(info) => {
            let a = str_chars(info.section.0.as_str());
            let b = str_chars(info.section.1.as_str());
            let c = str_chars(current_section.0.as_str());
            let d = str_chars(current_section.1.as_str());
            if chars_eq(&a, &c) && chars_eq(&b, &d) {
                Some(info.offset)
            } else {
                None
            }
        },
        None => None,
    }
}

/// Resolve a relocation: returns (patched_bits, optional linker relocation).
///
/// For same-section Branch26/Pcrel19/Adr21: patches bits directly, returns no linker reloc.
/// For cross-section/external or Page21/PageOff12/Got*: returns the bits unchanged and the relocation for the linker.
pub fn resolve_relocation(
    reloc: &PendingRelocation,
    bits: u32,
    inst_offset: u64,
    current_section: &(String, String),
    ctx: &AssemblyContext,
    span: Span,
    errors: &mut Vec<AsmError>,
) -> (r: (u32, Option<PendingRelocation>))
    requires
        ctx.wf(),
    ensures
        ({
            let (b, l, e) = spec_resolve(reloc@, bits, inst_offset, (current_section.0@, current_section.1@), ctx@, span);
            r.0 == b && errors_view(final(errors)@) == push_opt(errors_view(old(errors)@), e)
                && match r.1 {
                    Some(x) => l == Some(x@),
                    None => l is None,
                }
        }),
{
    let target = in_section(ctx, reloc.symbol.as_str(), current_section);
    let ghost cur = (current_section.0@, current_section.1@);
    match reloc.kind {
        RelocKind::Branch26 => match target {
            Some(sym_offset) => {
                let pc = (sym_offset as i64 as i128 - inst_offset as i64 as i128 + reloc.addend as i128) as i64;
                assert(pc == pc_offset(sym_offset, inst_offset, reloc.addend));
                if !(-0x800_0000 <= pc && pc < 0x800_0000) || pc & 3 != 0 {
                    push_error(errors, AsmError::BranchOutOfRange { span });
                    return (bits, None);
                }
                let imm26 = ((pc >> 2) as u32) & 0x03FF_FFFF;
                ((bits & !0x03FF_FFFF) | imm26, None)
            },
            None => (bits, Some(reloc.copy())),
        },
        RelocKind::Pcrel19 => match target {
            Some(sym_offset) => {
                let pc = (sym_offset as i64 as i128 - inst_offset as i64 as i128 + reloc.addend as i128) as i64;
                assert(pc == pc_offset(sym_offset, inst_offset, reloc.addend));
                if !(-0x10_0000 <= pc && pc < 0x10_0000) || pc & 3 != 0 {
                    push_error(errors, AsmError::BranchOutOfRange { span });
                    return (bits, None);
                }
                let imm19 = ((pc >> 2) as u32) & 0x7FFFF;
                ((bits & !0x00FF_FFE0) | (imm19 << 5), None)
            },
            None => (bits, Some(reloc.copy())),
        },
        RelocKind::Adr21 => match target {
            Some(sym_offset) => {
                let pc = (sym_offset as i64 as i128 - inst_offset as i64 as i128 + reloc.addend as i128) as i64;
                assert(pc == pc_offset(sym_offset, inst_offset, reloc.addend));
                if !(-0x10_0000 <= pc && pc < 0x10_0000) {
                    push_error(errors, AsmError::BranchOutOfRange { span });
                    return (bits, None);
                }
                let imm = pc as u32;
                let immlo = imm & 0x3;
                let immhi = (imm >> 2) & 0x7FFFF;
                let mask: u32 = (0x3 << 29) | (0x7FFFF << 5);
                ((bits & !mask) | (immlo << 29) | (immhi << 5), None)
            },
            None => (bits, Some(reloc.copy())),
        },
        _ => (bits, Some(reloc.copy())),
    }
}

fn switch_to(
    segment: &str,
    section: &str,
    current_section: &mut (String, String),
    builder: &mut ObjectBuilder,
)
    requires
        builder_ready(old(builder)@),
    ensures
        builder_ready(final(builder)@),
        ({
            let st = spec_pass2_switch(
                Pass2State { obj: old(builder)@, errors: Seq::empty(), current: (old(current_section).0@, old(current_section).1@) },
                (segment@, section@));
            final(builder)@ == st.obj && (final(current_section).0@, final(current_section).1@) == st.current
        }),
{
    builder.switch_section(segment, section);
    *current_section = (owned(segment), owned(section));
}

fn emit_reporting(data: &[u8], align: u64, span: Span, current_section: &(String, String), builder: &mut ObjectBuilder, errors: &mut Vec<AsmError>)
    requires
        builder_ready(old(builder)@),
        is_pow2(align),
    ensures
        builder_ready(final(builder)@),
        ({
            let st = emit_reported(Pass2State { obj: old(builder)@, errors: errors_view(old(errors)@), current: (current_section.0@, current_section.1@) },
                data@, align, span);
            final(builder)@ == st.obj && errors_view(final(errors)@) == st.errors
        }),
{
    match builder.emit_data(data, align) {
        Ok(_) => {},
        Err(e) => push_error(errors, AsmError::ObjectEmission { detail: e.to_string(), span }),
    }
}

fn handle_directive(
    directive: &Directive,
    span: Span,
    current_section: &mut (String, String),
    builder: &mut ObjectBuilder,
    errors: &mut Vec<AsmError>,
)
    requires
        builder_ready(old(builder)@),
    ensures
        builder_ready(final(builder)@),
        ({
            let st = spec_pass2_directive(
                Pass2State { obj: old(builder)@, errors: errors_view(old(errors)@), current: (old(current_section).0@, old(current_section).1@) },
                *directive, span);
            final(builder)@ == st.obj && errors_view(final(errors)@) == st.errors
                && (final(current_section).0@, final(current_section).1@) == st.current
        }),
{
    match directive {
        Directive::Text => switch_to("__TEXT", "__text", current_section, builder),
        Directive::Data => switch_to("__DATA", "__data", current_section, builder),
        Directive::Section(spec) => switch_to(spec.segment.as_str(), spec.section.as_str(), current_section, builder),
        Directive::Global(name) => {
            builder.set_global(name.as_str());
        },
        Directive::Local(_) => {},
        Directive::Align(expr) | Directive::P2Align(expr) => {
            match expr.as_literal() {
                Some(val) => {
                    if 0 <= val && val <= 30 {
                        let alignment = 1u64 << (val as u64);
                        proof { lemma_shl_pow2(val as u64); }
                        match builder.emit_align(alignment) {
                            Ok(()) => {},
                            Err(e) => push_error(errors, AsmError::ObjectEmission { detail: e.to_string(), span }),
                        }
                    }
                },
                None => {},
            }
        },
        Directive::Byte(exprs) => {
            proof {
                lemma_emit_values_current(
                    Pass2State { obj: builder@, errors: errors_view(errors@), current: (current_section.0@, current_section.1@) },
                    exprs@, 1, span);
            }
            emit_data_exprs(exprs.as_slice(), 1, span, current_section, builder, errors);
        },
        Directive::Short(exprs) => {
            proof {
                lemma_emit_values_current(
                    Pass2State { obj: builder@, errors: errors_view(errors@), current: (current_section.0@, current_section.1@) },
                    exprs@, 2, span);
            }
            emit_data_exprs(exprs.as_slice(), 2, span, current_section, builder, errors);
        },
        Directive::Word(exprs) => {
            proof {
                lemma_emit_values_current(
                    Pass2State { obj: builder@, errors: errors_view(errors@), current: (current_section.0@, current_section.1@) },
                    exprs@, 4, span);
            }
            emit_data_exprs(exprs.as_slice(), 4, span, current_section, builder, errors);
        },
        Directive::Quad(exprs) => {
            proof {
                lemma_emit_values_current(
                    Pass2State { obj: builder@, errors: errors_view(errors@), current: (current_section.0@, current_section.1@) },
                    exprs@, 8, span);
            }
            emit_data_exprs(exprs.as_slice(), 8, span, current_section, builder, errors);
        },
        Directive::Ascii(s) => {
            proof { lemma_small_pow2(); }
            emit_reporting(s.as_str().as_bytes(), 1, span, current_section, builder, errors);
        },
        Directive::Asciz(s) => {
            let mut bytes: Vec<u8> = Vec::new();
            let src = s.as_str().as_bytes();
            let mut k: usize = 0;
            while k < src.len()
                invariant
                    k <= src@.len(),
                    bytes@ == src@.take(k as int),
                decreases src.len() - k,
            {
                bytes.push(src[k]);
                assert(bytes@ =~= src@.take(k + 1));
                k += 1;
            }
            bytes.push(0);
            assert(bytes@ =~= encode_utf8(s@).push(0u8));
            proof { lemma_small_pow2(); }
            emit_reporting(bytes.as_slice(), 1, span, current_section, builder, errors);
        },
        Directive::Space { size, fill } => {
            match size.as_literal() {
                Some(sz) => {
                    if sz > 0 {
                        let fill_value: u8 = match fill {
                            Some(f) => match f.as_literal() {
                                Some(v) => v as u8,
                                None => 0,
                            },
                            None => 0,
                        };
                        let mut data: Vec<u8> = Vec::new();
                        let count = sz as u64;
                        let mut k: u64 = 0;
                        while k < count
                            invariant
                                k <= count,
                                data@ == Seq::new(k as nat, |i: int| fill_value),
                            decreases count - k,
                        {
                            data.push(fill_value);
                            assert(data@ =~= Seq::new((k + 1) as nat, |i: int| fill_value));
                            k += 1;
                        }
                        proof { lemma_small_pow2(); }
                        assert(fill_value == fill_byte(*fill));
                        assert(data@ =~= Seq::new(sz as nat, |i: int| fill_byte(*fill)));
                        emit_reporting(data.as_slice(), 1, span, current_section, builder, errors);
                    }
                },
                None => {},
            }
        },
        Directive::SubsectionsViaSymbols => {
            builder.set_subsections_via_symbols();
        },
        Directive::BuildVersion(bv) => {
            builder.set_build_version(bv);
        },
    }
}

fn emit_data_exprs(exprs: &[Expr], size: usize, span: Span, current_section: &(String, String), builder: &mut ObjectBuilder, errors: &mut Vec<AsmError>)
    requires
        builder_ready(old(builder)@),
        size == 1 || size == 2 || size == 4 || size == 8,
    ensures
        builder_ready(final(builder)@),
        ({
            let st = spec_emit_values(Pass2State { obj: old(builder)@, errors: errors_view(old(errors)@), current: (current_section.0@, current_section.1@) },
                exprs@, size as nat, span);
            final(builder)@ == st.obj && errors_view(final(errors)@) == st.errors
        }),
{
    let ghost start = Pass2State { obj: builder@, errors: errors_view(errors@), current: (current_section.0@, current_section.1@) };
    let mut i: usize = 0;
    proof { lemma_small_pow2(); }
    while i < exprs.len()
        invariant
            i <= exprs@.len(),
            size == 1 || size == 2 || size == 4 || size == 8,
            builder_ready(builder@),
            ({
                let st = spec_emit_values(start, exprs@.take(i as int), size as nat, span);
                builder@ == st.obj && errors_view(errors@) == st.errors
            }),
        decreases exprs.len() - i,
    {
        assert(exprs@.take(i + 1).drop_last() == exprs@.take(i as int));
        match exprs[i].as_literal() {
            Some(val) => {
                let v = val as u64;
                let mut buf: Vec<u8> = Vec::new();
                let mut k: usize = 0;
                while k < size
                    invariant
                        k <= size,
                        size <= 8,
                        buf@ == le_bytes(v, k as nat),
                    decreases size - k,
                {
                    let shift: u64 = 8 * (k as u64);
                    buf.push(((v >> shift) & 0xFF) as u8);
                    assert(buf@ =~= le_bytes(v, (k + 1) as nat));
                    k += 1;
                }
                assert(buf@ =~= le_bytes(val as u64, size as nat));
                proof { lemma_small_pow2(); }
                emit_reporting(buf.as_slice(), 1, span, current_section, builder, errors);
            },
            None => {
                push_error(errors, AsmError::UnresolvedExpression { span });
                let mut buf: Vec<u8> = Vec::new();
                let mut k: usize = 0;
                while k < size
                    invariant
                        k <= size,
                        buf@ == Seq::new(k as nat, |j: int| 0u8),
                    decreases size - k,
                {
                    buf.push(0);
                    assert(buf@ =~= Seq::new((k + 1) as nat, |j: int| 0u8));
                    k += 1;
                }
                proof { lemma_small_pow2(); }
                let _ = builder.emit_data(buf.as_slice(), 1);
            },
        }
        i += 1;
    }
    assert(exprs@.take(exprs.len() as int) == exprs@);
}

/// A page reference, and a reference to an undefined symbol or to a symbol of another
/// section, is left to the linker: the bits come back unchanged with the relocation, and no
/// error is reported.
pub proof fn law_linker_relocations(r: RelocView, bits: u32, inst_offset: u64, cur: SectionKey, ctx: ContextView, span: Span)
    requires
        r.kind == RelocKind::Page21 || r.kind == RelocKind::PageOff12 || r.kind == RelocKind::GotLoadPage21
            || r.kind == RelocKind::GotLoadPageOff12 || !same_section(ctx, r.symbol, cur),
    ensures
        spec_resolve(r, bits, inst_offset, cur, ctx, span) == (bits, Some(r), None::<ErrorView>),
{
}

/// A 26-bit branch (B, BL) to a symbol of its own section, forward or backward, is patched in
/// place: when the distance is in range and word-aligned the word holds that distance and
/// keeps every other bit; otherwise it is reported as out of range. Either way nothing is left
/// to the linker.
pub proof fn law_branch26_same_section(r: RelocView, bits: u32, inst_offset: u64, cur: SectionKey, ctx: ContextView, span: Span)
    requires
        r.kind == RelocKind::Branch26,
        same_section(ctx, r.symbol, cur),
    ensures
        ({
            let pc = pc_offset(ctx.symbols[r.symbol].offset, inst_offset, r.addend);
            let (b, linker, err) = spec_resolve(r, bits, inst_offset, cur, ctx, span);
            &&& linker is None
            &&& (-0x800_0000 <= pc < 0x800_0000 && pc & 3 == 0) ==> {
                &&& err is None
                &&& branch26_distance(b) == pc
                &&& b & !0x03FF_FFFFu32 == bits & !0x03FF_FFFFu32
            }
            &&& !(-0x800_0000 <= pc < 0x800_0000 && pc & 3 == 0) ==> (b == bits && err == Some(ErrorView::BranchOutOfRange { span }))
        }),
{
    let pc = pc_offset(ctx.symbols[r.symbol].offset, inst_offset, r.addend);
    if -0x800_0000 <= pc < 0x800_0000 && pc & 3 == 0 {
        law_branch26_patch(bits, pc);
    }
}

/// An ADR to a symbol of its own section, forward or backward, is patched in place: when the
/// distance is in range the word holds it and keeps every other bit; otherwise it is reported
/// as out of range. Either way nothing is left to the linker.
pub proof fn law_adr21_same_section(r: RelocView, bits: u32, inst_offset: u64, cur: SectionKey, ctx: ContextView, span: Span)
    requires
        r.kind == RelocKind::Adr21,
        same_section(ctx, r.symbol, cur),
    ensures
        ({
            let pc = pc_offset(ctx.symbols[r.symbol].offset, inst_offset, r.addend);
            let (b, linker, err) = spec_resolve(r, bits, inst_offset, cur, ctx, span);
            &&& linker is None
            &&& (-0x10_0000 <= pc < 0x10_0000) ==> {
                &&& err is None
                &&& adr21_distance(b) == pc
                &&& b & !((3u32 << 29) | (0x7FFFFu32 << 5)) == bits & !((3u32 << 29) | (0x7FFFFu32 << 5))
            }
            &&& !(-0x10_0000 <= pc < 0x10_0000) ==> (b == bits && err == Some(ErrorView::BranchOutOfRange { span }))
        }),
{
    let pc = pc_offset(ctx.symbols[r.symbol].offset, inst_offset, r.addend);
    if -0x10_0000 <= pc < 0x10_0000 {
        law_adr21_patch(bits, pc);
    }
}

/// An instruction that fails to encode is reported, and a NOP takes its four bytes in the
/// current section, so that later offsets stay where pass 1 put them.
pub proof fn law_encoding_error_placeholder(st: Pass2State, ctx: ContextView, inst: Instruction, sec: SectionIndex)
    requires
        spec_encode(inst) is Err,
        st.obj.current_section == Some(sec),
        sec.0 < st.obj.sections.len(),
        st.obj.sections[sec.0 as int].data.len() % 4 == 0,
        st.obj.sections[sec.0 as int].data.len() + 4 <= u64::MAX,
    ensures
        spec_pass2_instruction(st, ctx, inst).errors == st.errors.push(spec_encode(inst)->Err_0),
        spec_pass2_instruction(st, ctx, inst).obj.sections[sec.0 as int].data
            == st.obj.sections[sec.0 as int].data + le_bytes(NOP as u64, 4),
        spec_pass2_instruction(st, ctx, inst).obj.sections.len() == st.obj.sections.len(),
        forall|j: int| 0 <= j < st.obj.sections.len() && j != sec.0 ==>
            #[trigger] spec_pass2_instruction(st, ctx, inst).obj.sections[j] == st.obj.sections[j],
{
    let s0 = st.obj.sections[sec.0 as int];
    assert(padded_len(s0.data.len() as int, 4) == s0.data.len());
    assert(s0.data + Seq::new(0nat, |i: int| 0u8) + le_bytes(NOP as u64, 4) =~= s0.data + le_bytes(NOP as u64, 4));
}

/// A 19-bit PC-relative reference (B.cond, CBZ/CBNZ, LDR literal) to a symbol of its own
/// section, forward or backward, is patched in place: when the distance is in range and
/// word-aligned the word holds that distance and keeps every other bit; otherwise it is
/// reported as out of range. Either way nothing is left to the linker.
pub proof fn law_pcrel19_same_section(r: RelocView, bits: u32, inst_offset: u64, cur: SectionKey, ctx: ContextView, span: Span)
    requires
        r.kind == RelocKind::Pcrel19,
        same_section(ctx, r.symbol, cur),
    ensures
        ({
            let pc = pc_offset(ctx.symbols[r.symbol].offset, inst_offset, r.addend);
            let (b, linker, err) = spec_resolve(r, bits, inst_offset, cur, ctx, span);
            &&& linker is None
            &&& (-0x10_0000 <= pc < 0x10_0000 && pc & 3 == 0) ==> {
                &&& err is None
                &&& pcrel19_distance(b) == pc
                &&& b & !0x00FF_FFE0u32 == bits & !0x00FF_FFE0u32
            }
            &&& !(-0x10_0000 <= pc < 0x10_0000 && pc & 3 == 0) ==> (b == bits && err == Some(ErrorView::BranchOutOfRange { span }))
        }),
{
    let pc = pc_offset(ctx.symbols[r.symbol].offset, inst_offset, r.addend);
    if -0x10_0000 <= pc < 0x10_0000 && pc & 3 == 0 {
        law_pcrel19_patch(bits, pc);
    }
}

/// `.ascii` appends exactly the UTF-8 bytes of its string to the current section, and `.asciz`
/// the same bytes and one NUL after them; neither reports anything when the section has room.
pub proof fn law_ascii_bytes(st: Pass2State, s: String, span: Span, sec: SectionIndex)
    requires
        st.obj.current_section == Some(sec),
        sec.0 < st.obj.sections.len(),
        st.obj.sections[sec.0 as int].data.len() + encode_utf8(s@).len() + 1 <= u64::MAX,
    ensures
        spec_pass2_directive(st, Directive::Ascii(s), span).obj.sections[sec.0 as int].data
            == st.obj.sections[sec.0 as int].data + encode_utf8(s@),
        spec_pass2_directive(st, Directive::Asciz(s), span).obj.sections[sec.0 as int].data
            == st.obj.sections[sec.0 as int].data + encode_utf8(s@) + seq![0u8],
        spec_pass2_directive(st, Directive::Ascii(s), span).errors == st.errors,
        spec_pass2_directive(st, Directive::Asciz(s), span).errors == st.errors,
{
    let d = st.obj.sections[sec.0 as int].data;
    let b = encode_utf8(s@);
    assert(d.len() as int % 1 == 0);
    assert(padded_len(d.len() as int, 1) == d.len());
    assert(d + Seq::new(0nat, |i: int| 0u8) + b =~= d + b);
    assert(d + Seq::new(0nat, |i: int| 0u8) + b.push(0u8) =~= d + b + seq![0u8]);
}

} // verus!
