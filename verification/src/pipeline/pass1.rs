//! Pass 1: collect symbols and compute section sizes.

use vstd::prelude::*;
use vstd::utf8::encode_utf8;
use crate::types::directive::Directive;
use crate::types::error::{AsmError, ErrorView};
use crate::types::expr::{spec_as_literal, Expr};
use crate::types::span::Span;
use crate::macho::builder::lemma_shl_pow2;
use crate::pipeline::layout::law_align_rounds_up;
use crate::types::statement::Statement;
use crate::pipeline::context::{
    spec_advance, spec_align_to, spec_define_symbol, spec_mark_global, spec_push_error, spec_switch_section,
    aligned_offset, spec_current_offset, AssemblyContext, ContextView,
};

verus! {

/// The UTF-8 length of a string.
pub open spec fn utf8_len(s: Seq<char>) -> nat {
    encode_utf8(s).len()
}

/// The context after one directive.
pub open spec fn spec_pass1_directive(v: ContextView, d: Directive, span: Span) -> ContextView {
    match d {
        Directive::Text => spec_switch_section(v, ("__TEXT"@, "__text"@)),
        Directive::Data => spec_switch_section(v, ("__DATA"@, "__data"@)),
        Directive::Section(spec) => spec_switch_section(v, (spec.segment@, spec.section@)),
        Directive::Global(name) => spec_mark_global(v, name@),
        Directive::Local(_) => v,
        Directive::Align(e) | Directive::P2Align(e) => match spec_as_literal(e) {
            Some(val) => if 0 <= val <= 30 {
                spec_align_to(v, (1u64 << (val as u64)) as u64)
            } else {
                spec_push_error(v, ErrorView::InvalidAlignment { span })
            },
            None => spec_push_error(v, ErrorView::UnresolvedExpression { span }),
        },
        Directive::Byte(es) => spec_advance(v, es@.len() as u64),
        Directive::Short(es) => spec_advance(v, (es@.len() * 2) as u64),
        Directive::Word(es) => spec_advance(v, (es@.len() * 4) as u64),
        Directive::Quad(es) => spec_advance(v, (es@.len() * 8) as u64),
        Directive::Ascii(s) => spec_advance(v, utf8_len(s@) as usize as u64),
        Directive::Asciz(s) => spec_advance(v, (utf8_len(s@) as usize + 1) as u64),
        Directive::Space { size, fill } => match spec_as_literal(size) {
            Some(val) => if val >= 0 { spec_advance(v, val as u64) } else { v },
            None => spec_push_error(v, ErrorView::UnresolvedExpression { span }),
        },
        Directive::SubsectionsViaSymbols => v,
        Directive::BuildVersion(_) => v,
    }
}

/// The context after one statement: a label is defined, an instruction takes 4 bytes.
pub open spec fn spec_pass1_statement(v: ContextView, s: Statement) -> ContextView {
    match s {
        Statement::Label { name, span } => spec_define_symbol(v, name@, span),
        Statement::Instruction(_) => spec_advance(v, 4),
        Statement::Directive { directive, span } => spec_pass1_directive(v, directive, span),
    }
}

/// The context after a sequence of statements.
pub open spec fn spec_pass1(v: ContextView, stmts: Seq<Statement>) -> ContextView
    decreases stmts.len(),
{
    if stmts.len() == 0 {
        v
    } else {
        spec_pass1_statement(spec_pass1(v, stmts.drop_last()), stmts.last())
    }
}

/// Pass 1: walk statements to collect symbols and compute section sizes.
pub fn pass1(statements: &[Statement], ctx: &mut AssemblyContext)
    requires
        old(ctx).wf(),
    ensures
        final(ctx).wf(),
        final(ctx)@ == spec_pass1(old(ctx)@, statements@),
{
    let mut i: usize = 0;
    while i < statements.len()
        invariant
            i <= statements@.len(),
            ctx.wf(),
            ctx@ == spec_pass1(old(ctx)@, statements@.take(i as int)),
        decreases statements.len() - i,
    {
        assert(statements@.take(i + 1).drop_last() == statements@.take(i as int));
        match &statements[i] {
            Statement::Label { name, span } => ctx.define_symbol(name.as_str(), *span),
            Statement::Instruction(_) => ctx.advance(4),
            Statement::Directive { directive, span } => handle_directive(directive, *span, ctx),
        }
        i += 1;
    }
    assert(statements@.take(statements.len() as int) == statements@);
}

/// Pass 1 for one directive: switch sections, mark globals, align, or advance the offset by
/// the size of the data.
pub fn handle_directive(directive: &Directive, span: Span, ctx: &mut AssemblyContext)
    requires
        old(ctx).wf(),
    ensures
        final(ctx).wf(),
        final(ctx)@ == spec_pass1_directive(old(ctx)@, *directive, span),
{
    match directive {
        Directive::Text => {
            ctx.switch_section("__TEXT", "__text");
        },
        Directive::Data => {
            ctx.switch_section("__DATA", "__data");
        },
        Directive::Section(spec) => {
            ctx.switch_section(spec.segment.as_str(), spec.section.as_str());
        },
        Directive::Global(name) => {
            ctx.mark_global(name.as_str());
        },
        Directive::Local(_) => {},
        Directive::Align(expr) | Directive::P2Align(expr) => {
            match expr.as_literal() {
                Some(val) => {
                    if !(0 <= val && val <= 30) {
                        ctx.push_error(AsmError::InvalidAlignment { span });
                    } else {
                        let alignment = 1u64 << (val as u64);
                        proof { lemma_shl_pow2(val as u64); }
                        ctx.align_to(alignment);
                    }
                },
                None => ctx.push_error(AsmError::UnresolvedExpression { span }),
            }
        },
        Directive::Byte(exprs) => { ctx.advance(exprs.len() as u64); },
        Directive::Short(exprs) => { ctx.advance(((exprs.len() as u128) * 2) as u64); },
        Directive::Word(exprs) => { ctx.advance(((exprs.len() as u128) * 4) as u64); },
        Directive::Quad(exprs) => { ctx.advance(((exprs.len() as u128) * 8) as u64); },
        Directive::Ascii(s) => { ctx.advance(s.as_str().len() as u64); },
        Directive::Asciz(s) => { ctx.advance(((s.as_str().len() as u128) + 1) as u64); },
        Directive::Space { size, fill: _ } => {
            match size.as_literal() {
                Some(val) => {
                    if val >= 0 {
                        ctx.advance(val as u64);
                    }
                },
                None => ctx.push_error(AsmError::UnresolvedExpression { span }),
            }
        },
        Directive::SubsectionsViaSymbols | Directive::BuildVersion(_) => { },
    }
}

/// An alignment directive with a constant power 0 to 30 rounds the current offset up to the
/// least multiple of 2^power at or above it (when that fits in 64 bits) and reports nothing; a
/// constant outside 0 to 30 is reported as an invalid alignment, and an expression that is not
/// constant as unresolved, with the offsets left as they were.
pub proof fn law_pass1_align(v: ContextView, d: Directive, e: Expr, span: Span)
    requires
        d == Directive::Align(e) || d == Directive::P2Align(e),
    ensures
        match spec_as_literal(e) {
            Some(val) => if 0 <= val <= 30 {
                let a = 1u64 << (val as u64);
                let o = spec_current_offset(v);
                &&& spec_pass1_directive(v, d, span) == spec_align_to(v, a)
                &&& spec_pass1_directive(v, d, span).errors == v.errors
                &&& (o + a - 1 <= u64::MAX ==> aligned_offset(o, a) % a == 0 && o <= aligned_offset(o, a) < o + a)
            } else {
                spec_pass1_directive(v, d, span) == spec_push_error(v, ErrorView::InvalidAlignment { span })
            },
            None => spec_pass1_directive(v, d, span) == spec_push_error(v, ErrorView::UnresolvedExpression { span }),
        },
{
    if let Some(val) = spec_as_literal(e) {
        if 0 <= val <= 30 {
            let o = spec_current_offset(v);
            let a = 1u64 << (val as u64);
            if o + a - 1 <= u64::MAX {
                law_align_rounds_up(o, val as u64);
            }
        }
    }
}

} // verus!
