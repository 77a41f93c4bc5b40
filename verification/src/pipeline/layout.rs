//! The two passes agree on the layout: the offsets pass 1 computes for each section and
//! label are the ones pass 2 emits, as long as the assembly reports no error, every
//! instruction starts at a multiple of four, and every string's length fits a `usize`.

use vstd::prelude::*;
use crate::types::directive::Directive;
use crate::types::statement::Statement;
use crate::macho::{SectionIndex, SymbolScope};
use crate::macho::builder::{
    external_symbol, last_named, lemma_last_named, new_section, padded_len, section_index, spec_add_relocation, spec_declare,
    defined_symbol, le_bytes, spec_define, spec_emit, spec_set_global, ObjectView, SectionView, SymbolView,
};
use crate::types::reloc::RelocView;
use crate::pipeline::context::{aligned_offset, spec_context_new, spec_current_offset, spec_switch_section, with_current_offset, ContextView, SectionKey, SymbolInfoView};
use crate::pipeline::pass1::{spec_pass1_directive, spec_pass1_statement};
use crate::pipeline::assembler::{declare_undefined, pass1_result, pass2_result, text_object};
use vstd::utf8::encode_utf8;
use crate::pipeline::context::{spec_advance, spec_define_symbol};
use crate::pipeline::pass2::{emit_reported, fill_byte, pass2_start, spec_pass2, spec_pass2_directive, spec_pass2_instruction, spec_pass2_label, spec_resolve};
use crate::encode::encode::spec_encode;
use crate::types::instruction::Instruction;
use crate::pipeline::pass2::{spec_emit_values, spec_pass2_statement, spec_pass2_switch, Pass2State};
use crate::types::expr::{spec_as_literal, Expr};
use crate::types::span::Span;
use crate::pipeline::pass1::{spec_pass1, utf8_len};
use vstd::arithmetic::div_mod::{lemma_fundamental_div_mod, lemma_mod_multiples_vanish, lemma_mod_pos_bound, lemma_small_mod};
use vstd::arithmetic::power2::{lemma2_to64, lemma2_to64_rest, lemma_pow2_adds, pow2};
use vstd::bits::{low_bits_mask, lemma_u64_low_bits_mask_is_mod, lemma_u64_pow2_no_overflow, lemma_u64_shl_is_mul};

verus! {

/// Section `i` has the given segment and section names.
pub open spec fn section_at(secs: Seq<SectionView>, i: int, key: SectionKey) -> bool {
    0 <= i < secs.len() && secs[i].segment == key.0 && secs[i].name == key.1
}

/// No two sections of the object share their names.
pub open spec fn sections_distinct(obj: ObjectView) -> bool {
    forall|i: int, j: int| 0 <= i < obj.sections.len() && 0 <= j < obj.sections.len()
        && #[trigger] obj.sections[i].segment == #[trigger] obj.sections[j].segment
        && obj.sections[i].name == obj.sections[j].name ==> i == j
}

/// The symbol a lookup by `name` finds in the object lies at the section and offset given.
pub open spec fn symbol_placed(obj: ObjectView, name: Seq<char>, info: SymbolInfoView) -> bool {
    match last_named(obj.symbols, name) {
        Some(j) => obj.symbols[j].value == info.offset && match obj.symbols[j].section {
            Some(si) => section_at(obj.sections, si.0 as int, info.section),
            None => false,
        },
        None => false,
    }
}

/// Every section pass 1 knows is in the object, with as many bytes as pass 1 counted.
pub open spec fn sections_sized(v: ContextView, obj: ObjectView) -> bool {
    &&& forall|i: int| 0 <= i < obj.sections.len() ==> v.section_offsets.contains_key(
        (#[trigger] obj.sections[i].segment, obj.sections[i].name),
    ) && obj.sections[i].data.len() == v.section_offsets[(obj.sections[i].segment, obj.sections[i].name)]
    &&& forall|key: SectionKey| #[trigger] v.section_offsets.contains_key(key) ==> exists|i: int| #[trigger] section_at(obj.sections, i, key)
}

/// Every instruction starts at a multiple of four in its section, as pass 1 counts.
pub open spec fn instructions_aligned(stmts: Seq<Statement>) -> bool {
    forall|k: int| 0 <= k < stmts.len() && #[trigger] stmts[k] is Instruction
        ==> spec_current_offset(spec_pass1(spec_context_new(), stmts.take(k))) % 4 == 0
}

/// Every `.ascii` and `.asciz` string is shorter in UTF-8 than the largest `usize`.
pub open spec fn strings_fit(stmts: Seq<Statement>) -> bool {
    forall|k: int| 0 <= k < stmts.len() ==> match #[trigger] stmts[k] {
        Statement::Directive { directive: Directive::Ascii(s), .. } => utf8_len(s@) < usize::MAX,
        Statement::Directive { directive: Directive::Asciz(s), .. } => utf8_len(s@) < usize::MAX,
        _ => true,
    }
}

/// Changing symbols without renaming any leaves every lookup by name as it was.
pub proof fn lemma_last_named_same_names(a: Seq<SymbolView>, b: Seq<SymbolView>, name: Seq<char>)
    requires
        a.len() == b.len(),
        forall|i: int| 0 <= i < a.len() ==> #[trigger] a[i].name == b[i].name,
    ensures
        last_named(a, name) == last_named(b, name),
    decreases a.len(),
{
    if a.len() > 0 {
        assert(a.last().name == b.last().name);
        lemma_last_named_same_names(a.drop_last(), b.drop_last(), name);
    }
}

/// Adding a symbol leaves the lookup of every other name as it was.
pub proof fn lemma_last_named_push(a: Seq<SymbolView>, s: SymbolView, name: Seq<char>)
    ensures
        last_named(a.push(s), name) == if s.name == name { Some(a.len() as int) } else { last_named(a, name) },
{
    assert(a.push(s).drop_last() =~= a);
}

/// Rounding an offset up to a power of two by masking is rounding it up, when the result fits
/// in 64 bits.
pub proof fn lemma_aligned_offset(off: u64, val: u64)
    requires
        val < 64,
        padded_len(off as int, (1u64 << val) as int) <= u64::MAX,
    ensures
        aligned_offset(off, 1u64 << val) as int == padded_len(off as int, (1u64 << val) as int),
{
    let a = 1u64 << val;
    lemma_u64_pow2_no_overflow(val as nat);
    lemma_u64_shl_is_mul(1, val);
    let aa = a as int;
    assert(aa == pow2(val as nat));
    lemma_pow2_adds(val as nat, (64 - val) as nat);
    lemma2_to64();
    lemma2_to64_rest();
    let p = pow2((64 - val) as nat) as int;
    assert(aa * p == 0x1_0000_0000_0000_0000int);
    let r = (off as int) % aa;
    let k = (off as int) / aa;
    lemma_fundamental_div_mod(off as int, aa);
    let pl = padded_len(off as int, aa);
    let k2 = if r == 0 { k } else { k + 1 };
    assert(pl == aa * k2) by (nonlinear_arith)
        requires
            off as int == aa * k + r,
            pl == if r == 0 { off as int } else { off + aa - r },
            k2 == if r == 0 { k } else { k + 1 },
    ;
    assert(k2 <= p - 1) by (nonlinear_arith)
        requires
            aa * k2 <= aa * p - 1,
            aa > 0,
    ;
    assert(aa * k2 <= aa * p - aa) by (nonlinear_arith)
        requires
            k2 <= p - 1,
            aa > 0,
    ;
    let m = (a - 1) as u64;
    assert(off + m <= u64::MAX);
    let x = (off + m) as u64;
    assert(m as nat == low_bits_mask(val as nat));
    lemma_u64_low_bits_mask_is_mod(x, val as nat);
    assert((x & !m) + (x & m) == x) by (bit_vector);
    lemma_mod_multiples_vanish(k, r + aa - 1, aa);
    assert(x as int == aa * k + (r + aa - 1));
    if r == 0 {
        lemma_small_mod((aa - 1) as nat, aa as nat);
    } else {
        lemma_mod_multiples_vanish(1, r - 1, aa);
        lemma_small_mod((r - 1) as nat, aa as nat);
    }
}

/// Pass 1's view of the layout agrees with the object pass 2 is building: the same current
/// section, every section as long as pass 1 counted, and every label where pass 1 put it.
pub open spec fn layout_agrees(v: ContextView, st: Pass2State) -> bool {
    &&& sections_distinct(st.obj)
    &&& sections_sized(v, st.obj)
    &&& st.current == v.current_section
    &&& v.section_offsets.contains_key(v.current_section)
    &&& (st.obj.current_section matches Some(c) && section_at(st.obj.sections, c.0 as int, v.current_section))
    &&& forall|name: Seq<char>| #[trigger] v.symbols.contains_key(name) ==> symbol_placed(st.obj, name, v.symbols[name])
}

/// The index of the current section (0 when there is none).
pub open spec fn cur_index(o: ObjectView) -> int {
    match o.current_section {
        Some(c) => c.0 as int,
        None => 0,
    }
}

/// `o2` is `o` with only the data of section `c` changed, to `len` bytes.
pub open spec fn grown_to(o: ObjectView, o2: ObjectView, c: int, len: int) -> bool {
    &&& o2.sections.len() == o.sections.len()
    &&& forall|i: int| 0 <= i < o.sections.len() ==> (#[trigger] o2.sections[i]).segment == o.sections[i].segment
        && o2.sections[i].name == o.sections[i].name
    &&& forall|i: int| 0 <= i < o.sections.len() && i != c ==> (#[trigger] o2.sections[i]).data.len() == o.sections[i].data.len()
    &&& o2.sections[c].data.len() == len
    &&& o2.symbols == o.symbols
    &&& o2.current_section == o.current_section
}

/// Growing the current section to the offset pass 1 moves to keeps the two in agreement.
proof fn lemma_grow_agrees(v: ContextView, st: Pass2State, o2: ObjectView, len: int)
    requires
        layout_agrees(v, st),
        grown_to(st.obj, o2, cur_index(st.obj), len),
        0 <= len <= u64::MAX,
    ensures
        layout_agrees(with_current_offset(v, len as u64), Pass2State { obj: o2, ..st }),
{
    let c = cur_index(st.obj);
    let v2 = with_current_offset(v, len as u64);
    let st2 = Pass2State { obj: o2, ..st };
    assert forall|i: int| 0 <= i < o2.sections.len() implies v2.section_offsets.contains_key(
        (#[trigger] o2.sections[i].segment, o2.sections[i].name),
    ) && o2.sections[i].data.len() == v2.section_offsets[(o2.sections[i].segment, o2.sections[i].name)] by {
        assert(st.obj.sections[i].segment == o2.sections[i].segment);
        if i != c {
            assert((st.obj.sections[i].segment, st.obj.sections[i].name) != v.current_section);
        }
    }
    assert forall|key: SectionKey| #[trigger] v2.section_offsets.contains_key(key) implies exists|i: int| #[trigger] section_at(o2.sections, i, key) by {
        assert(v.section_offsets.contains_key(key));
        let i = choose|i: int| #[trigger] section_at(st.obj.sections, i, key);
        assert(o2.sections[i].segment == st.obj.sections[i].segment);
        assert(section_at(o2.sections, i, key));
    }
    assert forall|name: Seq<char>| #[trigger] v2.symbols.contains_key(name) implies symbol_placed(o2, name, v2.symbols[name]) by {
        assert(symbol_placed(st.obj, name, v.symbols[name]));
        match last_named(st.obj.symbols, name) {
            Some(j) => {
                let si = st.obj.symbols[j].section->0;
                assert(o2.sections[si.0 as int].segment == st.obj.sections[si.0 as int].segment);
            },
            None => {},
        }
    }
    assert(sections_distinct(o2)) by {
        assert forall|i: int, j: int| 0 <= i < o2.sections.len() && 0 <= j < o2.sections.len()
            && #[trigger] o2.sections[i].segment == #[trigger] o2.sections[j].segment
            && o2.sections[i].name == o2.sections[j].name implies i == j by {
            assert(st.obj.sections[i].segment == o2.sections[i].segment);
            assert(st.obj.sections[j].segment == o2.sections[j].segment);
        }
    }
}

/// An emission the object accepts grows the current section to the padded length plus the bytes.
proof fn lemma_emit_grows(o: ObjectView, bytes: Seq<u8>, align: u64)
    requires
        spec_emit(o, bytes, align) is Some,
        o.current_section matches Some(c) && 0 <= c.0 < o.sections.len(),
        align >= 1,
    ensures
        grown_to(o, (spec_emit(o, bytes, align)->0).0, cur_index(o),
            padded_len(o.sections[cur_index(o)].data.len() as int, align as int) + bytes.len()),
        padded_len(o.sections[cur_index(o)].data.len() as int, align as int) + bytes.len() <= u64::MAX,
{
    let c = cur_index(o);
    let len = o.sections[c].data.len() as int;
    let pl = padded_len(len, align as int);
    assert(pl >= len) by {
        if len % (align as int) != 0 {
            assert(len % (align as int) < align);
        }
    }
}

/// Changing symbols without renaming or moving any keeps every label where it was.
proof fn lemma_symbols_kept_agrees(v: ContextView, st: Pass2State, syms: Seq<SymbolView>)
    requires
        layout_agrees(v, st),
        syms.len() == st.obj.symbols.len(),
        forall|i: int| 0 <= i < syms.len() ==> (#[trigger] syms[i]).name == st.obj.symbols[i].name
            && syms[i].value == st.obj.symbols[i].value && syms[i].section == st.obj.symbols[i].section,
    ensures
        layout_agrees(v, Pass2State { obj: ObjectView { symbols: syms, ..st.obj }, ..st }),
{
    assert forall|name: Seq<char>| #[trigger] v.symbols.contains_key(name) implies symbol_placed(
        ObjectView { symbols: syms, ..st.obj },
        name,
        v.symbols[name],
    ) by {
        assert forall|i: int| 0 <= i < syms.len() implies #[trigger] syms[i].name == st.obj.symbols[i].name by {}
        lemma_last_named_same_names(syms, st.obj.symbols, name);
        lemma_last_named(st.obj.symbols, name);
        assert(symbol_placed(st.obj, name, v.symbols[name]));
        match last_named(st.obj.symbols, name) {
            Some(j) => {
                assert(syms[j].value == st.obj.symbols[j].value);
            },
            None => {},
        }
    }
}

/// Looking up a symbol by name, or else declaring it undefined, keeps every label where it was.
proof fn lemma_declare_agrees(v: ContextView, st: Pass2State, name: Seq<char>)
    requires
        layout_agrees(v, st),
    ensures
        layout_agrees(v, Pass2State { obj: spec_declare(st.obj, name).0, ..st }),
{
    lemma_last_named(st.obj.symbols, name);
    if last_named(st.obj.symbols, name) is None {
        let o2 = spec_declare(st.obj, name).0;
        assert forall|n: Seq<char>| #[trigger] v.symbols.contains_key(n) implies symbol_placed(o2, n, v.symbols[n]) by {
            lemma_last_named_push(st.obj.symbols, external_symbol(name), n);
            assert(symbol_placed(st.obj, n, v.symbols[n]));
            lemma_last_named(st.obj.symbols, n);
            match last_named(st.obj.symbols, n) {
                Some(j) => {
                    assert(o2.symbols[j] == st.obj.symbols[j]);
                },
                None => {},
            }
        }
    }
}

/// Exporting a symbol keeps every label where it was.
proof fn lemma_set_global_agrees(v: ContextView, st: Pass2State, name: Seq<char>)
    requires
        layout_agrees(v, st),
    ensures
        layout_agrees(v, Pass2State { obj: spec_set_global(st.obj, name).0, ..st }),
{
    lemma_last_named(st.obj.symbols, name);
    match last_named(st.obj.symbols, name) {
        Some(i) => {
            let syms = st.obj.symbols.update(i, SymbolView { scope: SymbolScope::Dynamic, ..st.obj.symbols[i] });
            lemma_symbols_kept_agrees(v, st, syms);
            assert(spec_set_global(st.obj, name).0 == ObjectView { symbols: syms, ..st.obj });
        },
        None => {},
    }
}

/// Adding a relocation keeps every label where it was and every section as it was.
proof fn lemma_relocation_agrees(v: ContextView, st: Pass2State, sec: SectionIndex, off: u64, r: RelocView)
    requires
        layout_agrees(v, st),
    ensures
        layout_agrees(v, Pass2State { obj: spec_add_relocation(st.obj, sec, off, r).0, ..st }),
{
    lemma_declare_agrees(v, st, r.symbol);
}

/// Entering a section in both passes keeps them in agreement.
proof fn lemma_switch_agrees(v: ContextView, st: Pass2State, key: SectionKey)
    requires
        layout_agrees(v, st),
        st.obj.sections.len() < usize::MAX,
    ensures
        layout_agrees(spec_switch_section(v, key), spec_pass2_switch(st, key)),
        spec_pass2_switch(st, key).obj.sections.len() <= st.obj.sections.len() + 1,
{
    let v2 = spec_switch_section(v, key);
    let st2 = spec_pass2_switch(st, key);
    let o = st.obj;
    match section_index(o, key.0, key.1) {
        Some(i) => {
            assert(exists|i: int| 0 <= i < o.sections.len() && o.sections[i].segment == key.0 && o.sections[i].name == key.1);
            assert(section_at(o.sections, i, key));
            assert(v.section_offsets.contains_key(key));
            assert(v2.section_offsets == v.section_offsets);
        },
        None => {
            assert(!v.section_offsets.contains_key(key)) by {
                if v.section_offsets.contains_key(key) {
                    let i = choose|i: int| #[trigger] section_at(o.sections, i, key);
                    assert(section_at(o.sections, i, key));
                }
            }
            let o2 = st2.obj;
            let n = o.sections.len() as int;
            assert(o2.sections == o.sections.push(new_section(key.0, key.1)));
            assert forall|i: int| 0 <= i < o2.sections.len() implies v2.section_offsets.contains_key(
                (#[trigger] o2.sections[i].segment, o2.sections[i].name),
            ) && o2.sections[i].data.len() == v2.section_offsets[(o2.sections[i].segment, o2.sections[i].name)] by {
                if i < n {
                    assert(o2.sections[i] == o.sections[i]);
                    assert(o.sections[i].segment == o.sections[i].segment);
                }
            }
            assert forall|k: SectionKey| #[trigger] v2.section_offsets.contains_key(k) implies exists|i: int| #[trigger] section_at(o2.sections, i, k) by {
                if k == key {
                    assert(section_at(o2.sections, n, k));
                } else {
                    let i = choose|i: int| #[trigger] section_at(o.sections, i, k);
                    assert(section_at(o2.sections, i, k));
                }
            }
            assert(sections_distinct(o2)) by {
                assert forall|i: int, j: int| 0 <= i < o2.sections.len() && 0 <= j < o2.sections.len()
                    && #[trigger] o2.sections[i].segment == #[trigger] o2.sections[j].segment
                    && o2.sections[i].name == o2.sections[j].name implies i == j by {
                    if i < n && j == n {
                        assert(section_at(o.sections, i, key));
                    }
                    if j < n && i == n {
                        assert(section_at(o.sections, j, key));
                    }
                    if i < n && j < n {
                        assert(o.sections[i].segment == o.sections[j].segment);
                    }
                }
            }
            assert forall|name: Seq<char>| #[trigger] v2.symbols.contains_key(name) implies symbol_placed(o2, name, v2.symbols[name]) by {
                assert(symbol_placed(o, name, v.symbols[name]));
                match last_named(o.symbols, name) {
                    Some(j) => {
                        let si = o.symbols[j].section->0;
                        assert(o2.sections[si.0 as int] == o.sections[si.0 as int]);
                    },
                    None => {},
                }
            }
        },
    }
}

/// Pass 1 never takes an error back.
proof fn lemma_pass1_errors_grow(v: ContextView, s: Statement)
    ensures
        spec_pass1_statement(v, s).errors.len() >= v.errors.len(),
{
}

/// Emitting data values never takes an error back.
proof fn lemma_emit_values_errors_grow(st: Pass2State, es: Seq<Expr>, size: nat, span: Span)
    ensures
        spec_emit_values(st, es, size, span).errors.len() >= st.errors.len(),
    decreases es.len(),
{
    if es.len() > 0 {
        lemma_emit_values_errors_grow(st, es.drop_last(), size, span);
    }
}

/// Pass 2 never takes an error back.
proof fn lemma_pass2_errors_grow(st: Pass2State, ctx: ContextView, s: Statement)
    ensures
        spec_pass2_statement(st, ctx, s).errors.len() >= st.errors.len(),
{
    match s {
        Statement::Directive { directive, span } => match directive {
            Directive::Byte(es) => lemma_emit_values_errors_grow(st, es@, 1, span),
            Directive::Short(es) => lemma_emit_values_errors_grow(st, es@, 2, span),
            Directive::Word(es) => lemma_emit_values_errors_grow(st, es@, 4, span),
            Directive::Quad(es) => lemma_emit_values_errors_grow(st, es@, 8, span),
            _ => {},
        },
        _ => {},
    }
}

/// Growing a section twice is growing it once.
proof fn lemma_grown_trans(o: ObjectView, o1: ObjectView, o2: ObjectView, c: int, l1: int, l2: int)
    requires
        grown_to(o, o1, c, l1),
        grown_to(o1, o2, c, l2),
    ensures
        grown_to(o, o2, c, l2),
{
    assert forall|i: int| 0 <= i < o.sections.len() implies (#[trigger] o2.sections[i]).segment == o.sections[i].segment
        && o2.sections[i].name == o.sections[i].name by {
        assert(o1.sections[i].segment == o.sections[i].segment);
    }
    assert forall|i: int| 0 <= i < o.sections.len() && i != c implies (#[trigger] o2.sections[i]).data.len() == o.sections[i].data.len() by {
        assert(o1.sections[i].data.len() == o.sections[i].data.len());
    }
}

/// Data values that all fold to numbers grow the current section by `size` bytes each.
proof fn lemma_emit_values_grow(st: Pass2State, es: Seq<Expr>, size: nat, span: Span)
    requires
        st.obj.current_section matches Some(c) && 0 <= c.0 < st.obj.sections.len(),
        spec_emit_values(st, es, size, span).errors.len() == st.errors.len(),
        1 <= size <= 8,
        st.obj.sections[cur_index(st.obj)].data.len() <= u64::MAX,
    ensures
        st.obj.sections[cur_index(st.obj)].data.len() + es.len() * size <= u64::MAX,
        grown_to(st.obj, spec_emit_values(st, es, size, span).obj, cur_index(st.obj),
            (st.obj.sections[cur_index(st.obj)].data.len() + es.len() * size) as int),
        spec_emit_values(st, es, size, span).current == st.current,
    decreases es.len(),
{
    let c = cur_index(st.obj);
    let len = st.obj.sections[c].data.len() as int;
    if es.len() == 0 {
        assert(grown_to(st.obj, st.obj, c, len));
    } else {
        let pre = es.drop_last();
        let mid = spec_emit_values(st, pre, size, span);
        lemma_emit_values_errors_grow(st, pre, size, span);
        assert(mid.errors.len() == st.errors.len());
        lemma_emit_values_grow(st, pre, size, span);
        let bytes = le_bytes(spec_as_literal(es.last())->0 as u64, size);
        assert(spec_as_literal(es.last()) is Some);
        assert(spec_emit(mid.obj, bytes, 1) is Some);
        lemma_emit_grows(mid.obj, bytes, 1);
        let l1 = len + pre.len() * size;
        assert(padded_len(l1, 1) == l1);
        lemma_grown_trans(st.obj, mid.obj, spec_emit_values(st, es, size, span).obj, c, l1, l1 + size);
        assert(l1 + size == len + es.len() * size) by (nonlinear_arith)
            requires
                l1 == len + pre.len() * size,
                pre.len() + 1 == es.len(),
        ;
    }
}

/// A label defined at the current offset in both passes keeps them in agreement.
proof fn lemma_label_agrees(v: ContextView, st: Pass2State, ctx: ContextView, name: Seq<char>, span: Span)
    requires
        layout_agrees(v, st),
        spec_define_symbol(v, name, span).errors.len() == v.errors.len(),
    ensures
        layout_agrees(spec_define_symbol(v, name, span), spec_pass2_label(st, ctx, name)),
        spec_pass2_label(st, ctx, name).obj.sections == st.obj.sections,
{
    let o = st.obj;
    let c = o.current_section->0;
    let ci = c.0 as int;
    let len = o.sections[ci].data.len();
    assert(!v.symbols.contains_key(name));
    assert(o.sections[ci].segment == v.current_section.0);
    assert(len == v.section_offsets[v.current_section]);
    let o1 = spec_define(o, name, len as u64, c);
    let v2 = spec_define_symbol(v, name, span);
    let st1 = Pass2State { obj: o1, ..st };
    let sym = defined_symbol(o, name, len as u64, c);
    assert forall|n: Seq<char>| #[trigger] v2.symbols.contains_key(n) implies symbol_placed(o1, n, v2.symbols[n]) by {
        lemma_last_named_push(o.symbols, sym, n);
        if n != name {
            assert(symbol_placed(o, n, v.symbols[n]));
            lemma_last_named(o.symbols, n);
            match last_named(o.symbols, n) {
                Some(j) => {
                    assert(o1.symbols[j] == o.symbols[j]);
                },
                None => {},
            }
        } else {
            assert(o1.symbols[o.symbols.len() as int] == sym);
        }
    }
    assert(layout_agrees(v2, st1));
    if ctx.globals.contains(name) {
        lemma_set_global_agrees(v2, st1, name);
    }
}

/// An instruction at a multiple of four, placed without error, takes four bytes in both passes.
proof fn lemma_instruction_agrees(v: ContextView, st: Pass2State, ctx: ContextView, inst: Instruction)
    requires
        layout_agrees(v, st),
        spec_current_offset(v) % 4 == 0,
        spec_pass2_instruction(st, ctx, inst).errors.len() == st.errors.len(),
    ensures
        layout_agrees(spec_advance(v, 4), spec_pass2_instruction(st, ctx, inst)),
        spec_pass2_instruction(st, ctx, inst).obj.sections.len() == st.obj.sections.len(),
{
    let o = st.obj;
    let c = o.current_section->0;
    let ci = c.0 as int;
    let len = o.sections[ci].data.len() as int;
    assert(o.sections[ci].segment == v.current_section.0);
    assert(len == v.section_offsets[v.current_section]);
    match spec_encode(inst) {
        Ok(enc) => {
            let (bits, linker, err) = match enc.relocation {
                Some(r) => spec_resolve(r, enc.bits, len as u64, st.current, ctx, inst.span),
                None => (enc.bits, None, None),
            };
            let bytes = le_bytes(bits as u64, 4);
            assert(err is None);
            assert(spec_emit(o, bytes, 4) is Some);
            lemma_emit_grows(o, bytes, 4);
            assert(padded_len(len, 4) == len);
            let o1 = (spec_emit(o, bytes, 4)->0).0;
            lemma_grow_agrees(v, st, o1, len + 4);
            let v2 = with_current_offset(v, (len + 4) as u64);
            assert(spec_advance(v, 4) == v2);
            let st1 = Pass2State { obj: o1, ..st };
            match linker {
                Some(r) => {
                    lemma_relocation_agrees(v2, st1, c, (spec_emit(o, bytes, 4)->0).1, r);
                },
                None => {},
            }
        },
        Err(_) => {},
    }
}

/// Emitting bytes in pass 2 while pass 1 advances by their count keeps the two in agreement.
proof fn lemma_emit_agrees(v: ContextView, st: Pass2State, bytes: Seq<u8>, span: Span, n: u64)
    requires
        layout_agrees(v, st),
        emit_reported(st, bytes, 1, span).errors.len() == st.errors.len(),
        n == bytes.len(),
    ensures
        layout_agrees(spec_advance(v, n), emit_reported(st, bytes, 1, span)),
{
    let o = st.obj;
    let ci = cur_index(o);
    let len = o.sections[ci].data.len() as int;
    assert(o.sections[ci].segment == v.current_section.0);
    assert(len == v.section_offsets[v.current_section]);
    assert(spec_emit(o, bytes, 1) is Some);
    lemma_emit_grows(o, bytes, 1);
    assert(padded_len(len, 1) == len);
    lemma_grow_agrees(v, st, (spec_emit(o, bytes, 1)->0).0, len + bytes.len());
}

/// A directive handled without error in both passes keeps them in agreement.
proof fn lemma_directive_agrees(v: ContextView, st: Pass2State, d: Directive, span: Span)
    requires
        layout_agrees(v, st),
        st.obj.sections.len() < usize::MAX,
        spec_pass1_directive(v, d, span).errors.len() == v.errors.len(),
        spec_pass2_directive(st, d, span).errors.len() == st.errors.len(),
        d matches Directive::Ascii(s) ==> utf8_len(s@) < usize::MAX,
        d matches Directive::Asciz(s) ==> utf8_len(s@) < usize::MAX,
    ensures
        layout_agrees(spec_pass1_directive(v, d, span), spec_pass2_directive(st, d, span)),
        spec_pass2_directive(st, d, span).obj.sections.len() <= st.obj.sections.len() + 1,
{
    let o = st.obj;
    let ci = cur_index(o);
    let len = o.sections[ci].data.len() as int;
    assert(o.sections[ci].segment == v.current_section.0);
    assert(len == v.section_offsets[v.current_section]);
    match d {
        Directive::Text => lemma_switch_agrees(v, st, ("__TEXT"@, "__text"@)),
        Directive::Data => lemma_switch_agrees(v, st, ("__DATA"@, "__data"@)),
        Directive::Section(spec) => lemma_switch_agrees(v, st, (spec.segment@, spec.section@)),
        Directive::Global(name) => lemma_set_global_agrees(v, st, name@),
        Directive::Align(e) | Directive::P2Align(e) => {
            let val = spec_as_literal(e)->0;
            assert(0 <= val <= 30);
            let a = (1u64 << (val as u64)) as u64;
            assert(spec_emit(o, Seq::empty(), a) is Some);
            lemma_u64_pow2_no_overflow(val as nat);
            lemma_u64_shl_is_mul(1, val as u64);
            lemma_emit_grows(o, Seq::empty(), a);
            lemma_aligned_offset(len as u64, val as u64);
            lemma_grow_agrees(v, st, (spec_emit(o, Seq::empty(), a)->0).0, padded_len(len, a as int));
        },
        Directive::Byte(es) => {
            lemma_emit_values_grow(st, es@, 1, span);
            lemma_grow_agrees(v, st, spec_pass2_directive(st, d, span).obj, len + es@.len() * 1);
        },
        Directive::Short(es) => {
            lemma_emit_values_grow(st, es@, 2, span);
            lemma_grow_agrees(v, st, spec_pass2_directive(st, d, span).obj, len + es@.len() * 2);
        },
        Directive::Word(es) => {
            lemma_emit_values_grow(st, es@, 4, span);
            lemma_grow_agrees(v, st, spec_pass2_directive(st, d, span).obj, len + es@.len() * 4);
        },
        Directive::Quad(es) => {
            lemma_emit_values_grow(st, es@, 8, span);
            lemma_grow_agrees(v, st, spec_pass2_directive(st, d, span).obj, len + es@.len() * 8);
        },
        Directive::Ascii(s) => {
            lemma_emit_agrees(v, st, encode_utf8(s@), span, utf8_len(s@) as u64);
        },
        Directive::Asciz(s) => {
            lemma_emit_agrees(v, st, encode_utf8(s@).push(0u8), span, (utf8_len(s@) + 1) as u64);
        },
        Directive::Space { size, fill } => {
            let sz = spec_as_literal(size)->0;
            if sz > 0 {
                lemma_emit_agrees(v, st, Seq::new(sz as nat, |i: int| fill_byte(fill)), span, sz as u64);
            } else {
                assert(grown_to(o, o, ci, len));
                lemma_grow_agrees(v, st, o, len);
            }
        },
        Directive::SubsectionsViaSymbols => {
            assert(spec_pass2_directive(st, d, span).obj.sections == o.sections);
        },
        Directive::BuildVersion(_) => {
            assert(spec_pass2_directive(st, d, span).obj.sections == o.sections);
        },
        Directive::Local(_) => {},
    }
}

/// Both passes start in agreement.
proof fn lemma_start_agrees()
    ensures
        layout_agrees(spec_context_new(), pass2_start(text_object(), Seq::empty())),
        text_object().sections.len() == 1,
{
    let empty = ObjectView {
        sections: Seq::empty(),
        symbols: Seq::empty(),
        relocations: Seq::empty(),
        current_section: None,
        subsections_via_symbols: false,
        build_version: None,
    };
    assert(section_index(empty, "__TEXT"@, "__text"@) is None);
    let o = text_object();
    assert(o.sections =~= seq![new_section("__TEXT"@, "__text"@)]);
    assert(section_at(o.sections, 0, ("__TEXT"@, "__text"@)));
    let v = spec_context_new();
    assert forall|key: SectionKey| #[trigger] v.section_offsets.contains_key(key) implies exists|i: int| #[trigger] section_at(o.sections, i, key) by {
        assert(key == ("__TEXT"@, "__text"@));
        assert(section_at(o.sections, 0, key));
    }
}

/// Declaring the undefined globals keeps every label where it was.
proof fn lemma_declare_undefined_agrees(v: ContextView, st: Pass2State, globals: Seq<Seq<char>>, ctx: ContextView)
    requires
        layout_agrees(v, st),
    ensures
        layout_agrees(v, Pass2State { obj: declare_undefined(st.obj, globals, ctx), ..st }),
    decreases globals.len(),
{
    if globals.len() > 0 {
        lemma_declare_undefined_agrees(v, st, globals.drop_last(), ctx);
        let st1 = Pass2State { obj: declare_undefined(st.obj, globals.drop_last(), ctx), ..st };
        lemma_declare_agrees(v, st1, globals.last());
    }
}

/// The two passes agree after every prefix of statements that both handle without error.
proof fn lemma_prefix_agrees(ctx: ContextView, stmts: Seq<Statement>)
    requires
        spec_pass1(spec_context_new(), stmts).errors.len() == 0,
        spec_pass2(pass2_start(text_object(), Seq::empty()), ctx, stmts).errors.len() == 0,
        instructions_aligned(stmts),
        strings_fit(stmts),
        stmts.len() < usize::MAX - 1,
    ensures
        layout_agrees(spec_pass1(spec_context_new(), stmts), spec_pass2(pass2_start(text_object(), Seq::empty()), ctx, stmts)),
        spec_pass2(pass2_start(text_object(), Seq::empty()), ctx, stmts).obj.sections.len() <= stmts.len() + 1,
    decreases stmts.len(),
{
    let start = pass2_start(text_object(), Seq::empty());
    if stmts.len() == 0 {
        lemma_start_agrees();
    } else {
        let pre = stmts.drop_last();
        let last = stmts.last();
        let v = spec_pass1(spec_context_new(), pre);
        let st = spec_pass2(start, ctx, pre);
        lemma_pass1_errors_grow(v, last);
        lemma_pass2_errors_grow(st, ctx, last);
        assert forall|k: int| 0 <= k < pre.len() && #[trigger] pre[k] is Instruction implies spec_current_offset(
            spec_pass1(spec_context_new(), pre.take(k)),
        ) % 4 == 0 by {
            assert(pre.take(k) == stmts.take(k));
            assert(stmts[k] is Instruction);
        }
        assert forall|k: int| 0 <= k < pre.len() implies match #[trigger] pre[k] {
            Statement::Directive { directive: Directive::Ascii(s), .. } => utf8_len(s@) < usize::MAX,
            Statement::Directive { directive: Directive::Asciz(s), .. } => utf8_len(s@) < usize::MAX,
            _ => true,
        } by {
            assert(pre[k] == stmts[k]);
        }
        lemma_prefix_agrees(ctx, pre);
        let n = stmts.len() - 1;
        assert(stmts[n] == last);
        match last {
            Statement::Label { name, span } => {
                lemma_label_agrees(v, st, ctx, name@, span);
            },
            Statement::Instruction(inst) => {
                assert(stmts.take(n) == pre);
                lemma_instruction_agrees(v, st, ctx, inst);
            },
            Statement::Directive { directive, span } => {
                lemma_directive_agrees(v, st, directive, span);
            },
        }
    }
}

/// The two passes agree on the layout. When an assembly reports no error, every instruction
/// starts at a multiple of four in its section (as pass 1 counts), every string is shorter in
/// UTF-8 than the largest `usize`, and there are fewer statements than that: every section
/// pass 1 sized is in the object with exactly as many bytes, and the symbol of every label is
/// in the section and at the offset pass 1 recorded for it.
pub proof fn law_layout_agrees(stmts: Seq<Statement>)
    requires
        pass1_result(stmts).errors.len() == 0,
        pass2_result(stmts).1.len() == 0,
        instructions_aligned(stmts),
        strings_fit(stmts),
        stmts.len() < usize::MAX - 1,
    ensures
        forall|key: SectionKey| #[trigger] pass1_result(stmts).section_offsets.contains_key(key) ==> exists|i: int|
            #[trigger] section_at(pass2_result(stmts).0.sections, i, key)
                && pass2_result(stmts).0.sections[i].data.len() == pass1_result(stmts).section_offsets[key],
        forall|name: Seq<char>| #[trigger] pass1_result(stmts).symbols.contains_key(name) ==> symbol_placed(
            pass2_result(stmts).0,
            name,
            pass1_result(stmts).symbols[name],
        ),
{
    let ctx = pass1_result(stmts);
    let st = spec_pass2(pass2_start(text_object(), Seq::empty()), ctx, stmts);
    lemma_prefix_agrees(ctx, stmts);
    lemma_declare_undefined_agrees(ctx, st, ctx.globals, ctx);
    let o = pass2_result(stmts).0;
    assert forall|key: SectionKey| #[trigger] ctx.section_offsets.contains_key(key) implies exists|i: int|
        #[trigger] section_at(o.sections, i, key) && o.sections[i].data.len() == ctx.section_offsets[key] by {
        let i = choose|i: int| #[trigger] section_at(o.sections, i, key);
        assert(o.sections[i].segment == key.0);
    }
}

/// Aligning an offset to a power of two gives the least multiple of it at or above the
/// offset, when that fits in 64 bits.
pub proof fn law_align_rounds_up(off: u64, val: u64)
    requires
        val < 64,
        off + (1u64 << val) - 1 <= u64::MAX,
    ensures
        aligned_offset(off, 1u64 << val) % (1u64 << val) == 0,
        off <= aligned_offset(off, 1u64 << val) < off + (1u64 << val),
{
    let a = 1u64 << val;
    lemma_u64_pow2_no_overflow(val as nat);
    lemma_u64_shl_is_mul(1, val);
    let aa = a as int;
    assert(aa > 0);
    let r = (off as int) % aa;
    lemma_fundamental_div_mod(off as int, aa);
    lemma_mod_pos_bound(off as int, aa);
    let pl = padded_len(off as int, aa);
    assert(pl <= off + aa - 1);
    lemma_aligned_offset(off, val);
    let k = (off as int) / aa;
    let k2 = if r == 0 { k } else { k + 1 };
    assert(pl == aa * k2) by (nonlinear_arith)
        requires
            off as int == aa * k + r,
            pl == if r == 0 { off as int } else { off + aa - r },
            k2 == if r == 0 { k } else { k + 1 },
    ;
    lemma_mod_multiples_vanish(k2, 0, aa);
    lemma_small_mod(0, aa as nat);
}

} // verus!
