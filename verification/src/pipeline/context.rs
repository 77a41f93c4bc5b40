//! The state of the first pass: symbols, globals, sections and their offsets.

use vstd::prelude::*;
use crate::text::{chars_eq, str_chars};
use crate::types::error::{AsmError, ErrorView, owned};
use crate::types::span::Span;
use crate::pipeline::assoc::{
    assoc_map, keys_unique, lemma_assoc_map_domain, lemma_assoc_map_index, lemma_assoc_map_update, lemma_keys_unique_push,
};

verus! {

/// A section named by its segment and section names.
pub type SectionKey = (Seq<char>, Seq<char>);

/// Information about a defined symbol.
#[derive(Debug)]
pub struct SymbolInfo {
    pub section: (String, String),
    pub offset: u64,
    pub span: Span,
}

/// The abstract value of a symbol's information.
pub struct SymbolInfoView {
    pub section: SectionKey,
    pub offset: u64,
    pub span: Span,
}

impl View for SymbolInfo {
    type V = SymbolInfoView;

    open spec fn view(&self) -> SymbolInfoView {
        SymbolInfoView { section: (self.section.0@, self.section.1@), offset: self.offset, span: self.span }
    }
}

/// Tracks symbols, sections, and offsets during assembly.
pub struct AssemblyContext {
    /// Defined symbols, in the order they were defined; each name once.
    pub symbols: Vec<(String, SymbolInfo)>,
    /// Names declared global, in the order they were declared; each name once.
    pub globals: Vec<String>,
    pub current_section: (String, String),
    /// The offset reached in each section, in the order the sections were entered.
    pub section_offsets: Vec<((String, String), u64)>,
    pub errors: Vec<AsmError>,
}

/// The abstract value of the context.
pub struct ContextView {
    pub symbols: Map<Seq<char>, SymbolInfoView>,
    pub globals: Seq<Seq<char>>,
    pub current_section: SectionKey,
    pub section_offsets: Map<SectionKey, u64>,
    pub errors: Seq<ErrorView>,
}

impl AssemblyContext {
    /// The symbol table as a list of names and information.
    pub open spec fn symbol_list(&self) -> Seq<(Seq<char>, SymbolInfoView)> {
        self.symbols@.map_values(|p: (String, SymbolInfo)| (p.0@, p.1@))
    }

    /// The section offsets as a list of keys and offsets.
    pub open spec fn offset_list(&self) -> Seq<(SectionKey, u64)> {
        self.section_offsets@.map_values(|p: ((String, String), u64)| ((p.0.0@, p.0.1@), p.1))
    }

    /// Names and keys are unique, and the current section has an offset.
    pub open spec fn wf(&self) -> bool {
        &&& keys_unique(self.symbol_list())
        &&& keys_unique(self.offset_list())
        &&& forall|i: int, j: int| 0 <= i < j < self.globals@.len() ==> #[trigger] self.globals@[i]@ != #[trigger] self.globals@[j]@
        &&& self@.section_offsets.contains_key(self@.current_section)
    }
}

impl View for AssemblyContext {
    type V = ContextView;

    open spec fn view(&self) -> ContextView {
        ContextView {
            symbols: assoc_map(self.symbol_list()),
            globals: self.globals@.map_values(|g: String| g@),
            current_section: (self.current_section.0@, self.current_section.1@),
            section_offsets: assoc_map(self.offset_list()),
            errors: self.errors@.map_values(|e: AsmError| e@),
        }
    }
}

/// The context before any statement: in `__TEXT,__text` at offset 0, with nothing defined.
pub open spec fn spec_context_new() -> ContextView {
    ContextView {
        symbols: Map::empty(),
        globals: Seq::empty(),
        current_section: ("__TEXT"@, "__text"@),
        section_offsets: Map::empty().insert(("__TEXT"@, "__text"@), 0u64),
        errors: Seq::empty(),
    }
}

/// The context after entering a section; a section entered for the first time starts at 0.
pub open spec fn spec_switch_section(v: ContextView, key: SectionKey) -> ContextView {
    ContextView {
        section_offsets: if v.section_offsets.contains_key(key) { v.section_offsets } else { v.section_offsets.insert(key, 0) },
        current_section: key,
        ..v
    }
}

/// The offset in the current section.
pub open spec fn spec_current_offset(v: ContextView) -> u64 {
    if v.section_offsets.contains_key(v.current_section) { v.section_offsets[v.current_section] } else { 0 }
}

/// The context with the current section's offset replaced.
pub open spec fn with_current_offset(v: ContextView, off: u64) -> ContextView {
    if v.section_offsets.contains_key(v.current_section) {
        ContextView { section_offsets: v.section_offsets.insert(v.current_section, off), ..v }
    } else {
        v
    }
}

/// The context after advancing the current offset by `n` bytes (modulo 2^64).
pub open spec fn spec_advance(v: ContextView, n: u64) -> ContextView {
    with_current_offset(v, (spec_current_offset(v) + n) as u64)
}

/// `off` rounded up to a multiple of the power of two `a` (modulo 2^64).
pub open spec fn aligned_offset(off: u64, a: u64) -> u64 {
    ((off + a - 1) as u64) & !((a - 1) as u64)
}

/// The context after aligning the current offset.
pub open spec fn spec_align_to(v: ContextView, a: u64) -> ContextView {
    with_current_offset(v, aligned_offset(spec_current_offset(v), a))
}

/// The context after a label: a new name is recorded at the current section and offset; a
/// name already defined is reported as a duplicate and left as it was.
pub open spec fn spec_define_symbol(v: ContextView, name: Seq<char>, span: Span) -> ContextView {
    if v.symbols.contains_key(name) {
        ContextView { errors: v.errors.push(ErrorView::DuplicateSymbol { name, span }), ..v }
    } else {
        ContextView {
            symbols: v.symbols.insert(name, SymbolInfoView { section: v.current_section, offset: spec_current_offset(v), span }),
            ..v
        }
    }
}

/// The context after declaring a name global.
pub open spec fn spec_mark_global(v: ContextView, name: Seq<char>) -> ContextView {
    if v.globals.contains(name) { v } else { ContextView { globals: v.globals.push(name), ..v } }
}

/// Switching to another section and back returns to the offset the section had: entering a
/// section never resets an offset pass 1 already counted.
pub proof fn law_switch_back(v: ContextView, other: SectionKey)
    requires
        v.section_offsets.contains_key(v.current_section),
    ensures
        spec_current_offset(spec_switch_section(spec_switch_section(v, other), v.current_section)) == spec_current_offset(v),
{
}

/// The context with one more error.
pub open spec fn spec_push_error(v: ContextView, e: ErrorView) -> ContextView {
    ContextView { errors: v.errors.push(e), ..v }
}

impl AssemblyContext {
    pub fn new() -> (r: AssemblyContext)
        ensures
            r.wf(),
            r@ == spec_context_new(),
    {
        let initial = (owned("__TEXT"), owned("__text"));
        let mut section_offsets: Vec<((String, String), u64)> = Vec::new();
        section_offsets.push(((owned("__TEXT"), owned("__text")), 0));
        let r = AssemblyContext {
            symbols: Vec::new(),
            globals: Vec::new(),
            current_section: initial,
            section_offsets,
            errors: Vec::new(),
        };
        proof {
            let l = r.offset_list();
            assert(l.len() == 1);
            assert(l.drop_last() =~= Seq::<(SectionKey, u64)>::empty());
            assert(assoc_map(l.drop_last()) == Map::<SectionKey, u64>::empty());
            assert(r@.section_offsets =~= spec_context_new().section_offsets);
            assert(r.symbol_list() =~= Seq::<(Seq<char>, SymbolInfoView)>::empty());
            assert(r@.symbols =~= Map::<Seq<char>, SymbolInfoView>::empty());
            assert(r@.globals =~= Seq::<Seq<char>>::empty());
            assert(r@.errors =~= Seq::<ErrorView>::empty());
        }
        r
    }

    /// The position of a section's entry in `section_offsets`.
    fn find_section(&self, seg: &[char], sec: &[char]) -> (r: Option<usize>)
        ensures
            match r {
                Some(i) => i < self.offset_list().len() && self.offset_list()[i as int].0 == (seg@, sec@),
                None => forall|k: int| 0 <= k < self.offset_list().len() ==> self.offset_list()[k].0 != (seg@, sec@),
            },
    {
        let mut i: usize = 0;
        while i < self.section_offsets.len()
            invariant
                i <= self.offset_list().len(),
                self.offset_list().len() == self.section_offsets@.len(),
                forall|k: int| 0 <= k < i ==> self.offset_list()[k].0 != (seg@, sec@),
            decreases self.section_offsets.len() - i,
        {
            let a = str_chars(self.section_offsets[i].0.0.as_str());
            let b = str_chars(self.section_offsets[i].0.1.as_str());
            if chars_eq(&a, seg) && chars_eq(&b, sec) {
                return Some(i);
            }
            i += 1;
        }
        None
    }

    /// The position of a symbol's entry in `symbols`.
    fn find_symbol(&self, name: &[char]) -> (r: Option<usize>)
        ensures
            match r {
                Some(i) => i < self.symbol_list().len() && self.symbol_list()[i as int].0 == name@,
                None => forall|k: int| 0 <= k < self.symbol_list().len() ==> self.symbol_list()[k].0 != name@,
            },
    {
        let mut i: usize = 0;
        while i < self.symbols.len()
            invariant
                i <= self.symbol_list().len(),
                self.symbol_list().len() == self.symbols@.len(),
                forall|k: int| 0 <= k < i ==> self.symbol_list()[k].0 != name@,
            decreases self.symbols.len() - i,
        {
            let a = str_chars(self.symbols[i].0.as_str());
            if chars_eq(&a, name) {
                return Some(i);
            }
            i += 1;
        }
        None
    }

    /// Switch to a different section, creating it if it doesn't exist.
    pub fn switch_section(&mut self, segment: &str, section: &str)
        requires
            old(self).wf(),
        ensures
            final(self).wf(),
            final(self)@ == spec_switch_section(old(self)@, (segment@, section@)),
    {
        let seg = str_chars(segment);
        let sec = str_chars(section);
        let ghost l = self.offset_list();
        proof { lemma_assoc_map_domain(l, (segment@, section@)); }
        match self.find_section(&seg, &sec) {
            Some(_) => {},
            None => {
                self.section_offsets.push(((owned(segment), owned(section)), 0));
                proof {
                    assert(self.offset_list() =~= l.push(((segment@, section@), 0u64)));
                    assert(l.push(((segment@, section@), 0u64)).drop_last() == l);
                    lemma_keys_unique_push(l, (segment@, section@), 0u64);
                }
            },
        }
        self.current_section = (owned(segment), owned(section));
        proof {
            lemma_assoc_map_domain(self.offset_list(), (segment@, section@));
            assert(self.offset_list()[self.offset_list().len() - 1].0 == (segment@, section@)
                || exists|i: int| 0 <= i < l.len() && l[i].0 == (segment@, section@));
        }
    }

    /// Current offset in the current section.
    pub fn current_offset(&self) -> (r: u64)
        requires
            self.wf(),
        ensures
            r == spec_current_offset(self@),
    {
        let seg = str_chars(self.current_section.0.as_str());
        let sec = str_chars(self.current_section.1.as_str());
        proof { lemma_assoc_map_domain(self.offset_list(), self@.current_section); }
        match self.find_section(&seg, &sec) {
            Some(i) => {
                proof { lemma_assoc_map_index(self.offset_list(), i as int); }
                self.section_offsets[i].1
            },
            None => 0,
        }
    }

    /// Replace the current section's offset.
    fn set_current_offset(&mut self, off: u64)
        requires
            old(self).wf(),
        ensures
            final(self).wf(),
            final(self)@ == with_current_offset(old(self)@, off),
    {
        let seg = str_chars(self.current_section.0.as_str());
        let sec = str_chars(self.current_section.1.as_str());
        let ghost l = self.offset_list();
        proof { lemma_assoc_map_domain(l, self@.current_section); }
        match self.find_section(&seg, &sec) {
            Some(i) => {
                let (key, _) = self.section_offsets.remove(i);
                self.section_offsets.insert(i, (key, off));
                proof {
                    assert(self.offset_list() =~= l.update(i as int, (l[i as int].0, off)));
                    lemma_assoc_map_update(l, i as int, off);
                    lemma_assoc_map_domain(self.offset_list(), self@.current_section);
                }
            },
            None => {},
        }
    }

    /// Advance the current section offset by `n` bytes.
    pub fn advance(&mut self, n: u64)
        requires
            old(self).wf(),
        ensures
            final(self).wf(),
            final(self)@ == spec_advance(old(self)@, n),
    {
        let off = self.current_offset();
        let next = off.wrapping_add(n);
        proof { lemma_wrapping(off, n, next, 1, 0, 0); }
        self.set_current_offset(next);
    }

    /// Align the current section offset to `alignment` (must be power of two).
    pub fn align_to(&mut self, alignment: u64)
        requires
            old(self).wf(),
            alignment >= 1,
        ensures
            final(self).wf(),
            final(self)@ == spec_align_to(old(self)@, alignment),
    {
        let offset = self.current_offset();
        let aligned = offset.wrapping_add(alignment - 1) & !(alignment - 1);
        let padding = aligned.wrapping_sub(offset);
        proof { lemma_wrapping(offset, 0, 0, alignment, aligned, padding); }
        if padding > 0 {
            self.advance(padding);
        } else {
            proof {
                if self@.section_offsets.contains_key(self@.current_section) {
                    assert(self@.section_offsets.insert(self@.current_section, aligned) =~= self@.section_offsets);
                }
            }
        }
    }

    /// Define a symbol at the current position.
    pub fn define_symbol(&mut self, name: &str, span: Span)
        requires
            old(self).wf(),
        ensures
            final(self).wf(),
            final(self)@ == spec_define_symbol(old(self)@, name@, span),
    {
        let cs = str_chars(name);
        let ghost l = self.symbol_list();
        proof { lemma_assoc_map_domain(l, name@); }
        match self.find_symbol(&cs) {
            Some(_) => {
                let ghost e = self.errors@;
                self.errors.push(AsmError::DuplicateSymbol { name: owned(name), span });
                assert(self@.errors =~= e.map_values(|x: AsmError| x@).push(ErrorView::DuplicateSymbol { name: name@, span }));
            },
            None => {
                let offset = self.current_offset();
                let section = (owned(self.current_section.0.as_str()), owned(self.current_section.1.as_str()));
                let info = SymbolInfo { section, offset, span };
                self.symbols.push((owned(name), info));
                proof {
                    assert(self.symbol_list() =~= l.push((name@, info@)));
                    assert(l.push((name@, info@)).drop_last() == l);
                    lemma_keys_unique_push(l, name@, info@);
                }
            },
        }
    }

    /// Mark a symbol as global.
    pub fn mark_global(&mut self, name: &str)
        requires
            old(self).wf(),
        ensures
            final(self).wf(),
            final(self)@ == spec_mark_global(old(self)@, name@),
    {
        let cs = str_chars(name);
        let ghost g = self@.globals;
        let mut i: usize = 0;
        while i < self.globals.len()
            invariant
                i <= self.globals@.len(),
                self.wf(),
                *self == *old(self),
                cs@ == name@,
                g == self@.globals,
                g.len() == self.globals@.len(),
                forall|k: int| 0 <= k < i ==> g[k] != name@,
            decreases self.globals.len() - i,
        {
            let a = str_chars(self.globals[i].as_str());
            assert(g[i as int] == self.globals@[i as int]@);
            if chars_eq(&a, &cs) {
                assert(g[i as int] == name@);
                return;
            }
            i += 1;
        }
        assert(!g.contains(name@));
        self.globals.push(owned(name));
        assert(self@.globals =~= g.push(name@));
        assert forall|a: int, b: int| 0 <= a < b < self.globals@.len() implies
            #[trigger] self.globals@[a]@ != #[trigger] self.globals@[b]@ by {
            assert(self.globals@[a]@ == self@.globals[a] && self.globals@[b]@ == self@.globals[b]);
        }
    }

    /// Push an assembly error.
    pub fn push_error(&mut self, e: AsmError)
        requires
            old(self).wf(),
        ensures
            final(self).wf(),
            final(self)@ == spec_push_error(old(self)@, e@),
    {
        let ghost es = self.errors@;
        self.errors.push(e);
        assert(self@.errors =~= es.map_values(|x: AsmError| x@).push(e@));
    }

    /// The information recorded for a symbol.
    pub fn symbol(&self, name: &str) -> (r: Option<&SymbolInfo>)
        requires
            self.wf(),
        ensures
            match r {
                Some(info) => self@.symbols.contains_key(name@) && self@.symbols[name@] == info@,
                None => !self@.symbols.contains_key(name@),
            },
    {
        let cs = str_chars(name);
        proof { lemma_assoc_map_domain(self.symbol_list(), name@); }
        match self.find_symbol(&cs) {
            Some(i) => {
                proof { lemma_assoc_map_index(self.symbol_list(), i as int); }
                Some(&self.symbols[i].1)
            },
            None => None,
        }
    }

    /// Whether a name was declared global.
    pub fn is_global(&self, name: &str) -> (r: bool)
        ensures
            r == self@.globals.contains(name@),
    {
        let cs = str_chars(name);
        let mut i: usize = 0;
        while i < self.globals.len()
            invariant
                i <= self.globals@.len(),
                cs@ == name@,
                self@.globals.len() == self.globals@.len(),
                forall|k: int| 0 <= k < i ==> self@.globals[k] != name@,
            decreases self.globals.len() - i,
        {
            let a = str_chars(self.globals[i].as_str());
            assert(self@.globals[i as int] == self.globals@[i as int]@);
            if chars_eq(&a, &cs) {
                assert(self@.globals[i as int] == name@);
                return true;
            }
            i += 1;
        }
        false
    }

    /// The offset recorded for a section, if it was ever entered.
    pub fn section_offset(&self, segment: &str, section: &str) -> (r: Option<u64>)
        requires
            self.wf(),
        ensures
            match r {
                Some(off) => self@.section_offsets.contains_key((segment@, section@))
                    && self@.section_offsets[(segment@, section@)] == off,
                None => !self@.section_offsets.contains_key((segment@, section@)),
            },
    {
        let seg = str_chars(segment);
        let sec = str_chars(section);
        proof { lemma_assoc_map_domain(self.offset_list(), (segment@, section@)); }
        match self.find_section(&seg, &sec) {
            Some(i) => {
                proof { lemma_assoc_map_index(self.offset_list(), i as int); }
                Some(self.section_offsets[i].1)
            },
            None => None,
        }
    }
}

/// The wrapping sums and differences of advancing and aligning an offset, as truncations.
proof fn lemma_wrapping(off: u64, n: u64, next: u64, alignment: u64, aligned: u64, padding: u64)
    by (bit_vector)
    ensures
        next == (if off + n > u64::MAX { off + n - (u64::MAX + 1) } else { off + n }) ==> next == (off + n) as u64,
        (alignment >= 1 && aligned == (if off + (alignment - 1) > u64::MAX { off + (alignment - 1) - (u64::MAX + 1) }
            else { off + (alignment - 1) }) as u64 & !((alignment - 1) as u64)) ==> aligned == aligned_offset(off, alignment),
        padding == (if aligned - off < 0 { aligned - off + (u64::MAX + 1) } else { aligned - off }) as u64
            ==> ((off + padding) as u64) == aligned && (padding == 0 ==> aligned == off),
{
}

} // verus!
