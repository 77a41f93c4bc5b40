//! The contents of the object file being built: sections, symbols, relocations, metadata.

use vstd::prelude::*;
use crate::text::{chars_eq, str_chars};
use crate::types::directive::{BuildVersion, Platform, SectionSpec};
use crate::types::error::owned;
use crate::types::reloc::PendingRelocation;
use crate::macho::{infer_section_kind, spec_section_kind, ObjectError, SectionIndex, SectionKind, SymbolIndex, SymbolKind, SymbolScope};
use crate::macho::reloc::{reloc_flags, reloc_kind_name, spec_reloc_flags, unsupported_detail, MachORelocFlags};
use crate::types::reloc::RelocView;
use crate::macho::version::{parse_version, spec_parse_version};

verus! {

/// A section: its names, kind, bytes and alignment.
pub struct SectionEntry {
    pub segment: String,
    pub name: String,
    pub kind: SectionKind,
    pub data: Vec<u8>,
    pub align: u64,
}

/// The abstract value of a section.
pub struct SectionView {
    pub segment: Seq<char>,
    pub name: Seq<char>,
    pub kind: SectionKind,
    pub data: Seq<u8>,
    pub align: u64,
}

impl View for SectionEntry {
    type V = SectionView;

    open spec fn view(&self) -> SectionView {
        SectionView { segment: self.segment@, name: self.name@, kind: self.kind, data: self.data@, align: self.align }
    }
}

/// A symbol: its name, value, kind, scope and section (`None` when undefined).
pub struct SymbolEntry {
    pub name: String,
    pub value: u64,
    pub kind: SymbolKind,
    pub scope: SymbolScope,
    pub section: Option<SectionIndex>,
}

/// The abstract value of a symbol.
pub struct SymbolView {
    pub name: Seq<char>,
    pub value: u64,
    pub kind: SymbolKind,
    pub scope: SymbolScope,
    pub section: Option<SectionIndex>,
}

impl View for SymbolEntry {
    type V = SymbolView;

    open spec fn view(&self) -> SymbolView {
        SymbolView { name: self.name@, value: self.value, kind: self.kind, scope: self.scope, section: self.section }
    }
}

/// A relocation at `offset` of `section` against `symbol`.
#[derive(Debug, Clone, Copy, PartialEq, Eq, Structural)]
pub struct RelocationEntry {
    pub section: SectionIndex,
    pub offset: u64,
    pub symbol: SymbolIndex,
    pub addend: i64,
    pub flags: MachORelocFlags,
}

/// The fields of the `LC_BUILD_VERSION` load command.
#[derive(Debug, Clone, Copy, PartialEq, Eq, Structural)]
pub struct BuildVersionFields {
    pub platform: u32,
    pub minos: u32,
    pub sdk: u32,
}

/// Builder for Mach-O ARM64 relocatable object files.
pub struct ObjectBuilder {
    sections: Vec<SectionEntry>,
    symbols: Vec<SymbolEntry>,
    relocations: Vec<RelocationEntry>,
    current_section: Option<SectionIndex>,
    subsections_via_symbols: bool,
    build_version: Option<BuildVersionFields>,
}

/// The abstract value of an object file under construction.
pub struct ObjectView {
    pub sections: Seq<SectionView>,
    pub symbols: Seq<SymbolView>,
    pub relocations: Seq<RelocationEntry>,
    pub current_section: Option<SectionIndex>,
    pub subsections_via_symbols: bool,
    pub build_version: Option<BuildVersionFields>,
}

/// `a` is a power of two.
pub open spec fn is_pow2(a: u64) -> bool {
    a != 0 && a & ((a - 1) as u64) == 0
}

/// One and four are powers of two.
pub proof fn lemma_small_pow2()
    ensures
        is_pow2(1),
        is_pow2(4),
{
    lemma_shl_pow2(0);
}

/// `1 << val` is a power of two, for a shift of at most 30; so are one and four.
pub proof fn lemma_shl_pow2(val: u64)
    by (bit_vector)
    requires
        val <= 30,
    ensures
        is_pow2(1u64 << val),
        is_pow2(1),
        is_pow2(4),
{
}

impl ObjectView {
    /// Section names are unique, kinds follow the names, alignments are powers of two, and
    /// every index refers to an existing section or symbol.
    pub open spec fn wf(self) -> bool {
        &&& forall|i: int, j: int| 0 <= i < j < self.sections.len() ==>
            !(#[trigger] self.sections[i].segment == #[trigger] self.sections[j].segment
                && self.sections[i].name == self.sections[j].name)
        &&& forall|i: int| 0 <= i < self.sections.len() ==>
            (#[trigger] self.sections[i]).kind == spec_section_kind(self.sections[i].segment, self.sections[i].name)
                && is_pow2(self.sections[i].align)
        &&& (self.current_section matches Some(id) ==> id.0 < self.sections.len())
        &&& forall|i: int| 0 <= i < self.symbols.len() ==>
            ((#[trigger] self.symbols[i]).section matches Some(id) ==> id.0 < self.sections.len()
                && self.symbols[i].scope != SymbolScope::Unknown)
        &&& forall|i: int| 0 <= i < self.relocations.len() ==>
            (#[trigger] self.relocations[i]).section.0 < self.sections.len()
                && self.relocations[i].symbol.0 < self.symbols.len()
                && self.relocations[i].flags.r_length == 2
    }
}

/// The index of the section with these names, if there is one.
pub open spec fn section_index(v: ObjectView, segment: Seq<char>, name: Seq<char>) -> Option<int> {
    if exists|i: int| 0 <= i < v.sections.len() && v.sections[i].segment == segment && v.sections[i].name == name {
        Some(choose|i: int| 0 <= i < v.sections.len() && v.sections[i].segment == segment && v.sections[i].name == name)
    } else {
        None
    }
}

/// A fresh, empty section.
pub open spec fn new_section(segment: Seq<char>, name: Seq<char>) -> SectionView {
    SectionView { segment, name, kind: spec_section_kind(segment, name), data: Seq::empty(), align: 1 }
}

/// The object after looking up, or else adding, a section; and the section's index.
pub open spec fn spec_get_or_create(v: ObjectView, segment: Seq<char>, name: Seq<char>) -> (ObjectView, int) {
    match section_index(v, segment, name) {
        Some(i) => (v, i),
        None => (ObjectView { sections: v.sections.push(new_section(segment, name)), ..v }, v.sections.len() as int),
    }
}

/// `len` rounded up to a multiple of `align`.
pub open spec fn padded_len(len: int, align: int) -> int {
    if len % align == 0 { len } else { len + align - len % align }
}

/// The section after appending `bytes` at the next multiple of `align`, padding with zeros.
pub open spec fn append_to(s: SectionView, bytes: Seq<u8>, align: u64) -> SectionView {
    let off = padded_len(s.data.len() as int, align as int);
    SectionView {
        data: s.data + Seq::new((off - s.data.len()) as nat, |i: int| 0u8) + bytes,
        align: if s.align < align { align } else { s.align },
        ..s
    }
}

/// Whether appending to the section keeps its end within 64 bits.
pub open spec fn fits_append(s: SectionView, bytes: Seq<u8>, align: u64) -> bool {
    padded_len(s.data.len() as int, align as int) + bytes.len() <= u64::MAX
}

/// The object with `bytes` appended to section `id`.
pub open spec fn spec_append(v: ObjectView, id: SectionIndex, bytes: Seq<u8>, align: u64) -> ObjectView {
    ObjectView { sections: v.sections.update(id.0 as int, append_to(v.sections[id.0 as int], bytes, align)), ..v }
}

/// The little-endian bytes of the low `n` bytes of `v`.
pub open spec fn le_bytes(v: u64, n: nat) -> Seq<u8> {
    Seq::new(n, |i: int| ((v >> ((8 * i) as u64)) & 0xFF) as u8)
}

/// The outcome of emitting bytes into the current section: the new object and the offset of
/// the bytes, or `None` when there is no current section or the section would outgrow 64 bits.
pub open spec fn spec_emit(v: ObjectView, bytes: Seq<u8>, align: u64) -> Option<(ObjectView, u64)> {
    match v.current_section {
        None => None,
        Some(id) => if fits_append(v.sections[id.0 as int], bytes, align) {
            Some((spec_append(v, id, bytes, align), padded_len(v.sections[id.0 as int].data.len() as int, align as int) as u64))
        } else {
            None
        },
    }
}

/// The message of the error an emission that `spec_emit` refuses reports.
pub open spec fn emit_failure(v: ObjectView) -> Seq<char> {
    if v.current_section is None {
        "no current section selected"@
    } else {
        "object write error: "@ + "section data would exceed 64-bit offsets"@
    }
}

/// The index of the last symbol with this name: the one a lookup by name finds.
pub open spec fn last_named(syms: Seq<SymbolView>, name: Seq<char>) -> Option<int>
    decreases syms.len(),
{
    if syms.len() == 0 {
        None
    } else if syms.last().name == name {
        Some(syms.len() - 1)
    } else {
        last_named(syms.drop_last(), name)
    }
}

pub proof fn lemma_last_named(syms: Seq<SymbolView>, name: Seq<char>)
    ensures
        last_named(syms, name) matches Some(i) ==> 0 <= i < syms.len() && syms[i].name == name
            && forall|j: int| i < j < syms.len() ==> syms[j].name != name,
        last_named(syms, name) is None ==> forall|j: int| 0 <= j < syms.len() ==> syms[j].name != name,
    decreases syms.len(),
{
    if syms.len() > 0 {
        lemma_last_named(syms.drop_last(), name);
        assert(forall|j: int| 0 <= j < syms.len() - 1 ==> syms.drop_last()[j] == syms[j]);
    }
}

proof fn lemma_wf_symbols(v: ObjectView, syms: Seq<SymbolView>)
    requires
        v.wf(),
        syms.len() >= v.symbols.len(),
        forall|i: int| 0 <= i < syms.len() ==> ((#[trigger] syms[i]).section matches Some(id) ==> id.0 < v.sections.len()
            && syms[i].scope != SymbolScope::Unknown),
    ensures
        (ObjectView { symbols: syms, ..v }).wf(),
{
}

proof fn lemma_wf_relocations(v: ObjectView, relocs: Seq<RelocationEntry>)
    requires
        v.wf(),
        forall|i: int| 0 <= i < relocs.len() ==>
            (#[trigger] relocs[i]).section.0 < v.sections.len() && relocs[i].symbol.0 < v.symbols.len()
                && relocs[i].flags.r_length == 2,
    ensures
        (ObjectView { relocations: relocs, ..v }).wf(),
{
}

proof fn lemma_wf_sections(v: ObjectView, secs: Seq<SectionView>)
    requires
        v.wf(),
        secs.len() >= v.sections.len(),
        forall|i: int, j: int| 0 <= i < j < secs.len() ==>
            !(#[trigger] secs[i].segment == #[trigger] secs[j].segment && secs[i].name == secs[j].name),
        forall|i: int| 0 <= i < secs.len() ==>
            (#[trigger] secs[i]).kind == spec_section_kind(secs[i].segment, secs[i].name) && is_pow2(secs[i].align),
    ensures
        (ObjectView { sections: secs, ..v }).wf(),
{
}

/// An undefined symbol with this name.
pub open spec fn external_symbol(name: Seq<char>) -> SymbolView {
    SymbolView { name, value: 0, kind: SymbolKind::Unknown, scope: SymbolScope::Unknown, section: None }
}

/// The object after looking up a symbol by name, or else declaring it undefined; and its index.
pub open spec fn spec_declare(v: ObjectView, name: Seq<char>) -> (ObjectView, int) {
    match last_named(v.symbols, name) {
        Some(i) => (v, i),
        None => (ObjectView { symbols: v.symbols.push(external_symbol(name)), ..v }, v.symbols.len() as int),
    }
}

/// The symbol a label defines at `offset` of `section`.
pub open spec fn defined_symbol(v: ObjectView, name: Seq<char>, offset: u64, section: SectionIndex) -> SymbolView {
    SymbolView {
        name,
        value: offset,
        kind: if v.sections[section.0 as int].kind == SectionKind::Text { SymbolKind::Text } else { SymbolKind::Data },
        scope: SymbolScope::Compilation,
        section: Some(section),
    }
}

/// The object after a label defines `name` at `offset` of `section`.
pub open spec fn spec_define(v: ObjectView, name: Seq<char>, offset: u64, section: SectionIndex) -> ObjectView {
    ObjectView { symbols: v.symbols.push(defined_symbol(v, name, offset, section)), ..v }
}

/// The object after exporting the symbol a lookup by `name` finds, and whether there was one.
pub open spec fn spec_set_global(v: ObjectView, name: Seq<char>) -> (ObjectView, bool) {
    match last_named(v.symbols, name) {
        Some(i) => (ObjectView { symbols: v.symbols.update(i, SymbolView { scope: SymbolScope::Dynamic, ..v.symbols[i] }), ..v }, true),
        None => (v, false),
    }
}

/// The object after adding a relocation, and the message of the error when the kind has no
/// Mach-O relocation (its symbol is declared either way).
pub open spec fn spec_add_relocation(v: ObjectView, section: SectionIndex, offset: u64, r: RelocView) -> (ObjectView, Option<Seq<char>>) {
    let (v1, sym) = spec_declare(v, r.symbol);
    match spec_reloc_flags(r.kind) {
        Some(flags) => (ObjectView {
            relocations: v1.relocations.push(RelocationEntry { section, offset, symbol: SymbolIndex(sym as usize), addend: r.addend, flags }),
            ..v1
        }, None),
        None => (v1, Some("unsupported relocation kind "@ + reloc_kind_name(r.kind) + ": "@ + unsupported_detail(r.kind))),
    }
}

/// The Mach-O platform number of a platform.
pub open spec fn platform_code(p: Platform) -> u32 {
    match p {
        Platform::MacOS => 1,
        Platform::IOS => 2,
        Platform::TvOS => 3,
        Platform::WatchOS => 4,
    }
}

impl View for ObjectBuilder {
    type V = ObjectView;

    closed spec fn view(&self) -> ObjectView {
        ObjectView {
            sections: self.sections@.map_values(|s: SectionEntry| s@),
            symbols: self.symbols@.map_values(|s: SymbolEntry| s@),
            relocations: self.relocations@,
            current_section: self.current_section,
            subsections_via_symbols: self.subsections_via_symbols,
            build_version: self.build_version,
        }
    }
}

impl Default for ObjectBuilder {
    /// An empty object, with no section selected.
    fn default() -> (r: ObjectBuilder)
        ensures
            r@.wf(),
            r@.sections.len() == 0,
            r@.symbols.len() == 0,
            r@.relocations.len() == 0,
            r@.current_section is None,
            !r@.subsections_via_symbols,
            r@.build_version is None,
    {
        ObjectBuilder::new()
    }
}

impl ObjectBuilder {
    /// Create an empty builder targeting ARM64 macOS.
    pub fn new() -> (r: ObjectBuilder)
        ensures
            r@.wf(),
            r@.sections.len() == 0,
            r@.symbols.len() == 0,
            r@.relocations.len() == 0,
            r@.current_section is None,
            !r@.subsections_via_symbols,
            r@.build_version is None,
    {
        let r = ObjectBuilder {
            sections: Vec::new(),
            symbols: Vec::new(),
            relocations: Vec::new(),
            current_section: None,
            subsections_via_symbols: false,
            build_version: None,
        };
        assert(r@.sections =~= Seq::<SectionView>::empty());
        assert(r@.symbols =~= Seq::<SymbolView>::empty());
        r
    }

    /// Get or create a section, deduplicating by (segment, section) pair.
    pub fn get_or_create_section(&mut self, segment: &str, section: &str) -> (r: SectionIndex)
        requires
            old(self)@.wf(),
        ensures
            final(self)@.wf(),
            (final(self)@, r.0 as int) == spec_get_or_create(old(self)@, segment@, section@),
    {
        let seg = str_chars(segment);
        let sec = str_chars(section);
        let ghost v = self@;
        let mut i: usize = 0;
        while i < self.sections.len()
            invariant
                self@ == v,
                v.wf(),
                seg@ == segment@,
                sec@ == section@,
                i <= self.sections@.len(),
                forall|k: int| 0 <= k < i ==> !(v.sections[k].segment == segment@ && v.sections[k].name == section@),
            decreases self.sections.len() - i,
        {
            let a = str_chars(self.sections[i].segment.as_str());
            let b = str_chars(self.sections[i].name.as_str());
            assert(v.sections[i as int] == self.sections@[i as int]@);
            if chars_eq(&a, &seg) && chars_eq(&b, &sec) {
                proof {
                    assert(exists|k: int| 0 <= k < v.sections.len() && v.sections[k].segment == segment@ && v.sections[k].name == section@);
                    let c = choose|k: int| 0 <= k < v.sections.len() && v.sections[k].segment == segment@ && v.sections[k].name == section@;
                    if c != i as int {
                        if c < i {
                        } else {
                            assert(!(v.sections[i as int].segment == v.sections[c].segment && v.sections[i as int].name == v.sections[c].name));
                        }
                    }
                }
                return SectionIndex(i);
            }
            i += 1;
        }
        let kind = infer_section_kind(segment, section);
        let entry = SectionEntry { segment: owned(segment), name: owned(section), kind, data: Vec::new(), align: 1 };
        assert(entry@ == new_section(segment@, section@)) by {
            assert(entry@.data =~= Seq::<u8>::empty());
        }
        proof { lemma_small_pow2(); }
        let id = SectionIndex(self.sections.len());
        self.sections.push(entry);
        assert(self@.sections =~= v.sections.push(new_section(segment@, section@)));
        proof {
            let secs = v.sections.push(new_section(segment@, section@));
            assert forall|a: int, b: int| 0 <= a < b < secs.len() implies
                !(#[trigger] secs[a].segment == #[trigger] secs[b].segment && secs[a].name == secs[b].name) by {
                if b < v.sections.len() {
                    assert(secs[a] == v.sections[a] && secs[b] == v.sections[b]);
                } else {
                    assert(secs[a] == v.sections[a]);
                }
            }
            assert forall|a: int| 0 <= a < secs.len() implies
                (#[trigger] secs[a]).kind == spec_section_kind(secs[a].segment, secs[a].name) && is_pow2(secs[a].align) by {
                if a < v.sections.len() {
                    assert(secs[a] == v.sections[a]);
                }
            }
            lemma_wf_sections(v, secs);
            assert(self@ == (ObjectView { sections: secs, ..v }));
        }
        id
    }

    /// Switch the current section, creating it if needed.
    pub fn switch_section(&mut self, segment: &str, section: &str) -> (r: SectionIndex)
        requires
            old(self)@.wf(),
        ensures
            final(self)@.wf(),
            ({
                let (v, i) = spec_get_or_create(old(self)@, segment@, section@);
                r.0 == i && final(self)@ == (ObjectView { current_section: Some(r), ..v })
            }),
    {
        let id = self.get_or_create_section(segment, section);
        self.current_section = Some(id);
        id
    }

    /// Switch to a section from a `.section` directive.
    pub fn switch_section_spec(&mut self, spec: &SectionSpec) -> (r: SectionIndex)
        requires
            old(self)@.wf(),
        ensures
            final(self)@.wf(),
            ({
                let (v, i) = spec_get_or_create(old(self)@, spec.segment@, spec.section@);
                r.0 == i && final(self)@ == (ObjectView { current_section: Some(r), ..v })
            }),
    {
        self.switch_section(spec.segment.as_str(), spec.section.as_str())
    }

    /// Return the current section, if any.
    pub fn current_section(&self) -> (r: Option<SectionIndex>)
        ensures
            r == self@.current_section,
    {
        self.current_section
    }

    /// Return the current size of the given section.
    pub fn section_offset(&self, section: SectionIndex) -> (r: u64)
        requires
            section.0 < self@.sections.len(),
        ensures
            r == self@.sections[section.0 as int].data.len(),
    {
        assert(self@.sections[section.0 as int] == self.sections@[section.0 as int]@);
        self.sections[section.0].data.len() as u64
    }

    /// Append bytes to a section at the next multiple of `align`.
    fn append(&mut self, id: SectionIndex, bytes: &[u8], align: u64) -> (r: Result<u64, ObjectError>)
        requires
            old(self)@.wf(),
            id.0 < old(self)@.sections.len(),
            is_pow2(align),
        ensures
            final(self)@.wf(),
            fits_append(old(self)@.sections[id.0 as int], bytes@, align) ==> r == Ok::<u64, ObjectError>(
                padded_len(old(self)@.sections[id.0 as int].data.len() as int, align as int) as u64)
                && final(self)@ == spec_append(old(self)@, id, bytes@, align),
            !fits_append(old(self)@.sections[id.0 as int], bytes@, align) ==>
                (r matches Err(e) && e.message() == "object write error: "@ + "section data would exceed 64-bit offsets"@)
                && final(self)@ == old(self)@,
    {
        let ghost v = self@;
        let ghost s = v.sections[id.0 as int];
        assert(s == self.sections@[id.0 as int]@);
        let len = self.sections[id.0].data.len() as u64;
        let rem = len % align;
        let pad: u64 = if rem != 0 { align - rem } else { 0 };
        if len > u64::MAX - pad || len + pad > u64::MAX - bytes.len() as u64 {
            return Err(ObjectError::Write { detail: owned("section data would exceed 64-bit offsets") });
        }
        let offset = len + pad;
        assert(offset == padded_len(s.data.len() as int, align as int));
        let mut entry = self.sections.remove(id.0);
        assert(entry@ == s);
        let mut k: u64 = 0;
        while k < pad
            invariant
                k <= pad,
                entry.data@ == s.data + Seq::new(k as nat, |i: int| 0u8),
                entry.segment@ == s.segment, entry.name@ == s.name, entry.kind == s.kind, entry.align == s.align,
            decreases pad - k,
        {
            entry.data.push(0u8);
            assert(entry.data@ =~= s.data + Seq::new((k + 1) as nat, |i: int| 0u8));
            k += 1;
        }
        let mut j: usize = 0;
        while j < bytes.len()
            invariant
                j <= bytes.len(),
                entry.data@ == s.data + Seq::new(pad as nat, |i: int| 0u8) + bytes@.take(j as int),
                entry.segment@ == s.segment, entry.name@ == s.name, entry.kind == s.kind, entry.align == s.align,
            decreases bytes.len() - j,
        {
            entry.data.push(bytes[j]);
            assert(entry.data@ =~= s.data + Seq::new(pad as nat, |i: int| 0u8) + bytes@.take(j + 1));
            j += 1;
        }
        assert(bytes@.take(bytes.len() as int) == bytes@);
        if entry.align < align {
            entry.align = align;
        }
        assert(entry@ == append_to(s, bytes@, align));
        self.sections.insert(id.0, entry);
        assert(self@.sections =~= v.sections.update(id.0 as int, append_to(s, bytes@, align)));
        proof {
            let secs = v.sections.update(id.0 as int, append_to(s, bytes@, align));
            assert(is_pow2(entry.align));
            assert forall|a: int, b: int| 0 <= a < b < secs.len() implies
                !(#[trigger] secs[a].segment == #[trigger] secs[b].segment && secs[a].name == secs[b].name) by {
                assert(secs[a].segment == v.sections[a].segment && secs[a].name == v.sections[a].name);
                assert(secs[b].segment == v.sections[b].segment && secs[b].name == v.sections[b].name);
            }
            assert forall|a: int| 0 <= a < secs.len() implies
                (#[trigger] secs[a]).kind == spec_section_kind(secs[a].segment, secs[a].name) && is_pow2(secs[a].align) by {
                if a != id.0 {
                    assert(secs[a] == v.sections[a]);
                }
            }
            lemma_wf_sections(v, secs);
        }
        Ok(offset)
    }

    /// Emit a 32-bit instruction to the current section (4-byte aligned).
    pub fn emit_instruction(&mut self, bits: u32) -> (r: Result<u64, ObjectError>)
        requires
            old(self)@.wf(),
        ensures
            final(self)@.wf(),
            match spec_emit(old(self)@, le_bytes(bits as u64, 4), 4) {
                Some((v, off)) => r == Ok::<u64, ObjectError>(off) && final(self)@ == v,
                None => (r matches Err(e) && e.message() == emit_failure(old(self)@)) && final(self)@ == old(self)@,
            },
    {
        let bytes: [u8; 4] = [
            (bits & 0xFF) as u8,
            ((bits >> 8) & 0xFF) as u8,
            ((bits >> 16) & 0xFF) as u8,
            ((bits >> 24) & 0xFF) as u8,
        ];
        proof {
            let b = bits as u64;
            assert(bytes@ =~= le_bytes(b, 4)) by {
                assert((bits & 0xFF) as u8 == ((b >> 0u64) & 0xFF) as u8
                    && ((bits >> 8) & 0xFF) as u8 == ((b >> 8u64) & 0xFF) as u8
                    && ((bits >> 16) & 0xFF) as u8 == ((b >> 16u64) & 0xFF) as u8
                    && ((bits >> 24) & 0xFF) as u8 == ((b >> 24u64) & 0xFF) as u8) by (bit_vector)
                    requires
                        b == bits as u64,
                ;
            }
            lemma_small_pow2();
        }
        match self.current_section {
            None => Err(ObjectError::NoCurrentSection),
            Some(id) => self.append(id, bytes.as_slice(), 4),
        }
    }

    /// Emit raw data to the current section.
    pub fn emit_data(&mut self, data: &[u8], align: u64) -> (r: Result<u64, ObjectError>)
        requires
            old(self)@.wf(),
            is_pow2(align),
        ensures
            final(self)@.wf(),
            match spec_emit(old(self)@, data@, align) {
                Some((v, off)) => r == Ok::<u64, ObjectError>(off) && final(self)@ == v,
                None => (r matches Err(e) && e.message() == emit_failure(old(self)@)) && final(self)@ == old(self)@,
            },
    {
        match self.current_section {
            None => Err(ObjectError::NoCurrentSection),
            Some(id) => self.append(id, data, align),
        }
    }

    /// Pad the current section to the given alignment.
    pub fn emit_align(&mut self, align: u64) -> (r: Result<(), ObjectError>)
        requires
            old(self)@.wf(),
            is_pow2(align),
        ensures
            final(self)@.wf(),
            match spec_emit(old(self)@, Seq::empty(), align) {
                Some((v, off)) => r is Ok && final(self)@ == v,
                None => (r matches Err(e) && e.message() == emit_failure(old(self)@)) && final(self)@ == old(self)@,
            },
    {
        let empty: [u8; 0] = [];
        assert(empty@ =~= Seq::<u8>::empty());
        match self.current_section {
            None => Err(ObjectError::NoCurrentSection),
            Some(id) => {
                match self.append(id, empty.as_slice(), align) {
                    Ok(_) => Ok(()),
                    Err(e) => Err(e),
                }
            },
        }
    }

    /// Return the current write offset in the current section.
    pub fn current_offset(&self) -> (r: Result<u64, ObjectError>)
        requires
            self@.wf(),
        ensures
            match self@.current_section {
                Some(id) => r == Ok::<u64, ObjectError>(self@.sections[id.0 as int].data.len() as u64),
                None => r matches Err(ObjectError::NoCurrentSection),
            },
    {
        match self.current_section {
            None => Err(ObjectError::NoCurrentSection),
            Some(id) => Ok(self.section_offset(id)),
        }
    }

    /// Define a symbol at the given offset in the given section.
    pub fn define_symbol(&mut self, name: &str, offset: u64, section: SectionIndex) -> (r: Result<SymbolIndex, ObjectError>)
        requires
            old(self)@.wf(),
            section.0 < old(self)@.sections.len(),
        ensures
            final(self)@.wf(),
            r == Ok::<SymbolIndex, ObjectError>(SymbolIndex(old(self)@.symbols.len() as usize)),
            final(self)@ == spec_define(old(self)@, name@, offset, section),
    {
        assert(self@.sections[section.0 as int] == self.sections@[section.0 as int]@);
        let kind = match self.sections[section.0].kind {
            SectionKind::Text => SymbolKind::Text,
            _ => SymbolKind::Data,
        };
        let id = SymbolIndex(self.symbols.len());
        let ghost v = self@;
        self.symbols.push(SymbolEntry {
            name: owned(name),
            value: offset,
            kind,
            scope: SymbolScope::Compilation,
            section: Some(section),
        });
        assert(self@.symbols =~= v.symbols.push(defined_symbol(v, name@, offset, section)));
        proof {
            let syms = v.symbols.push(defined_symbol(v, name@, offset, section));
            assert forall|a: int| 0 <= a < syms.len() implies
                ((#[trigger] syms[a]).section matches Some(sid) ==> sid.0 < v.sections.len() && syms[a].scope != SymbolScope::Unknown) by {
                if a < v.symbols.len() { assert(syms[a] == v.symbols[a]); }
            }
            lemma_wf_symbols(v, syms);
        }
        Ok(id)
    }

    /// The message of the error an emission that `spec_emit` refuses reports.
pub open spec fn emit_failure(v: ObjectView) -> Seq<char> {
    if v.current_section is None {
        "no current section selected"@
    } else {
        "object write error: "@ + "section data would exceed 64-bit offsets"@
    }
}

/// The index of the last symbol with this name.
    fn find_symbol(&self, name: &str) -> (r: Option<usize>)
        ensures
            self@.symbols.len() == self.symbols@.len(),
            self@.symbols.len() <= usize::MAX,
            match last_named(self@.symbols, name@) {
                Some(i) => r == Some(i as usize),
                None => r is None,
            },
    {
        let cs = str_chars(name);
        let mut i = self.symbols.len();
        proof { lemma_last_named(self@.symbols, name@); }
        assert(self@.symbols.take(i as int) =~= self@.symbols);
        while i > 0
            invariant
                i <= self.symbols@.len(),
                cs@ == name@,
                self@.symbols.len() == self.symbols@.len(),
            self@.symbols.len() <= usize::MAX,
                forall|j: int| i <= j < self@.symbols.len() ==> self@.symbols[j].name != name@,
                last_named(self@.symbols, name@) == last_named(self@.symbols.take(i as int), name@),
            decreases i,
        {
            let sc = str_chars(self.symbols[i - 1].name.as_str());
            assert(self@.symbols[i - 1] == self.symbols@[i - 1]@);
            assert(self@.symbols.take(i as int).drop_last() == self@.symbols.take(i - 1));
            if chars_eq(&sc, &cs) {
                return Some(i - 1);
            }
            i -= 1;
        }
        None
    }

    /// Upgrade a symbol to global (dynamic) scope.
    /// Returns `true` if the symbol was found and upgraded, `false` if unknown.
    pub fn set_global(&mut self, name: &str) -> (r: bool)
        requires
            old(self)@.wf(),
        ensures
            final(self)@.wf(),
            (final(self)@, r) == spec_set_global(old(self)@, name@),
    {
        proof { lemma_last_named(self@.symbols, name@); }
        match self.find_symbol(name) {
            Some(i) => {
                let ghost v = self@;
                let mut sym = self.symbols.remove(i);
                sym.scope = SymbolScope::Dynamic;
                self.symbols.insert(i, sym);
                assert(self@.symbols =~= v.symbols.update(i as int, SymbolView { scope: SymbolScope::Dynamic, ..v.symbols[i as int] }));
                proof {
                    let syms = v.symbols.update(i as int, SymbolView { scope: SymbolScope::Dynamic, ..v.symbols[i as int] });
                    assert forall|a: int| 0 <= a < syms.len() implies
                        ((#[trigger] syms[a]).section matches Some(sid) ==> sid.0 < v.sections.len() && syms[a].scope != SymbolScope::Unknown) by {
                        assert(syms[a].section == v.symbols[a].section);
                    }
                    lemma_wf_symbols(v, syms);
                }
                true
            },
            None => false,
        }
    }

    /// Declare an external (undefined) symbol. Returns existing ID if already known.
    pub fn declare_external(&mut self, name: &str) -> (r: SymbolIndex)
        requires
            old(self)@.wf(),
        ensures
            final(self)@.wf(),
            (final(self)@, r.0 as int) == spec_declare(old(self)@, name@),
    {
        proof { lemma_last_named(self@.symbols, name@); }
        match self.find_symbol(name) {
            Some(i) => SymbolIndex(i),
            None => {
                let ghost v = self@;
                let id = SymbolIndex(self.symbols.len());
                self.symbols.push(SymbolEntry {
                    name: owned(name),
                    value: 0,
                    kind: SymbolKind::Unknown,
                    scope: SymbolScope::Unknown,
                    section: None,
                });
                assert(self@.symbols =~= v.symbols.push(external_symbol(name@)));
                proof {
                    let syms = v.symbols.push(external_symbol(name@));
                    assert forall|a: int| 0 <= a < syms.len() implies
                        ((#[trigger] syms[a]).section matches Some(sid) ==> sid.0 < v.sections.len() && syms[a].scope != SymbolScope::Unknown) by {
                        if a < v.symbols.len() { assert(syms[a] == v.symbols[a]); }
                    }
                    lemma_wf_symbols(v, syms);
                }
                id
            },
        }
    }

    /// Get or create a symbol — returns existing if known, otherwise creates external.
    pub fn ensure_symbol(&mut self, name: &str) -> (r: SymbolIndex)
        requires
            old(self)@.wf(),
        ensures
            final(self)@.wf(),
            (final(self)@, r.0 as int) == spec_declare(old(self)@, name@),
    {
        proof { lemma_last_named(self@.symbols, name@); }
        match self.find_symbol(name) {
            Some(i) => SymbolIndex(i),
            None => self.declare_external(name),
        }
    }

    /// Look up a symbol ID by name.
    pub fn symbol_id(&self, name: &str) -> (r: Option<SymbolIndex>)
        ensures
            match last_named(self@.symbols, name@) {
                Some(i) => r == Some(SymbolIndex(i as usize)),
                None => r is None,
            },
    {
        match self.find_symbol(name) {
            Some(i) => Some(SymbolIndex(i)),
            None => None,
        }
    }

    /// The scope of a symbol, if the index names one.
    pub fn symbol_scope(&self, id: SymbolIndex) -> (r: Option<SymbolScope>)
        ensures
            id.0 < self@.symbols.len() ==> r == Some(self@.symbols[id.0 as int].scope),
            id.0 >= self@.symbols.len() ==> r is None,
    {
        if id.0 < self.symbols.len() {
            assert(self@.symbols[id.0 as int] == self.symbols@[id.0 as int]@);
            Some(self.symbols[id.0].scope)
        } else {
            None
        }
    }

    /// Add a relocation at the given offset in the given section.
    pub fn add_relocation(&mut self, section: SectionIndex, offset: u64, pending: &PendingRelocation) -> (r: Result<(), ObjectError>)
        requires
            old(self)@.wf(),
            section.0 < old(self)@.sections.len(),
        ensures
            final(self)@.wf(),
            final(self)@ == spec_add_relocation(old(self)@, section, offset, pending@).0,
            match spec_add_relocation(old(self)@, section, offset, pending@).1 {
                None => r is Ok,
                Some(msg) => r matches Err(e) && e.message() == msg,
            },
    {
        proof { lemma_last_named(self@.symbols, pending.symbol@); }
        let symbol = self.ensure_symbol(pending.symbol.as_str());
        assert(symbol.0 < self@.symbols.len());
        let flags = reloc_flags(pending.kind)?;
        let ghost v = self@;
        self.relocations.push(RelocationEntry { section, offset, symbol, addend: pending.addend, flags });
        assert(self@.relocations =~= v.relocations.push(RelocationEntry {
            section, offset, symbol, addend: pending.addend, flags,
        }));
        proof {
            let rs = v.relocations.push(RelocationEntry { section, offset, symbol, addend: pending.addend, flags });
            assert forall|a: int| 0 <= a < rs.len() implies
                (#[trigger] rs[a]).section.0 < v.sections.len() && rs[a].symbol.0 < v.symbols.len()
                    && rs[a].flags.r_length == 2 by {
                if a < v.relocations.len() { assert(rs[a] == v.relocations[a]); }
            }
            lemma_wf_relocations(v, rs);
        }
        Ok(())
    }

    /// Set the `MH_SUBSECTIONS_VIA_SYMBOLS` flag.
    pub fn set_subsections_via_symbols(&mut self)
        requires
            old(self)@.wf(),
        ensures
            final(self)@.wf(),
            final(self)@ == (ObjectView { subsections_via_symbols: true, ..old(self)@ }),
    {
        self.subsections_via_symbols = true;
    }

    /// Set the build version from a `.build_version` directive.
    pub fn set_build_version(&mut self, bv: &BuildVersion)
        requires
            old(self)@.wf(),
        ensures
            final(self)@.wf(),
            final(self)@ == (ObjectView {
                build_version: Some(BuildVersionFields {
                    platform: platform_code(bv.platform),
                    minos: spec_parse_version(bv.min_version@),
                    sdk: 0,
                }),
                ..old(self)@
            }),
    {
        let platform: u32 = match bv.platform {
            Platform::MacOS => 1,
            Platform::IOS => 2,
            Platform::TvOS => 3,
            Platform::WatchOS => 4,
        };
        let minos = parse_version(bv.min_version.as_str());
        self.build_version = Some(BuildVersionFields { platform, minos, sdk: 0 });
    }

    /// The sections, for writing out.
    pub(crate) fn sections(&self) -> (r: &Vec<SectionEntry>)
        ensures
            r@.map_values(|s: SectionEntry| s@) == self@.sections,
    {
        &self.sections
    }

    /// The symbols, for writing out.
    pub(crate) fn symbols(&self) -> (r: &Vec<SymbolEntry>)
        ensures
            r@.map_values(|s: SymbolEntry| s@) == self@.symbols,
    {
        &self.symbols
    }

    /// The relocations, for writing out.
    pub(crate) fn relocations(&self) -> (r: &Vec<RelocationEntry>)
        ensures
            r@ == self@.relocations,
    {
        &self.relocations
    }

    /// The file metadata, for writing out.
    pub(crate) fn metadata(&self) -> (r: (bool, Option<BuildVersionFields>))
        ensures
            r == (self@.subsections_via_symbols, self@.build_version),
    {
        (self.subsections_via_symbols, self.build_version)
    }
}

} // verus!
