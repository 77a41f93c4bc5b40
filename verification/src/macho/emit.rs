//! Writing the collected object file out through the `object` crate.
//!
//! The `object` crate's writer is opaque here. What it holds is named by `writer_sections`,
//! `writer_symbols` and `writer_header`, and the file it writes by `macho_image`; the items
//! below state how each call changes what the writer holds.

use vstd::prelude::*;
use object::write::{Object, SectionId as ObjSectionId, Symbol, SymbolId as ObjSymbolId, SymbolSection};
use object::{SymbolFlags, SymbolKind as ObjSymbolKind, SymbolScope as ObjSymbolScope};
use crate::macho::{ObjectError, SectionKind, SymbolKind, SymbolScope};
use crate::text::has_nul;
use crate::macho::builder::{is_pow2, le_bytes, padded_len, BuildVersionFields, ObjectBuilder, ObjectView, RelocationEntry, SectionEntry, SectionView, SymbolEntry, SymbolView};
use crate::macho::reloc::MachORelocFlags;

verus! {

/// `object::write::Object`, the object file writer.
#[verifier::external_type_specification]
#[verifier::external_body]
pub struct ExMachOWriter<'a>(object::write::Object<'a>);

/// `object::write::SectionId`, a section handle of the writer.
#[verifier::external_type_specification]
#[verifier::external_body]
pub struct ExWriterSectionId(object::write::SectionId);

/// `object::write::SymbolId`, a symbol handle of the writer.
#[verifier::external_type_specification]
#[verifier::external_body]
pub struct ExWriterSymbolId(object::write::SymbolId);

/// A section as the writer holds it: its names, kind, alignment, size, bytes (a zero-fill
/// section has a size and no bytes) and relocations.
pub struct WriterSection {
    pub segment: Seq<char>,
    pub name: Seq<char>,
    pub kind: SectionKind,
    pub align: u64,
    pub size: u64,
    pub data: Seq<u8>,
    pub relocations: Seq<WriterRelocation>,
}

/// A relocation as the writer holds it; `symbol` is the position of the symbol.
pub struct WriterRelocation {
    pub offset: u64,
    pub symbol: nat,
    pub addend: i64,
    pub flags: MachORelocFlags,
}

/// A symbol as the writer holds it; `section` is the position of its section, if defined.
pub struct WriterSymbol {
    pub name: Seq<char>,
    pub value: u64,
    pub kind: SymbolKind,
    pub scope: SymbolScope,
    pub section: Option<nat>,
}

/// The rest of what the writer holds. `arm64_macho`: it writes little-endian AArch64 Mach-O
/// with `Mangling::None`, no CPU subtype, no comdats and the writer's own subsections flag
/// unset, and every section, symbol and relocation in it has the form the items below add
/// (sections without flags; symbols of size 0, not weak, without flags, of kind text, data or
/// unknown, defined in a section or undefined; relocations with Mach-O fields). `flags`: the
/// Mach-O header flags (0 when none are set). `build_version`: the `LC_BUILD_VERSION` fields.
pub struct WriterHeader {
    pub arm64_macho: bool,
    pub flags: u32,
    pub build_version: Option<BuildVersionFields>,
}

/// The sections of an `object::write::Object`, in the order they were added.
pub uninterp spec fn writer_sections(obj: Object<'static>) -> Seq<WriterSection>;

/// The symbols of an `object::write::Object`, in the order they were added.
pub uninterp spec fn writer_symbols(obj: Object<'static>) -> Seq<WriterSymbol>;

/// The format, header flags and build version of an `object::write::Object`.
pub uninterp spec fn writer_header(obj: Object<'static>) -> WriterHeader;

/// The position of the section that an `object::write::SectionId` refers to.
pub uninterp spec fn writer_section_index(id: ObjSectionId) -> nat;

/// The position of the symbol that an `object::write::SymbolId` refers to.
pub uninterp spec fn writer_symbol_index(id: ObjSymbolId) -> nat;

/// What `Object::write` gives for a writer holding these sections, symbols and header: the
/// bytes of the Mach-O file, or the text of its error.
pub uninterp spec fn macho_image(sections: Seq<WriterSection>, symbols: Seq<WriterSymbol>, header: WriterHeader) -> Result<Seq<u8>, Seq<char>>;

/// The kinds whose sections hold no bytes, only a size.
pub open spec fn is_zero_fill(kind: SectionKind) -> bool {
    kind == SectionKind::UninitializedData || kind == SectionKind::UninitializedTls || kind == SectionKind::Common
}

/// A relocation whose addend the writer stores in the section's bytes: a non-zero addend of
/// any kind but the branch and page kinds, which carry it in the relocation entry.
pub open spec fn implicit_addend(flags: MachORelocFlags, addend: i64) -> bool {
    addend != 0 && flags.r_type != 2 && flags.r_type != 3 && flags.r_type != 4
}

/// The number of bytes a relocation covers: 8 for `r_length` 3, else 4.
pub open spec fn addend_width(flags: MachORelocFlags) -> nat {
    if flags.r_length == 3 { 8 } else { 4 }
}

/// The section after padding its bytes to `align` and appending `bytes`.
pub open spec fn with_data(s: WriterSection, bytes: Seq<u8>, align: u64) -> WriterSection {
    let off = padded_len(s.data.len() as int, align as int);
    WriterSection {
        align: if s.align < align { align } else { s.align },
        data: s.data + Seq::new((off - s.data.len()) as nat, |i: int| 0u8) + bytes,
        size: (off + bytes.len()) as u64,
        ..s
    }
}

/// The zero-fill section after padding its size to `align` and adding `size`.
pub open spec fn with_zero_fill(s: WriterSection, size: u64, align: u64) -> WriterSection {
    WriterSection {
        align: if s.align < align { align } else { s.align },
        size: (padded_len(s.size as int, align as int) + size) as u64,
        ..s
    }
}

/// The section after adding a relocation, or `None` when its implicit addend does not fit
/// in the bytes: an implicit addend is written little-endian at the relocation's offset and
/// the entry keeps an addend of zero.
pub open spec fn relocation_added(s: WriterSection, rel: WriterRelocation) -> Option<WriterSection> {
    if !implicit_addend(rel.flags, rel.addend) {
        Some(WriterSection { relocations: s.relocations.push(rel), ..s })
    } else if rel.offset + addend_width(rel.flags) <= s.data.len() {
        let w = addend_width(rel.flags);
        Some(WriterSection {
            data: s.data.subrange(0, rel.offset as int) + le_bytes(rel.addend as u64, w)
                + s.data.subrange(rel.offset + w, s.data.len() as int),
            relocations: s.relocations.push(WriterRelocation { addend: 0, ..rel }),
            ..s
        })
    } else {
        None
    }
}

/// No symbol name holds a NUL character (the string table refuses one).
pub open spec fn writer_names_valid(symbols: Seq<WriterSymbol>) -> bool {
    forall|i: int| 0 <= i < symbols.len() ==> !(#[trigger] symbols[i]).name.contains('\0')
}

/// Every symbol's section and every relocation's symbol exists.
pub open spec fn writer_refs_valid(sections: Seq<WriterSection>, symbols: Seq<WriterSymbol>) -> bool {
    &&& forall|i: int| 0 <= i < symbols.len() ==> ((#[trigger] symbols[i]).section matches Some(k) ==> k < sections.len())
    &&& forall|i: int, j: int| 0 <= i < sections.len() && 0 <= j < sections[i].relocations.len() ==>
        (#[trigger] sections[i].relocations[j]).symbol < symbols.len()
}

/// `object::write::Object::new` for a little-endian AArch64 Mach-O file, with symbol names
/// written as given (`Mangling::None`): a writer that holds nothing yet.
#[verifier::external_body]
fn macho_writer() -> (r: Object<'static>)
    ensures
        writer_sections(r) == Seq::<WriterSection>::empty(),
        writer_symbols(r) == Seq::<WriterSymbol>::empty(),
        writer_header(r) == (WriterHeader { arm64_macho: true, flags: 0, build_version: None }),
{
    let mut obj = Object::new(object::BinaryFormat::MachO, object::Architecture::Aarch64, object::Endianness::Little);
    obj.mangling = object::write::Mangling::None;
    obj
}

/// `Object::add_section` with the names' UTF-8 bytes and the matching `object::SectionKind`:
/// a new empty section of alignment 1 at the end, whose position the handle refers to.
#[verifier::external_body]
fn writer_add_section(obj: &mut Object<'static>, segment: &str, name: &str, kind: SectionKind) -> (r: ObjSectionId)
    ensures
        writer_sections(*final(obj)) == writer_sections(*old(obj)).push(WriterSection {
            segment: segment@,
            name: name@,
            kind,
            align: 1,
            size: 0,
            data: Seq::empty(),
            relocations: Seq::empty(),
        }),
        writer_symbols(*final(obj)) == writer_symbols(*old(obj)),
        writer_header(*final(obj)) == writer_header(*old(obj)),
        writer_section_index(r) == writer_sections(*old(obj)).len(),
{
    let kind = match kind {
        SectionKind::Text => object::SectionKind::Text,
        SectionKind::Data => object::SectionKind::Data,
        SectionKind::ReadOnlyData => object::SectionKind::ReadOnlyData,
        SectionKind::ReadOnlyString => object::SectionKind::ReadOnlyString,
        SectionKind::UninitializedData => object::SectionKind::UninitializedData,
        SectionKind::Common => object::SectionKind::Common,
        SectionKind::Tls => object::SectionKind::Tls,
        SectionKind::UninitializedTls => object::SectionKind::UninitializedTls,
        SectionKind::TlsVariables => object::SectionKind::TlsVariables,
    };
    obj.add_section(segment.as_bytes().to_vec(), name.as_bytes().to_vec(), kind)
}

/// `Object::append_section_data`: pads the section's bytes with zeros to a multiple of
/// `align`, appends `data`, and raises the section's alignment to `align`. The section must
/// exist and hold bytes (not zero-fill), and `align` must be a power of two.
#[verifier::external_body]
fn writer_append_data(obj: &mut Object<'static>, section: ObjSectionId, data: &[u8], align: u64)
    requires
        is_pow2(align),
        writer_section_index(section) < writer_sections(*old(obj)).len(),
        !is_zero_fill(writer_sections(*old(obj))[writer_section_index(section) as int].kind),
    ensures
        writer_sections(*final(obj)) == writer_sections(*old(obj)).update(
            writer_section_index(section) as int,
            with_data(writer_sections(*old(obj))[writer_section_index(section) as int], data@, align),
        ),
        writer_symbols(*final(obj)) == writer_symbols(*old(obj)),
        writer_header(*final(obj)) == writer_header(*old(obj)),
{
    obj.append_section_data(section, data, align);
}

/// `Object::append_section_bss`: pads the section's size to a multiple of `align`, adds
/// `size`, and raises the section's alignment to `align`. The section must exist and be
/// zero-fill, `align` must be a power of two, and the new size must fit in 64 bits.
#[verifier::external_body]
fn writer_append_bss(obj: &mut Object<'static>, section: ObjSectionId, size: u64, align: u64)
    requires
        is_pow2(align),
        writer_section_index(section) < writer_sections(*old(obj)).len(),
        is_zero_fill(writer_sections(*old(obj))[writer_section_index(section) as int].kind),
        padded_len(writer_sections(*old(obj))[writer_section_index(section) as int].size as int, align as int) + size
            <= u64::MAX,
    ensures
        writer_sections(*final(obj)) == writer_sections(*old(obj)).update(
            writer_section_index(section) as int,
            with_zero_fill(writer_sections(*old(obj))[writer_section_index(section) as int], size, align),
        ),
        writer_symbols(*final(obj)) == writer_symbols(*old(obj)),
        writer_header(*final(obj)) == writer_header(*old(obj)),
{
    obj.append_section_bss(section, size, align);
}

/// `Object::add_symbol` with a symbol of size 0, not weak, without flags, named by the UTF-8
/// bytes of `name`, defined in `section` or else undefined: a new symbol at the end, whose
/// position the handle refers to. The writer asks that a defined symbol have a known scope.
#[verifier::external_body]
fn writer_add_symbol(
    obj: &mut Object<'static>,
    name: &str,
    value: u64,
    kind: SymbolKind,
    scope: SymbolScope,
    section: Option<ObjSectionId>,
) -> (r: ObjSymbolId)
    requires
        section is Some ==> scope != SymbolScope::Unknown,
    ensures
        writer_symbols(*final(obj)) == writer_symbols(*old(obj)).push(WriterSymbol {
            name: name@,
            value,
            kind,
            scope,
            section: match section {
                Some(id) => Some(writer_section_index(id)),
                None => None,
            },
        }),
        writer_sections(*final(obj)) == writer_sections(*old(obj)),
        writer_header(*final(obj)) == writer_header(*old(obj)),
        writer_symbol_index(r) == writer_symbols(*old(obj)).len(),
{
    let kind = match kind {
        SymbolKind::Text => ObjSymbolKind::Text,
        SymbolKind::Data => ObjSymbolKind::Data,
        SymbolKind::Unknown => ObjSymbolKind::Unknown,
    };
    let scope = match scope {
        SymbolScope::Compilation => ObjSymbolScope::Compilation,
        SymbolScope::Dynamic => ObjSymbolScope::Dynamic,
        SymbolScope::Unknown => ObjSymbolScope::Unknown,
    };
    let section = match section { Some(id) => SymbolSection::Section(id), None => SymbolSection::Undefined };
    let flags = SymbolFlags::None;
    obj.add_symbol(Symbol { name: name.as_bytes().to_vec(), value, size: 0, kind, scope, weak: false, section, flags })
}

/// `Object::add_relocation` with Mach-O relocation fields on an AArch64 writer. The entry
/// is added to the section; an implicit addend is first written into the section's bytes,
/// and when it does not fit there the call fails and the writer is left as it was. The text
/// of that error is not stated. The section must exist, the relocation must cover 4 or 8
/// bytes, and a section that takes an implicit addend must hold bytes.
#[verifier::external_body]
fn writer_add_relocation(
    obj: &mut Object<'static>,
    section: ObjSectionId,
    offset: u64,
    symbol: ObjSymbolId,
    addend: i64,
    flags: MachORelocFlags,
) -> (r: Result<(), String>)
    requires
        writer_header(*old(obj)).arm64_macho,
        writer_section_index(section) < writer_sections(*old(obj)).len(),
        flags.r_length == 2 || flags.r_length == 3,
        implicit_addend(flags, addend) ==> !is_zero_fill(writer_sections(*old(obj))[writer_section_index(section) as int].kind),
    ensures
        ({
            let secs = writer_sections(*old(obj));
            let i = writer_section_index(section) as int;
            let rel = WriterRelocation { offset, symbol: writer_symbol_index(symbol), addend, flags };
            match relocation_added(secs[i], rel) {
                Some(s2) => r is Ok && writer_sections(*final(obj)) == secs.update(i, s2),
                None => r is Err && writer_sections(*final(obj)) == secs,
            }
        }),
        writer_symbols(*final(obj)) == writer_symbols(*old(obj)),
        writer_header(*final(obj)) == writer_header(*old(obj)),
{
    let flags = object::RelocationFlags::MachO { r_type: flags.r_type, r_pcrel: flags.r_pcrel, r_length: flags.r_length };
    match obj.add_relocation(section, object::write::Relocation { offset, symbol, addend, flags }) {
        Ok(()) => Ok(()),
        Err(e) => Err(format!("{}", e)),
    }
}

/// Sets the Mach-O header flags (`Object::flags`) to `MH_SUBSECTIONS_VIA_SYMBOLS`.
#[verifier::external_body]
fn writer_set_subsections_via_symbols(obj: &mut Object<'static>)
    ensures
        writer_header(*final(obj)) == (WriterHeader { flags: 0x2000, ..writer_header(*old(obj)) }),
        writer_sections(*final(obj)) == writer_sections(*old(obj)),
        writer_symbols(*final(obj)) == writer_symbols(*old(obj)),
{
    obj.flags = object::FileFlags::MachO { flags: object::macho::MH_SUBSECTIONS_VIA_SYMBOLS };
}

/// `Object::set_macho_build_version` with the given platform, minimum OS and SDK versions.
#[verifier::external_body]
fn writer_set_build_version(obj: &mut Object<'static>, platform: u32, minos: u32, sdk: u32)
    ensures
        writer_header(*final(obj)) == (WriterHeader {
            build_version: Some(BuildVersionFields { platform, minos, sdk }),
            ..writer_header(*old(obj))
        }),
        writer_sections(*final(obj)) == writer_sections(*old(obj)),
        writer_symbols(*final(obj)) == writer_symbols(*old(obj)),
{
    let mut bv = object::write::MachOBuildVersion::default();
    bv.platform = platform;
    bv.minos = minos;
    bv.sdk = sdk;
    obj.set_macho_build_version(bv);
}

/// `Object::write`: the bytes of the Mach-O file, or the writer's error as text; both are
/// what `macho_image` names for what the writer holds. The writer must be an AArch64 Mach-O
/// writer, every section and symbol it refers to must exist, and no symbol name may hold a
/// NUL character: the string table it builds panics on one.
#[verifier::external_body]
fn writer_write(obj: &Object<'static>) -> (r: Result<Vec<u8>, String>)
    requires
        writer_header(*obj).arm64_macho,
        writer_refs_valid(writer_sections(*obj), writer_symbols(*obj)),
        writer_names_valid(writer_symbols(*obj)),
    ensures
        match r {
            Ok(bytes) => macho_image(writer_sections(*obj), writer_symbols(*obj), writer_header(*obj)) == Ok::<Seq<u8>, Seq<char>>(bytes@),
            Err(e) => macho_image(writer_sections(*obj), writer_symbols(*obj), writer_header(*obj)) == Err::<Seq<u8>, Seq<char>>(e@),
        },
{
    match obj.write() {
        Ok(bytes) => Ok(bytes),
        Err(e) => Err(format!("{}", e)),
    }
}

/// A section of the builder as the writer holds it once added: a zero-fill section keeps
/// only its size.
pub open spec fn writer_section_of(s: SectionView) -> WriterSection {
    WriterSection {
        segment: s.segment,
        name: s.name,
        kind: s.kind,
        align: s.align,
        size: s.data.len() as u64,
        data: if is_zero_fill(s.kind) { Seq::empty() } else { s.data },
        relocations: Seq::empty(),
    }
}

/// A symbol of the builder as the writer holds it.
pub open spec fn writer_symbol_of(s: SymbolView) -> WriterSymbol {
    WriterSymbol {
        name: s.name,
        value: s.value,
        kind: s.kind,
        scope: s.scope,
        section: match s.section {
            Some(id) => Some(id.0 as nat),
            None => None,
        },
    }
}

/// The sections after adding one relocation of the builder, or `None` when its implicit
/// addend cannot be written (a zero-fill section, or past the section's bytes).
pub open spec fn writer_relocation_added(secs: Seq<WriterSection>, rel: RelocationEntry) -> Option<Seq<WriterSection>> {
    let i = rel.section.0 as int;
    if implicit_addend(rel.flags, rel.addend) && is_zero_fill(secs[i].kind) {
        None
    } else {
        match relocation_added(secs[i], WriterRelocation { offset: rel.offset, symbol: rel.symbol.0 as nat, addend: rel.addend, flags: rel.flags }) {
            Some(s2) => Some(secs.update(i, s2)),
            None => None,
        }
    }
}

/// The sections after adding the relocations in order, or `None` when one fails.
pub open spec fn writer_relocations_added(secs: Seq<WriterSection>, rels: Seq<RelocationEntry>) -> Option<Seq<WriterSection>>
    decreases rels.len(),
{
    if rels.len() == 0 {
        Some(secs)
    } else {
        match writer_relocations_added(secs, rels.drop_last()) {
            Some(s2) => writer_relocation_added(s2, rels.last()),
            None => None,
        }
    }
}

/// Some symbol name of the object holds a NUL character.
pub open spec fn has_nul_name(v: ObjectView) -> bool {
    exists|i: int| 0 <= i < v.symbols.len() && (#[trigger] v.symbols[i]).name.contains('\0')
}

/// What the writer makes of the object: the sections with their relocations, the symbols
/// and the header, or `None` when a symbol name holds a NUL character or a relocation cannot
/// be added.
pub open spec fn writer_contents(v: ObjectView) -> Option<(Seq<WriterSection>, Seq<WriterSymbol>, WriterHeader)> {
    if has_nul_name(v) {
        None
    } else {
        match writer_relocations_added(v.sections.map_values(|s: SectionView| writer_section_of(s)), v.relocations) {
        Some(secs) => Some((
            secs,
            v.symbols.map_values(|s: SymbolView| writer_symbol_of(s)),
            WriterHeader {
                arm64_macho: true,
                flags: if v.subsections_via_symbols { 0x2000 } else { 0 },
                build_version: v.build_version,
            },
        )),
        None => None,
    }
    }
}

/// The object file written for the object: its bytes or the writer's error text, or `None`
/// when a symbol name holds a NUL character or a relocation cannot be added.
pub open spec fn object_image(v: ObjectView) -> Option<Result<Seq<u8>, Seq<char>>> {
    match writer_contents(v) {
        Some((secs, syms, header)) => Some(macho_image(secs, syms, header)),
        None => None,
    }
}

/// Once a relocation fails, adding more does not succeed.
proof fn lemma_relocations_failed(secs: Seq<WriterSection>, rels: Seq<RelocationEntry>, k: int)
    requires
        0 <= k <= rels.len(),
        writer_relocations_added(secs, rels.take(k)) is None,
    ensures
        writer_relocations_added(secs, rels) is None,
    decreases rels.len() - k,
{
    if k < rels.len() {
        assert(rels.take(k + 1).drop_last() =~= rels.take(k));
        lemma_relocations_failed(secs, rels, k + 1);
    } else {
        assert(rels.take(k) =~= rels);
    }
}

impl ObjectBuilder {
    /// Consume the builder and emit the Mach-O object file bytes.
    ///
    /// Every section is added in order with its bytes and alignment (a zero-fill section gets
    /// its size only), then every symbol and relocation in order, then the header flags and
    /// build version; the result is the file `object_image` names, and the writer's errors
    /// come back as `ObjectError::Write`. A symbol name holding a NUL character, which the
    /// writer's string table refuses, is reported as `ObjectError::Write` before writing.
    pub fn finish(self) -> (r: Result<Vec<u8>, ObjectError>)
        requires
            self@.wf(),
        ensures
            match object_image(self@) {
                Some(Ok(b)) => r matches Ok(bytes) && bytes@ == b,
                Some(Err(t)) => r matches Err(ObjectError::Write { detail }) && detail@ == t,
                None => r matches Err(ObjectError::Write { .. }),
            },
    {
        let ghost v = self@;
        let ghost base = v.sections.map_values(|s: SectionView| writer_section_of(s));
        let ghost header0 = WriterHeader { arm64_macho: true, flags: 0, build_version: None };
        let mut obj = macho_writer();
        let sections = self.sections();
        let symbols = self.symbols();
        let relocations = self.relocations();
        let mut sec_ids: Vec<ObjSectionId> = Vec::new();
        let mut i: usize = 0;
        while i < sections.len()
            invariant
                i <= sections@.len(),
                sec_ids@.len() == i,
                sections@.map_values(|s: SectionEntry| s@) == v.sections,
                v.wf(),
                base == v.sections.map_values(|s: SectionView| writer_section_of(s)),
                writer_sections(obj) == base.take(i as int),
                writer_symbols(obj) == Seq::<WriterSymbol>::empty(),
                writer_header(obj) == header0,
                header0 == (WriterHeader { arm64_macho: true, flags: 0, build_version: None }),
                forall|k: int| 0 <= k < i ==> writer_section_index(#[trigger] sec_ids@[k]) == k,
            decreases sections.len() - i,
        {
            let s = &sections[i];
            assert(s@ == v.sections[i as int]);
            let ghost w0 = writer_sections(obj);
            let id = writer_add_section(&mut obj, s.segment.as_str(), s.name.as_str(), s.kind);
            let ghost ws0 = writer_sections(obj)[i as int];
            let kind = s.kind;
            let zero_fill = kind == SectionKind::UninitializedData || kind == SectionKind::UninitializedTls
                || kind == SectionKind::Common;
            assert(zero_fill == is_zero_fill(kind));
            assert(is_pow2(s.align));
            assert(s.align >= 1);
            assert(0int % (s.align as int) == 0);
            if s.data.len() > 0 || s.align > 1 {
                if zero_fill {
                    writer_append_bss(&mut obj, id, s.data.len() as u64, s.align);
                } else {
                    writer_append_data(&mut obj, id, s.data.as_slice(), s.align);
                    assert(ws0.data + Seq::new(0nat, |j: int| 0u8) + s.data@ =~= s.data@);
                }
            } else {
                assert(s.align == 1);
                assert(s.data@ =~= Seq::<u8>::empty());
            }
            assert(writer_sections(obj) =~= w0.push(writer_section_of(v.sections[i as int])));
            assert(base.take(i + 1) =~= base.take(i as int).push(base[i as int]));
            sec_ids.push(id);
            i += 1;
        }
        assert(base.take(i as int) =~= base);
        let mut sym_ids: Vec<ObjSymbolId> = Vec::new();
        let ghost syms = v.symbols.map_values(|s: SymbolView| writer_symbol_of(s));
        let mut j: usize = 0;
        while j < symbols.len()
            invariant
                j <= symbols@.len(),
                sym_ids@.len() == j,
                sec_ids@.len() == v.sections.len(),
                symbols@.map_values(|s: SymbolEntry| s@) == v.symbols,
                v.wf(),
                syms == v.symbols.map_values(|s: SymbolView| writer_symbol_of(s)),
                writer_sections(obj) == base,
                base.len() == v.sections.len(),
                writer_symbols(obj) == syms.take(j as int),
                writer_header(obj) == header0,
                header0 == (WriterHeader { arm64_macho: true, flags: 0, build_version: None }),
                forall|k: int| 0 <= k < sec_ids@.len() ==> writer_section_index(#[trigger] sec_ids@[k]) == k,
                forall|k: int| 0 <= k < j ==> writer_symbol_index(#[trigger] sym_ids@[k]) == k,
                forall|k: int| 0 <= k < j ==> !(#[trigger] v.symbols[k]).name.contains('\0'),
                self@ == v,
            decreases symbols.len() - j,
        {
            let s = &symbols[j];
            assert(s@ == v.symbols[j as int]);
            if has_nul(s.name.as_str()) {
                assert(has_nul_name(v));
                return Err(ObjectError::Write { detail: "symbol name holds a NUL character".to_string() });
            }
            let section = match s.section {
                Some(sid) => Some(sec_ids[sid.0]),
                None => None,
            };
            let id = writer_add_symbol(&mut obj, s.name.as_str(), s.value, s.kind, s.scope, section);
            assert(writer_symbols(obj) =~= syms.take(j + 1));
            sym_ids.push(id);
            j += 1;
        }
        assert(syms.take(j as int) =~= syms);
        assert(!has_nul_name(v));
        assert(writer_names_valid(syms));
        let mut k: usize = 0;
        while k < relocations.len()
            invariant
                k <= relocations@.len(),
                sec_ids@.len() == v.sections.len(),
                sym_ids@.len() == v.symbols.len(),
                relocations@ == v.relocations,
                self@ == v,
                !has_nul_name(v),
                writer_names_valid(syms),
                sections@.map_values(|s: SectionEntry| s@) == v.sections,
                v.wf(),
                base == v.sections.map_values(|s: SectionView| writer_section_of(s)),
                writer_relocations_added(base, v.relocations.take(k as int)) == Some(writer_sections(obj)),
                writer_sections(obj).len() == v.sections.len(),
                forall|a: int| 0 <= a < v.sections.len() ==> (#[trigger] writer_sections(obj)[a]).kind == v.sections[a].kind,
                forall|a: int, b: int| 0 <= a < v.sections.len() && 0 <= b < writer_sections(obj)[a].relocations.len() ==>
                    (#[trigger] writer_sections(obj)[a].relocations[b]).symbol < v.symbols.len(),
                writer_symbols(obj) == syms,
                writer_header(obj) == header0,
                header0 == (WriterHeader { arm64_macho: true, flags: 0, build_version: None }),
                forall|a: int| 0 <= a < sec_ids@.len() ==> writer_section_index(#[trigger] sec_ids@[a]) == a,
                forall|a: int| 0 <= a < sym_ids@.len() ==> writer_symbol_index(#[trigger] sym_ids@[a]) == a,
            decreases relocations.len() - k,
        {
            let rel = relocations[k];
            assert(rel == v.relocations[k as int]);
            let ghost w0 = writer_sections(obj);
            assert(v.relocations.take(k + 1).drop_last() =~= v.relocations.take(k as int));
            assert(v.relocations.take(k + 1).last() == rel);
            let sec = &sections[rel.section.0];
            assert(sec@ == v.sections[rel.section.0 as int]);
            let kind = sec.kind;
            let zero_fill = kind == SectionKind::UninitializedData || kind == SectionKind::UninitializedTls
                || kind == SectionKind::Common;
            let implicit = rel.addend != 0 && rel.flags.r_type != 2 && rel.flags.r_type != 3 && rel.flags.r_type != 4;
            if implicit && zero_fill {
                proof {
                    assert(writer_relocation_added(w0, rel) is None);
                    lemma_relocations_failed(base, v.relocations, k + 1);
                }
                return Err(ObjectError::Write { detail: "relocation addend in a zero-fill section".to_string() });
            }
            let result = writer_add_relocation(&mut obj, sec_ids[rel.section.0], rel.offset, sym_ids[rel.symbol.0], rel.addend, rel.flags);
            if let Err(detail) = result {
                proof {
                    assert(writer_relocation_added(w0, rel) is None);
                    lemma_relocations_failed(base, v.relocations, k + 1);
                }
                return Err(ObjectError::Write { detail });
            }
            proof {
                let a0 = rel.section.0 as int;
                assert forall|a: int, b: int| 0 <= a < v.sections.len() && 0 <= b < writer_sections(obj)[a].relocations.len() implies
                    (#[trigger] writer_sections(obj)[a].relocations[b]).symbol < v.symbols.len() by {
                    if a == a0 && b == w0[a].relocations.len() {
                    } else {
                        assert(writer_sections(obj)[a].relocations[b] == w0[a].relocations[b]);
                    }
                }
            }
            k += 1;
        }
        assert(v.relocations.take(k as int) =~= v.relocations);
        let (subsections, build_version) = self.metadata();
        if subsections {
            writer_set_subsections_via_symbols(&mut obj);
        }
        if let Some(bv) = build_version {
            writer_set_build_version(&mut obj, bv.platform, bv.minos, bv.sdk);
        }
        assert(writer_contents(v) == Some((writer_sections(obj), writer_symbols(obj), writer_header(obj))));
        match writer_write(&obj) {
            Ok(bytes) => Ok(bytes),
            Err(detail) => Err(ObjectError::Write { detail }),
        }
    }
}

} // verus!
