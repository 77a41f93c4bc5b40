//! Mach-O relocation types for the relocation kinds the encoder produces.

use vstd::prelude::*;
use crate::types::reloc::RelocKind;
use crate::macho::ObjectError;
use crate::text::push_str;

verus! {

/// `ARM64_RELOC_BRANCH26` in the Mach-O relocation numbering.
pub const ARM64_RELOC_BRANCH26: u8 = 2;
/// `ARM64_RELOC_PAGE21`.
pub const ARM64_RELOC_PAGE21: u8 = 3;
/// `ARM64_RELOC_PAGEOFF12`.
pub const ARM64_RELOC_PAGEOFF12: u8 = 4;
/// `ARM64_RELOC_GOT_LOAD_PAGE21`.
pub const ARM64_RELOC_GOT_LOAD_PAGE21: u8 = 5;
/// `ARM64_RELOC_GOT_LOAD_PAGEOFF12`.
pub const ARM64_RELOC_GOT_LOAD_PAGEOFF12: u8 = 6;

/// The fields of a Mach-O relocation entry that depend on its kind.
#[derive(Debug, Clone, Copy, PartialEq, Eq, Structural)]
pub struct MachORelocFlags {
    pub r_type: u8,
    pub r_pcrel: bool,
    pub r_length: u8,
}

/// The spelling of a relocation kind, as in its declaration.
pub open spec fn reloc_kind_name(kind: RelocKind) -> Seq<char> {
    match kind {
        RelocKind::Branch26 => "Branch26"@,
        RelocKind::Page21 => "Page21"@,
        RelocKind::PageOff12 => "PageOff12"@,
        RelocKind::GotLoadPage21 => "GotLoadPage21"@,
        RelocKind::GotLoadPageOff12 => "GotLoadPageOff12"@,
        RelocKind::Pcrel19 => "Pcrel19"@,
        RelocKind::Adr21 => "Adr21"@,
    }
}

/// Append the spelling of a relocation kind.
pub fn push_reloc_kind_name(s: &mut String, kind: RelocKind)
    ensures
        final(s)@ == old(s)@ + reloc_kind_name(kind),
{
    match kind {
        RelocKind::Branch26 => push_str(s, "Branch26"),
        RelocKind::Page21 => push_str(s, "Page21"),
        RelocKind::PageOff12 => push_str(s, "PageOff12"),
        RelocKind::GotLoadPage21 => push_str(s, "GotLoadPage21"),
        RelocKind::GotLoadPageOff12 => push_str(s, "GotLoadPageOff12"),
        RelocKind::Pcrel19 => push_str(s, "Pcrel19"),
        RelocKind::Adr21 => push_str(s, "Adr21"),
    }
}

/// The Mach-O relocation for a kind that the linker resolves; the 19-bit and ADR forms have
/// no Mach-O relocation type and are resolved inside the section.
pub open spec fn spec_reloc_flags(kind: RelocKind) -> Option<MachORelocFlags> {
    match kind {
        RelocKind::Branch26 => Some(MachORelocFlags { r_type: 2, r_pcrel: true, r_length: 2 }),
        RelocKind::Page21 => Some(MachORelocFlags { r_type: 3, r_pcrel: true, r_length: 2 }),
        RelocKind::PageOff12 => Some(MachORelocFlags { r_type: 4, r_pcrel: false, r_length: 2 }),
        RelocKind::GotLoadPage21 => Some(MachORelocFlags { r_type: 5, r_pcrel: true, r_length: 2 }),
        RelocKind::GotLoadPageOff12 => Some(MachORelocFlags { r_type: 6, r_pcrel: false, r_length: 2 }),
        RelocKind::Pcrel19 => None,
        RelocKind::Adr21 => None,
    }
}

/// Why a kind has no Mach-O relocation.
pub open spec fn unsupported_detail(kind: RelocKind) -> Seq<char> {
    if kind == RelocKind::Pcrel19 {
        "19-bit PC-relative references are resolved within their section"@
    } else {
        "ADR references are resolved within their section"@
    }
}

/// Map an assembler `RelocKind` to Mach-O relocation flags (all 32-bit, `r_length` 2).
pub fn reloc_flags(kind: RelocKind) -> (r: Result<MachORelocFlags, ObjectError>)
    ensures
        match r {
            Ok(f) => spec_reloc_flags(kind) == Some(f),
            Err(e) => spec_reloc_flags(kind) is None
                && (e matches ObjectError::UnsupportedRelocation { kind: k, detail } && k == kind && detail@ == unsupported_detail(kind)),
        },
{
    let (r_type, r_pcrel): (u8, bool) = match kind {
        RelocKind::Branch26 => (ARM64_RELOC_BRANCH26, true),
        RelocKind::Page21 => (ARM64_RELOC_PAGE21, true),
        RelocKind::PageOff12 => (ARM64_RELOC_PAGEOFF12, false),
        RelocKind::GotLoadPage21 => (ARM64_RELOC_GOT_LOAD_PAGE21, true),
        RelocKind::GotLoadPageOff12 => (ARM64_RELOC_GOT_LOAD_PAGEOFF12, false),
        RelocKind::Pcrel19 => {
            return Err(ObjectError::UnsupportedRelocation {
                kind,
                detail: crate::types::error::owned("19-bit PC-relative references are resolved within their section"),
            });
        },
        RelocKind::Adr21 => {
            return Err(ObjectError::UnsupportedRelocation {
                kind,
                detail: crate::types::error::owned("ADR references are resolved within their section"),
            });
        },
    };
    Ok(MachORelocFlags { r_type, r_pcrel, r_length: 2 })
}

} // verus!
