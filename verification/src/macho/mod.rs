//! Mach-O object file emitter.
//!
//! [`ObjectBuilder`] collects the sections, symbols, relocations and metadata of one
//! relocatable ARM64 object file; [`ObjectBuilder::finish`] hands them to the `object`
//! crate, which writes the file.

pub mod builder;
pub mod emit;
pub mod reloc;
pub mod version;

use vstd::prelude::*;
use crate::text::push_str;
use crate::types::reloc::RelocKind;
use crate::macho::reloc::{push_reloc_kind_name, reloc_kind_name};



verus! {

/// Index of a section in the object file.
#[derive(Debug, Clone, Copy, PartialEq, Eq, Structural)]
pub struct SectionIndex(pub usize);

/// Index of a symbol in the object file.
#[derive(Debug, Clone, Copy, PartialEq, Eq, Structural)]
pub struct SymbolIndex(pub usize);

/// What a section holds.
#[derive(Debug, Clone, Copy, PartialEq, Eq, Structural)]
pub enum SectionKind {
    Text,
    Data,
    ReadOnlyData,
    ReadOnlyString,
    UninitializedData,
    Common,
    Tls,
    UninitializedTls,
    TlsVariables,
}

/// What a symbol names.
#[derive(Debug, Clone, Copy, PartialEq, Eq, Structural)]
pub enum SymbolKind {
    Text,
    Data,
    Unknown,
}

/// Where a symbol is visible.
#[derive(Debug, Clone, Copy, PartialEq, Eq, Structural)]
pub enum SymbolScope {
    /// Visible only inside the object file.
    Compilation,
    /// Exported.
    Dynamic,
    /// Undefined here.
    Unknown,
}

/// Errors from the object file emitter.
#[derive(Debug)]
pub enum ObjectError {
    Write { detail: String },
    NoCurrentSection,
    UnsupportedRelocation { kind: RelocKind, detail: String },
}

impl ObjectError {
    /// The error's message.
    pub open spec fn message(&self) -> Seq<char> {
        match self {
            ObjectError::Write { detail } => "object write error: "@ + detail@,
            ObjectError::NoCurrentSection => "no current section selected"@,
            ObjectError::UnsupportedRelocation { kind, detail } =>
                "unsupported relocation kind "@ + reloc_kind_name(*kind) + ": "@ + detail@,
        }
    }

    /// The error's message.
    pub fn to_string(&self) -> (r: String)
        ensures
            r@ == self.message(),
    {
        let mut s = String::new();
        match self {
            ObjectError::Write { detail } => {
                push_str(&mut s, "object write error: ");
                push_str(&mut s, detail.as_str());
            },
            ObjectError::NoCurrentSection => push_str(&mut s, "no current section selected"),
            ObjectError::UnsupportedRelocation { kind, detail } => {
                push_str(&mut s, "unsupported relocation kind ");
                push_reloc_kind_name(&mut s, *kind);
                push_str(&mut s, ": ");
                push_str(&mut s, detail.as_str());
            },
        }
        s
    }
}

/// The kind of a section, from its segment and section names.
pub open spec fn spec_section_kind(segment: Seq<char>, section: Seq<char>) -> SectionKind {
    if segment == "__TEXT"@ && section == "__text"@ {
        SectionKind::Text
    } else if segment == "__TEXT"@ && section == "__const"@ {
        SectionKind::ReadOnlyData
    } else if segment == "__TEXT"@ && section == "__cstring"@ {
        SectionKind::ReadOnlyString
    } else if segment == "__DATA"@ && section == "__data"@ {
        SectionKind::Data
    } else if segment == "__DATA"@ && section == "__bss"@ {
        SectionKind::UninitializedData
    } else if segment == "__DATA"@ && section == "__common"@ {
        SectionKind::Common
    } else if segment == "__DATA"@ && section == "__thread_data"@ {
        SectionKind::Tls
    } else if segment == "__DATA"@ && section == "__thread_bss"@ {
        SectionKind::UninitializedTls
    } else if segment == "__DATA"@ && section == "__thread_vars"@ {
        SectionKind::TlsVariables
    } else {
        SectionKind::Data
    }
}

fn str_is(s: &str, lit: &str) -> (r: bool)
    ensures
        r == (s@ == lit@),
{
    let a = crate::text::str_chars(s);
    let b = crate::text::str_chars(lit);
    crate::text::chars_eq(&a, &b)
}

/// Infer `SectionKind` from segment and section names.
pub fn infer_section_kind(segment: &str, section: &str) -> (r: SectionKind)
    ensures
        r == spec_section_kind(segment@, section@),
{
    let text = str_is(segment, "__TEXT");
    let data = str_is(segment, "__DATA");
    if text && str_is(section, "__text") {
        SectionKind::Text
    } else if text && str_is(section, "__const") {
        SectionKind::ReadOnlyData
    } else if text && str_is(section, "__cstring") {
        SectionKind::ReadOnlyString
    } else if data && str_is(section, "__data") {
        SectionKind::Data
    } else if data && str_is(section, "__bss") {
        SectionKind::UninitializedData
    } else if data && str_is(section, "__common") {
        SectionKind::Common
    } else if data && str_is(section, "__thread_data") {
        SectionKind::Tls
    } else if data && str_is(section, "__thread_bss") {
        SectionKind::UninitializedTls
    } else if data && str_is(section, "__thread_vars") {
        SectionKind::TlsVariables
    } else {
        SectionKind::Data
    }
}

} // verus!
