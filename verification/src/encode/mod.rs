//! ARM64 instruction encoder: maps an instruction to its 32-bit machine word.

pub mod bitmask;
pub mod branch;
pub mod common;
pub mod dp_imm;
pub mod dp_reg;
pub mod encode;
pub mod fields;
pub mod ldst;
pub mod system;

use vstd::prelude::*;
use crate::types::reloc::{PendingRelocation, RelocView};

verus! {

/// A successfully encoded ARM64 instruction.
#[derive(Debug, PartialEq, Eq)]
pub struct EncodedInst {
    /// The 32-bit encoded instruction.
    pub bits: u32,
    /// Optional relocation to be resolved by the linker.
    pub relocation: Option<PendingRelocation>,
}

/// The abstract value of an encoded instruction.
pub struct EncodedView {
    pub bits: u32,
    pub relocation: Option<RelocView>,
}

impl View for EncodedInst {
    type V = EncodedView;

    open spec fn view(&self) -> EncodedView {
        EncodedView {
            bits: self.bits,
            relocation: match self.relocation {
                Some(r) => Some(r@),
                None => None,
            },
        }
    }
}

/// An encoding with no relocation.
pub open spec fn plain(bits: u32) -> EncodedView {
    EncodedView { bits, relocation: None }
}

/// An encoding that carries a relocation.
pub open spec fn with_reloc_view(bits: u32, kind: crate::types::reloc::RelocKind, symbol: Seq<char>, addend: i64) -> EncodedView {
    EncodedView { bits, relocation: Some(RelocView { kind, symbol, addend }) }
}

impl EncodedInst {
    pub fn new(bits: u32) -> (r: EncodedInst)
        ensures
            r@ == plain(bits),
    {
        EncodedInst { bits, relocation: None }
    }

    pub fn with_reloc(bits: u32, reloc: PendingRelocation) -> (r: EncodedInst)
        ensures
            r.bits == bits,
            r.relocation == Some(reloc),
            r@ == with_reloc_view(bits, reloc.kind, reloc.symbol@, reloc.addend),
    {
        EncodedInst { bits, relocation: Some(reloc) }
    }
}

} // verus!
