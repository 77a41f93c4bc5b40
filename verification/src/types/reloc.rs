//! Relocations that the linker must resolve.

use vstd::prelude::*;

verus! {

/// ARM64 relocation kinds.
#[derive(Debug, Clone, Copy, PartialEq, Eq, Hash, Structural)]
pub enum RelocKind {
    /// 26-bit PC-relative branch offset (B, BL).
    Branch26,
    /// 21-bit page address (ADRP).
    Page21,
    /// 12-bit page offset (ADD/LDR with :lo12:).
    PageOff12,
    /// GOT page address.
    GotLoadPage21,
    /// GOT page offset.
    GotLoadPageOff12,
    /// 19-bit PC-relative offset (B.cond, CBZ, CBNZ, LDR literal).
    Pcrel19,
    /// 21-bit PC-relative offset for ADR, split across immhi[23:5] and immlo[30:29].
    Adr21,
}

/// A relocation that the linker must resolve.
#[derive(Debug, PartialEq, Eq)]
pub struct PendingRelocation {
    pub kind: RelocKind,
    pub symbol: String,
    pub addend: i64,
}

/// The abstract value of a relocation: kind, symbol name and addend.
pub struct RelocView {
    pub kind: RelocKind,
    pub symbol: Seq<char>,
    pub addend: i64,
}

impl View for PendingRelocation {
    type V = RelocView;

    open spec fn view(&self) -> RelocView {
        RelocView { kind: self.kind, symbol: self.symbol@, addend: self.addend }
    }
}

impl PendingRelocation {
    /// Create a relocation with addend 0.
    pub fn simple(kind: RelocKind, symbol: String) -> (r: PendingRelocation)
        ensures
            r.kind == kind,
            r.symbol == symbol,
            r.addend == 0,
    {
        PendingRelocation { kind, symbol, addend: 0 }
    }

    pub fn copy(&self) -> (r: PendingRelocation)
        ensures
            r == *self,
    {
        PendingRelocation { kind: self.kind, symbol: self.symbol.clone(), addend: self.addend }
    }
}

impl Clone for PendingRelocation {
    fn clone(&self) -> (r: Self)
        ensures
            r == *self,
    {
        self.copy()
    }
}

} // verus!
