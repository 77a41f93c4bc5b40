//! Instruction mnemonics and parsed instructions.

use vstd::prelude::*;
use crate::text::{ascii_lower_seq, chars_eq, lower_chars, str_chars};
use crate::types::operand::{Operand, OperandView};
use crate::types::span::Span;

verus! {

/// ARM64 instruction mnemonics (MVP set).
#[derive(Debug, Clone, Copy, PartialEq, Eq, Hash, Structural)]
pub enum Mnemonic {
    // Arithmetic
    Add,
    Adds,
    Sub,
    Subs,
    // Move
    Mov,
    Movz,
    Movn,
    Movk,
    // Compare
    Cmp,
    Cmn,
    Tst,
    // Logical
    And,
    Ands,
    Orr,
    Eor,
    // Branch
    B,
    Bl,
    Br,
    Blr,
    Ret,
    BCond,
    Cbz,
    Cbnz,
    // PC-relative address
    Adr,
    Adrp,
    // Load/Store
    Ldr,
    Str,
    Ldp,
    Stp,
    Ldrb,
    Ldrh,
    Strb,
    Strh,
    // System
    Nop,
    Svc,
    Brk,
}

impl Mnemonic {
    /// The lower-case spelling of a mnemonic; `b.cond` has none, since the parser
    /// forms it from `b` and a condition suffix.
    pub open spec fn name(self) -> Option<Seq<char>> {
        match self {
            Mnemonic::Add => Some(seq!['a', 'd', 'd']),
            Mnemonic::Adds => Some(seq!['a', 'd', 'd', 's']),
            Mnemonic::Sub => Some(seq!['s', 'u', 'b']),
            Mnemonic::Subs => Some(seq!['s', 'u', 'b', 's']),
            Mnemonic::Mov => Some(seq!['m', 'o', 'v']),
            Mnemonic::Movz => Some(seq!['m', 'o', 'v', 'z']),
            Mnemonic::Movn => Some(seq!['m', 'o', 'v', 'n']),
            Mnemonic::Movk => Some(seq!['m', 'o', 'v', 'k']),
            Mnemonic::Cmp => Some(seq!['c', 'm', 'p']),
            Mnemonic::Cmn => Some(seq!['c', 'm', 'n']),
            Mnemonic::Tst => Some(seq!['t', 's', 't']),
            Mnemonic::And => Some(seq!['a', 'n', 'd']),
            Mnemonic::Ands => Some(seq!['a', 'n', 'd', 's']),
            Mnemonic::Orr => Some(seq!['o', 'r', 'r']),
            Mnemonic::Eor => Some(seq!['e', 'o', 'r']),
            Mnemonic::B => Some(seq!['b']),
            Mnemonic::Bl => Some(seq!['b', 'l']),
            Mnemonic::Br => Some(seq!['b', 'r']),
            Mnemonic::Blr => Some(seq!['b', 'l', 'r']),
            Mnemonic::Ret => Some(seq!['r', 'e', 't']),
            Mnemonic::BCond => None,
            Mnemonic::Cbz => Some(seq!['c', 'b', 'z']),
            Mnemonic::Cbnz => Some(seq!['c', 'b', 'n', 'z']),
            Mnemonic::Adr => Some(seq!['a', 'd', 'r']),
            Mnemonic::Adrp => Some(seq!['a', 'd', 'r', 'p']),
            Mnemonic::Ldr => Some(seq!['l', 'd', 'r']),
            Mnemonic::Str => Some(seq!['s', 't', 'r']),
            Mnemonic::Ldp => Some(seq!['l', 'd', 'p']),
            Mnemonic::Stp => Some(seq!['s', 't', 'p']),
            Mnemonic::Ldrb => Some(seq!['l', 'd', 'r', 'b']),
            Mnemonic::Ldrh => Some(seq!['l', 'd', 'r', 'h']),
            Mnemonic::Strb => Some(seq!['s', 't', 'r', 'b']),
            Mnemonic::Strh => Some(seq!['s', 't', 'r', 'h']),
            Mnemonic::Nop => Some(seq!['n', 'o', 'p']),
            Mnemonic::Svc => Some(seq!['s', 'v', 'c']),
            Mnemonic::Brk => Some(seq!['b', 'r', 'k']),
        }
    }

    /// The mnemonic a lower-case spelling names, if any.
    pub open spec fn named(l: Seq<char>) -> Option<Mnemonic> {
        if exists|m: Mnemonic| #[trigger] m.name() == Some(l) {
            Some(choose|m: Mnemonic| #[trigger] m.name() == Some(l))
        } else {
            None
        }
    }

    /// No two mnemonics share a spelling.
    pub proof fn lemma_name_unique(a: Mnemonic, b: Mnemonic)
        requires
            a.name() is Some,
            a.name() == b.name(),
        ensures
            a == b,
    {
        let n = a.name()->0;
        assert(n.len() == b.name()->0.len());
        assert(n[0] == b.name()->0[0]);
        assert(n.len() >= 2 ==> n[1] == b.name()->0[1]);
        assert(n.len() >= 3 ==> n[2] == b.name()->0[2]);
        assert(n.len() >= 4 ==> n[3] == b.name()->0[3]);
    }

    /// Parse a mnemonic from characters (case-insensitive).
    pub fn parse_chars(s: &[char]) -> (r: Option<Mnemonic>)
        ensures
            r matches Some(m) ==> m.name() == Some(ascii_lower_seq(s@)),
            r is None ==> forall|m: Mnemonic| #[trigger] m.name() != Some(ascii_lower_seq(s@)),
    {
        let l = lower_chars(s);
        assert(l@ == ascii_lower_seq(s@));
        if chars_eq(&l, &['a', 'd', 'd']) { return Some(Mnemonic::Add); }
        if chars_eq(&l, &['a', 'd', 'd', 's']) { return Some(Mnemonic::Adds); }
        if chars_eq(&l, &['s', 'u', 'b']) { return Some(Mnemonic::Sub); }
        if chars_eq(&l, &['s', 'u', 'b', 's']) { return Some(Mnemonic::Subs); }
        if chars_eq(&l, &['m', 'o', 'v']) { return Some(Mnemonic::Mov); }
        if chars_eq(&l, &['m', 'o', 'v', 'z']) { return Some(Mnemonic::Movz); }
        if chars_eq(&l, &['m', 'o', 'v', 'n']) { return Some(Mnemonic::Movn); }
        if chars_eq(&l, &['m', 'o', 'v', 'k']) { return Some(Mnemonic::Movk); }
        if chars_eq(&l, &['c', 'm', 'p']) { return Some(Mnemonic::Cmp); }
        if chars_eq(&l, &['c', 'm', 'n']) { return Some(Mnemonic::Cmn); }
        if chars_eq(&l, &['t', 's', 't']) { return Some(Mnemonic::Tst); }
        if chars_eq(&l, &['a', 'n', 'd']) { return Some(Mnemonic::And); }
        if chars_eq(&l, &['a', 'n', 'd', 's']) { return Some(Mnemonic::Ands); }
        if chars_eq(&l, &['o', 'r', 'r']) { return Some(Mnemonic::Orr); }
        if chars_eq(&l, &['e', 'o', 'r']) { return Some(Mnemonic::Eor); }
        if l.len() == 1 && l[0] == 'b' {
            assert(l@ =~= seq!['b']);
            return Some(Mnemonic::B);
        }
        if chars_eq(&l, &['b', 'l']) { return Some(Mnemonic::Bl); }
        if chars_eq(&l, &['b', 'r']) { return Some(Mnemonic::Br); }
        if chars_eq(&l, &['b', 'l', 'r']) { return Some(Mnemonic::Blr); }
        if chars_eq(&l, &['r', 'e', 't']) { return Some(Mnemonic::Ret); }
        if chars_eq(&l, &['c', 'b', 'z']) { return Some(Mnemonic::Cbz); }
        if chars_eq(&l, &['c', 'b', 'n', 'z']) { return Some(Mnemonic::Cbnz); }
        if chars_eq(&l, &['a', 'd', 'r']) { return Some(Mnemonic::Adr); }
        if chars_eq(&l, &['a', 'd', 'r', 'p']) { return Some(Mnemonic::Adrp); }
        if chars_eq(&l, &['l', 'd', 'r']) { return Some(Mnemonic::Ldr); }
        if chars_eq(&l, &['s', 't', 'r']) { return Some(Mnemonic::Str); }
        if chars_eq(&l, &['l', 'd', 'p']) { return Some(Mnemonic::Ldp); }
        if chars_eq(&l, &['s', 't', 'p']) { return Some(Mnemonic::Stp); }
        if chars_eq(&l, &['l', 'd', 'r', 'b']) { return Some(Mnemonic::Ldrb); }
        if chars_eq(&l, &['l', 'd', 'r', 'h']) { return Some(Mnemonic::Ldrh); }
        if chars_eq(&l, &['s', 't', 'r', 'b']) { return Some(Mnemonic::Strb); }
        if chars_eq(&l, &['s', 't', 'r', 'h']) { return Some(Mnemonic::Strh); }
        if chars_eq(&l, &['n', 'o', 'p']) { return Some(Mnemonic::Nop); }
        if chars_eq(&l, &['s', 'v', 'c']) { return Some(Mnemonic::Svc); }
        if chars_eq(&l, &['b', 'r', 'k']) { return Some(Mnemonic::Brk); }
        assert forall|m: Mnemonic| #[trigger] m.name() != Some(ascii_lower_seq(s@)) by {
            match m {
                Mnemonic::Add => {},
                Mnemonic::Adds => {},
                Mnemonic::Sub => {},
                Mnemonic::Subs => {},
                Mnemonic::Mov => {},
                Mnemonic::Movz => {},
                Mnemonic::Movn => {},
                Mnemonic::Movk => {},
                Mnemonic::Cmp => {},
                Mnemonic::Cmn => {},
                Mnemonic::Tst => {},
                Mnemonic::And => {},
                Mnemonic::Ands => {},
                Mnemonic::Orr => {},
                Mnemonic::Eor => {},
                Mnemonic::B => {},
                Mnemonic::Bl => {},
                Mnemonic::Br => {},
                Mnemonic::Blr => {},
                Mnemonic::Ret => {},
                Mnemonic::BCond => {},
                Mnemonic::Cbz => {},
                Mnemonic::Cbnz => {},
                Mnemonic::Adr => {},
                Mnemonic::Adrp => {},
                Mnemonic::Ldr => {},
                Mnemonic::Str => {},
                Mnemonic::Ldp => {},
                Mnemonic::Stp => {},
                Mnemonic::Ldrb => {},
                Mnemonic::Ldrh => {},
                Mnemonic::Strb => {},
                Mnemonic::Strh => {},
                Mnemonic::Nop => {},
                Mnemonic::Svc => {},
                Mnemonic::Brk => {},
            }
        }
        None
    }

    /// Parse a mnemonic from a string (case-insensitive).
    ///
    /// `b.cond` is handled by the parser — this only matches the plain `b` mnemonic,
    /// which the parser upgrades to `BCond` when a condition suffix is present.
    pub fn parse(s: &str) -> (r: Option<Mnemonic>)
        ensures
            r matches Some(m) ==> m.name() == Some(ascii_lower_seq(s@)),
            r is None ==> forall|m: Mnemonic| #[trigger] m.name() != Some(ascii_lower_seq(s@)),
    {
        let cs = str_chars(s);
        Mnemonic::parse_chars(&cs)
    }
}

/// A parsed instruction: mnemonic + operands + source span.
#[derive(Debug, PartialEq)]
pub struct Instruction {
    pub mnemonic: Mnemonic,
    pub operands: Vec<Operand>,
    pub span: Span,
}

/// The abstract value of an instruction.
pub struct InstructionView {
    pub mnemonic: Mnemonic,
    pub operands: Seq<OperandView>,
    pub span: Span,
}

impl View for Instruction {
    type V = InstructionView;

    open spec fn view(&self) -> InstructionView {
        InstructionView {
            mnemonic: self.mnemonic,
            operands: self.operands@.map_values(|o: Operand| o@),
            span: self.span,
        }
    }
}

} // verus!
