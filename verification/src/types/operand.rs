//! Shift and extend modifiers, condition codes, memory addressing modes and operands.

use vstd::prelude::*;
use crate::text::{ascii_lower_seq, chars_eq, lower_chars, str_chars};
use crate::types::expr::{Expr, ExprView};
use crate::types::register::Register;

verus! {

/// Shift operations for shifted register operands.
#[derive(Debug, Clone, Copy, PartialEq, Eq, Hash, Structural)]
pub enum ShiftOp {
    Lsl,
    Lsr,
    Asr,
    Ror,
}

impl ShiftOp {
    pub open spec fn spec_encoding(self) -> u8 {
        match self {
            ShiftOp::Lsl => 0,
            ShiftOp::Lsr => 1,
            ShiftOp::Asr => 2,
            ShiftOp::Ror => 3,
        }
    }

    /// 2-bit encoding used in ARM64 instructions.
    pub fn encoding(&self) -> (r: u8)
        ensures
            r == self.spec_encoding(),
            r < 4,
    {
        match self {
            ShiftOp::Lsl => 0b00,
            ShiftOp::Lsr => 0b01,
            ShiftOp::Asr => 0b10,
            ShiftOp::Ror => 0b11,
        }
    }
}

/// Extend operations for extended register operands.
#[derive(Debug, Clone, Copy, PartialEq, Eq, Hash, Structural)]
pub enum ExtendOp {
    Uxtb,
    Uxth,
    Uxtw,
    Uxtx,
    Sxtb,
    Sxth,
    Sxtw,
    Sxtx,
}

impl ExtendOp {
    pub open spec fn spec_encoding(self) -> u8 {
        match self {
            ExtendOp::Uxtb => 0,
            ExtendOp::Uxth => 1,
            ExtendOp::Uxtw => 2,
            ExtendOp::Uxtx => 3,
            ExtendOp::Sxtb => 4,
            ExtendOp::Sxth => 5,
            ExtendOp::Sxtw => 6,
            ExtendOp::Sxtx => 7,
        }
    }

    /// 3-bit encoding used in ARM64 instructions.
    pub fn encoding(&self) -> (r: u8)
        ensures
            r == self.spec_encoding(),
            r < 8,
    {
        match self {
            ExtendOp::Uxtb => 0b000,
            ExtendOp::Uxth => 0b001,
            ExtendOp::Uxtw => 0b010,
            ExtendOp::Uxtx => 0b011,
            ExtendOp::Sxtb => 0b100,
            ExtendOp::Sxth => 0b101,
            ExtendOp::Sxtw => 0b110,
            ExtendOp::Sxtx => 0b111,
        }
    }
}

/// ARM64 condition codes (4-bit encoding).
#[derive(Debug, Clone, Copy, PartialEq, Eq, Hash, Structural)]
pub enum Condition {
    Eq,
    Ne,
    Hs,
    Lo,
    Mi,
    Pl,
    Vs,
    Vc,
    Hi,
    Ls,
    Ge,
    Lt,
    Gt,
    Le,
    Al,
    Nv,
}

/// The processor's condition flags: negative, zero, carry and overflow.
pub struct Flags {
    pub n: bool,
    pub z: bool,
    pub c: bool,
    pub v: bool,
}

/// ARM's ConditionHolds: the test a 4-bit condition code makes of the flags. Bits 3 to 1 pick
/// the test (equal, carry set, negative, overflow, unsigned higher, signed greater or equal,
/// signed greater, always), and bit 0 set inverts it, except in `0b1111`.
pub open spec fn condition_holds(code: u8, f: Flags) -> bool {
    let test = code / 2;
    let base = if test == 0 {
        f.z
    } else if test == 1 {
        f.c
    } else if test == 2 {
        f.n
    } else if test == 3 {
        f.v
    } else if test == 4 {
        f.c && !f.z
    } else if test == 5 {
        f.n == f.v
    } else if test == 6 {
        f.n == f.v && !f.z
    } else {
        true
    };
    if code % 2 == 1 && code != 15 { !base } else { base }
}

/// What each condition, by its mnemonic suffix, asks of the flags.
pub open spec fn condition_meaning(c: Condition, f: Flags) -> bool {
    match c {
        Condition::Eq => f.z,
        Condition::Ne => !f.z,
        Condition::Hs => f.c,
        Condition::Lo => !f.c,
        Condition::Mi => f.n,
        Condition::Pl => !f.n,
        Condition::Vs => f.v,
        Condition::Vc => !f.v,
        Condition::Hi => f.c && !f.z,
        Condition::Ls => !f.c || f.z,
        Condition::Ge => f.n == f.v,
        Condition::Lt => f.n != f.v,
        Condition::Gt => !f.z && f.n == f.v,
        Condition::Le => f.z || f.n != f.v,
        Condition::Al => true,
        Condition::Nv => true,
    }
}

/// Every condition's code, read by ARM's ConditionHolds, tests what the condition's name says,
/// for every state of the flags.
pub proof fn law_condition_encoding(c: Condition, f: Flags)
    ensures
        c.spec_encoding() < 16,
        condition_holds(c.spec_encoding(), f) == condition_meaning(c, f),
{
}

/// What the condition written as the lower-case suffix `l` asks of the flags, by the suffixes
/// of the ARM manual (`cs` and `cc` are the other names of `hs` and `lo`).
pub open spec fn suffix_meaning(l: Seq<char>, f: Flags) -> bool {
    if l == seq!['e', 'q'] { f.z }
    else if l == seq!['n', 'e'] { !f.z }
    else if l == seq!['h', 's'] || l == seq!['c', 's'] { f.c }
    else if l == seq!['l', 'o'] || l == seq!['c', 'c'] { !f.c }
    else if l == seq!['m', 'i'] { f.n }
    else if l == seq!['p', 'l'] { !f.n }
    else if l == seq!['v', 's'] { f.v }
    else if l == seq!['v', 'c'] { !f.v }
    else if l == seq!['h', 'i'] { f.c && !f.z }
    else if l == seq!['l', 's'] { !f.c || f.z }
    else if l == seq!['g', 'e'] { f.n == f.v }
    else if l == seq!['l', 't'] { f.n != f.v }
    else if l == seq!['g', 't'] { !f.z && f.n == f.v }
    else if l == seq!['l', 'e'] { f.z || f.n != f.v }
    else { true }
}

/// A condition suffix names the condition whose code, read by ARM's ConditionHolds, tests what
/// the suffix means.
pub proof fn law_condition_suffix(l: Seq<char>, f: Flags)
    requires
        Condition::from_name(l) is Some,
    ensures
        condition_holds(Condition::from_name(l)->0.spec_encoding(), f) == suffix_meaning(l, f),
{
    let c = Condition::from_name(l)->0;
    assert(c.named(l));
    assert(l.len() == 2);
    let a = l[0];
    let b = l[1];
    assert(l =~= seq![a, b]);
}

impl Condition {
    pub open spec fn spec_encoding(self) -> u8 {
        match self {
            Condition::Eq => 0,
            Condition::Ne => 1,
            Condition::Hs => 2,
            Condition::Lo => 3,
            Condition::Mi => 4,
            Condition::Pl => 5,
            Condition::Vs => 6,
            Condition::Vc => 7,
            Condition::Hi => 8,
            Condition::Ls => 9,
            Condition::Ge => 10,
            Condition::Lt => 11,
            Condition::Gt => 12,
            Condition::Le => 13,
            Condition::Al => 14,
            Condition::Nv => 15,
        }
    }

    /// 4-bit condition code encoding.
    pub fn encoding(&self) -> (r: u8)
        ensures
            r == self.spec_encoding(),
            r < 16,
    {
        match self {
            Condition::Eq => 0b0000,
            Condition::Ne => 0b0001,
            Condition::Hs => 0b0010,
            Condition::Lo => 0b0011,
            Condition::Mi => 0b0100,
            Condition::Pl => 0b0101,
            Condition::Vs => 0b0110,
            Condition::Vc => 0b0111,
            Condition::Hi => 0b1000,
            Condition::Ls => 0b1001,
            Condition::Ge => 0b1010,
            Condition::Lt => 0b1011,
            Condition::Gt => 0b1100,
            Condition::Le => 0b1101,
            Condition::Al => 0b1110,
            Condition::Nv => 0b1111,
        }
    }

    /// The canonical lower-case name of the condition.
    pub open spec fn name(self) -> Seq<char> {
        match self {
            Condition::Eq => seq!['e', 'q'],
            Condition::Ne => seq!['n', 'e'],
            Condition::Hs => seq!['h', 's'],
            Condition::Lo => seq!['l', 'o'],
            Condition::Mi => seq!['m', 'i'],
            Condition::Pl => seq!['p', 'l'],
            Condition::Vs => seq!['v', 's'],
            Condition::Vc => seq!['v', 'c'],
            Condition::Hi => seq!['h', 'i'],
            Condition::Ls => seq!['l', 's'],
            Condition::Ge => seq!['g', 'e'],
            Condition::Lt => seq!['l', 't'],
            Condition::Gt => seq!['g', 't'],
            Condition::Le => seq!['l', 'e'],
            Condition::Al => seq!['a', 'l'],
            Condition::Nv => seq!['n', 'v'],
        }
    }

    /// Whether a lower-case name denotes this condition (`cs` and `cc` are aliases of `hs` and `lo`).
    pub open spec fn named(self, l: Seq<char>) -> bool {
        l == self.name() || (self == Condition::Hs && l == seq!['c', 's'])
            || (self == Condition::Lo && l == seq!['c', 'c'])
    }

    /// The condition a lower-case name denotes, if any.
    pub open spec fn from_name(l: Seq<char>) -> Option<Condition> {
        if exists|c: Condition| #[trigger] c.named(l) {
            Some(choose|c: Condition| #[trigger] c.named(l))
        } else {
            None
        }
    }

    /// No name denotes two conditions.
    pub proof fn lemma_named_unique(a: Condition, b: Condition, l: Seq<char>)
        requires
            a.named(l),
            b.named(l),
        ensures
            a == b,
    {
        assert(l.len() == 2);
        assert(l[0] == l[0] && l[1] == l[1]);
    }

    /// Parse a condition code from characters (case-insensitive).
    pub fn parse_chars(s: &[char]) -> (r: Option<Condition>)
        ensures
            r matches Some(c) ==> c.named(ascii_lower_seq(s@)),
            r is None ==> forall|c: Condition| !c.named(#[trigger] ascii_lower_seq(s@)),
    {
        let l = lower_chars(s);
        let ghost gl = ascii_lower_seq(s@);
        assert(l@ == gl);
        if chars_eq(&l, &['e', 'q']) { return Some(Condition::Eq); }
        if chars_eq(&l, &['n', 'e']) { return Some(Condition::Ne); }
        if chars_eq(&l, &['h', 's']) || chars_eq(&l, &['c', 's']) { return Some(Condition::Hs); }
        if chars_eq(&l, &['l', 'o']) || chars_eq(&l, &['c', 'c']) { return Some(Condition::Lo); }
        if chars_eq(&l, &['m', 'i']) { return Some(Condition::Mi); }
        if chars_eq(&l, &['p', 'l']) { return Some(Condition::Pl); }
        if chars_eq(&l, &['v', 's']) { return Some(Condition::Vs); }
        if chars_eq(&l, &['v', 'c']) { return Some(Condition::Vc); }
        if chars_eq(&l, &['h', 'i']) { return Some(Condition::Hi); }
        if chars_eq(&l, &['l', 's']) { return Some(Condition::Ls); }
        if chars_eq(&l, &['g', 'e']) { return Some(Condition::Ge); }
        if chars_eq(&l, &['l', 't']) { return Some(Condition::Lt); }
        if chars_eq(&l, &['g', 't']) { return Some(Condition::Gt); }
        if chars_eq(&l, &['l', 'e']) { return Some(Condition::Le); }
        if chars_eq(&l, &['a', 'l']) { return Some(Condition::Al); }
        if chars_eq(&l, &['n', 'v']) { return Some(Condition::Nv); }
        assert forall|c: Condition| !c.named(#[trigger] ascii_lower_seq(s@)) by {
            match c {
                Condition::Eq => {},
                _ => {},
            }
        }
        None
    }

    /// Parse a condition code from a string (case-insensitive).
    /// Handles aliases: `cs` -> `hs`, `cc` -> `lo`.
    pub fn parse(s: &str) -> (r: Option<Condition>)
        ensures
            r matches Some(c) ==> c.named(ascii_lower_seq(s@)),
            r is None ==> forall|c: Condition| !c.named(#[trigger] ascii_lower_seq(s@)),
    {
        let cs = str_chars(s);
        Condition::parse_chars(&cs)
    }
}

/// Memory addressing modes.
#[derive(Debug, PartialEq, Eq)]
pub enum MemoryOperand {
    /// `[Xn]`
    Base { reg: Register },
    /// `[Xn, #imm]`
    BaseOffset { reg: Register, offset: Expr },
    /// `[Xn, #imm]!`
    PreIndex { reg: Register, offset: Expr },
    /// `[Xn], #imm`
    PostIndex { reg: Register, offset: Expr },
    /// `[Xn, Rm{, extend {#amount}}]`
    BaseRegister { base: Register, index: Register, extend: Option<ExtendOp>, amount: Option<u8> },
    /// PC-relative label reference (for literal loads)
    Label(String),
}

/// An instruction operand.
#[derive(Debug, PartialEq, Eq)]
pub enum Operand {
    Register(Register),
    Immediate(Expr),
    Label(String),
    Memory(MemoryOperand),
    Shift { op: ShiftOp, amount: Expr },
    Extend { op: ExtendOp, amount: Option<Expr> },
    Condition(Condition),
}

impl MemoryOperand {
    /// A copy of this memory operand.
    pub fn copy(&self) -> (r: MemoryOperand)
        ensures
            r == *self,
    {
        match self {
            MemoryOperand::Base { reg } => MemoryOperand::Base { reg: *reg },
            MemoryOperand::BaseOffset { reg, offset } => MemoryOperand::BaseOffset { reg: *reg, offset: offset.copy() },
            MemoryOperand::PreIndex { reg, offset } => MemoryOperand::PreIndex { reg: *reg, offset: offset.copy() },
            MemoryOperand::PostIndex { reg, offset } => MemoryOperand::PostIndex { reg: *reg, offset: offset.copy() },
            MemoryOperand::BaseRegister { base, index, extend, amount } => MemoryOperand::BaseRegister {
                base: *base,
                index: *index,
                extend: *extend,
                amount: *amount,
            },
            MemoryOperand::Label(s) => MemoryOperand::Label(s.clone()),
        }
    }
}

impl Operand {
    /// A copy of this operand.
    pub fn copy(&self) -> (r: Operand)
        ensures
            r == *self,
    {
        match self {
            Operand::Register(r) => Operand::Register(*r),
            Operand::Immediate(e) => Operand::Immediate(e.copy()),
            Operand::Label(s) => Operand::Label(s.clone()),
            Operand::Memory(m) => Operand::Memory(m.copy()),
            Operand::Shift { op, amount } => Operand::Shift { op: *op, amount: amount.copy() },
            Operand::Extend { op, amount } => Operand::Extend {
                op: *op,
                amount: match amount {
                    Some(e) => Some(e.copy()),
                    None => None,
                },
            },
            Operand::Condition(c) => Operand::Condition(*c),
        }
    }
}


/// The abstract value of a memory operand.
pub enum MemoryOperandView {
    Base { reg: Register },
    BaseOffset { reg: Register, offset: ExprView },
    PreIndex { reg: Register, offset: ExprView },
    PostIndex { reg: Register, offset: ExprView },
    BaseRegister { base: Register, index: Register, extend: Option<ExtendOp>, amount: Option<u8> },
    Label(Seq<char>),
}

impl View for MemoryOperand {
    type V = MemoryOperandView;

    open spec fn view(&self) -> MemoryOperandView {
        match self {
            MemoryOperand::Base { reg } => MemoryOperandView::Base { reg: *reg },
            MemoryOperand::BaseOffset { reg, offset } => MemoryOperandView::BaseOffset { reg: *reg, offset: offset@ },
            MemoryOperand::PreIndex { reg, offset } => MemoryOperandView::PreIndex { reg: *reg, offset: offset@ },
            MemoryOperand::PostIndex { reg, offset } => MemoryOperandView::PostIndex { reg: *reg, offset: offset@ },
            MemoryOperand::BaseRegister { base, index, extend, amount } =>
                MemoryOperandView::BaseRegister { base: *base, index: *index, extend: *extend, amount: *amount },
            MemoryOperand::Label(s) => MemoryOperandView::Label(s@),
        }
    }
}

/// The abstract value of an operand.
pub enum OperandView {
    Register(Register),
    Immediate(ExprView),
    Label(Seq<char>),
    Memory(MemoryOperandView),
    Shift { op: ShiftOp, amount: ExprView },
    Extend { op: ExtendOp, amount: Option<ExprView> },
    Condition(Condition),
}

impl View for Operand {
    type V = OperandView;

    open spec fn view(&self) -> OperandView {
        match self {
            Operand::Register(r) => OperandView::Register(*r),
            Operand::Immediate(e) => OperandView::Immediate(e@),
            Operand::Label(s) => OperandView::Label(s@),
            Operand::Memory(m) => OperandView::Memory(m@),
            Operand::Shift { op, amount } => OperandView::Shift { op: *op, amount: amount@ },
            Operand::Extend { op, amount } => OperandView::Extend {
                op: *op,
                amount: match amount {
                    Some(e) => Some(e@),
                    None => None,
                },
            },
            Operand::Condition(c) => OperandView::Condition(*c),
        }
    }
}

impl Clone for MemoryOperand {
    fn clone(&self) -> (r: Self)
        ensures
            r == *self,
    {
        self.copy()
    }
}

impl Clone for Operand {
    fn clone(&self) -> (r: Self)
        ensures
            r == *self,
    {
        self.copy()
    }
}

} // verus!
