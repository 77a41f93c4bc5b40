//! General-purpose, special, floating-point and vector registers.

use vstd::prelude::*;
use crate::text::{decimal_digits, push_char, push_decimal, string_from_chars};

verus! {

/// Width of a general-purpose register.
#[derive(Debug, Clone, Copy, PartialEq, Eq, Hash, Structural)]
pub enum RegWidth {
    /// 32-bit (W0-W30)
    W32,
    /// 64-bit (X0-X30)
    X64,
}

/// A general-purpose register: number (0-30) + width.
#[derive(Debug, Clone, Copy, PartialEq, Eq, Hash, Structural)]
pub struct GpReg {
    pub number: u8,
    pub width: RegWidth,
}

impl GpReg {
    pub open spec fn wf(self) -> bool {
        self.number <= 30
    }

    pub fn new(number: u8, width: RegWidth) -> (r: GpReg)
        requires
            number <= 30,
        ensures
            r.number == number,
            r.width == width,
            r.wf(),
    {
        GpReg { number, width }
    }

    /// The 5-bit encoding (same as number for GP regs).
    pub fn encoding(&self) -> (r: u8)
        ensures
            r == self.number,
    {
        self.number
    }

    /// The register's assembly name, such as `x5` or `w30`.
    pub open spec fn spec_name(self) -> Seq<char> {
        seq![if self.width == RegWidth::W32 { 'w' } else { 'x' }] + decimal_digits(self.number as nat)
    }

    pub fn to_string(&self) -> (r: String)
        ensures
            r@ == self.spec_name(),
    {
        let mut s = String::new();
        push_char(&mut s, if self.width == RegWidth::W32 { 'w' } else { 'x' });
        push_decimal(&mut s, self.number as u64);
        s
    }
}

/// Special registers that share encoding 31 with different semantics.
#[derive(Debug, Clone, Copy, PartialEq, Eq, Hash, Structural)]
pub enum SpecialReg {
    /// Stack pointer (64-bit context)
    Sp,
    /// Stack pointer (32-bit context)
    Wsp,
    /// Zero register (64-bit)
    Xzr,
    /// Zero register (32-bit)
    Wzr,
}

impl SpecialReg {
    /// All special registers encode as 31.
    pub fn encoding(&self) -> (r: u8)
        ensures
            r == 31,
    {
        31
    }

    pub open spec fn spec_name(self) -> Seq<char> {
        match self {
            SpecialReg::Sp => seq!['s', 'p'],
            SpecialReg::Wsp => seq!['w', 's', 'p'],
            SpecialReg::Xzr => seq!['x', 'z', 'r'],
            SpecialReg::Wzr => seq!['w', 'z', 'r'],
        }
    }

    pub fn to_string(&self) -> (r: String)
        ensures
            r@ == self.spec_name(),
    {
        match self {
            SpecialReg::Sp => string_from_chars(&['s', 'p']),
            SpecialReg::Wsp => string_from_chars(&['w', 's', 'p']),
            SpecialReg::Xzr => string_from_chars(&['x', 'z', 'r']),
            SpecialReg::Wzr => string_from_chars(&['w', 'z', 'r']),
        }
    }
}

/// Width of a floating-point/SIMD scalar register.
#[derive(Debug, Clone, Copy, PartialEq, Eq, Hash, Structural)]
pub enum FpRegWidth {
    /// 8-bit (B0-B31)
    B,
    /// 16-bit (H0-H31)
    H,
    /// 32-bit (S0-S31)
    S,
    /// 64-bit (D0-D31)
    D,
    /// 128-bit (Q0-Q31)
    Q,
}

impl FpRegWidth {
    pub open spec fn prefix(self) -> char {
        match self {
            FpRegWidth::B => 'b',
            FpRegWidth::H => 'h',
            FpRegWidth::S => 's',
            FpRegWidth::D => 'd',
            FpRegWidth::Q => 'q',
        }
    }
}

/// A floating-point/SIMD scalar register.
#[derive(Debug, Clone, Copy, PartialEq, Eq, Hash, Structural)]
pub struct FpReg {
    pub number: u8,
    pub width: FpRegWidth,
}

impl FpReg {
    pub open spec fn wf(self) -> bool {
        self.number <= 31
    }

    pub fn new(number: u8, width: FpRegWidth) -> (r: FpReg)
        requires
            number <= 31,
        ensures
            r.number == number,
            r.width == width,
            r.wf(),
    {
        FpReg { number, width }
    }

    pub fn encoding(&self) -> (r: u8)
        ensures
            r == self.number,
    {
        self.number
    }

    pub open spec fn spec_name(self) -> Seq<char> {
        seq![self.width.prefix()] + decimal_digits(self.number as nat)
    }

    pub fn to_string(&self) -> (r: String)
        ensures
            r@ == self.spec_name(),
    {
        let mut s = String::new();
        let c = match self.width {
            FpRegWidth::B => 'b',
            FpRegWidth::H => 'h',
            FpRegWidth::S => 's',
            FpRegWidth::D => 'd',
            FpRegWidth::Q => 'q',
        };
        push_char(&mut s, c);
        push_decimal(&mut s, self.number as u64);
        s
    }
}

/// SIMD vector arrangement specifier.
#[derive(Debug, Clone, Copy, PartialEq, Eq, Hash, Structural)]
pub enum VecArrangement {
    /// 8 bytes (8B)
    B8,
    /// 16 bytes (16B)
    B16,
    /// 4 half-words (4H)
    H4,
    /// 8 half-words (8H)
    H8,
    /// 2 single-words (2S)
    S2,
    /// 4 single-words (4S)
    S4,
    /// 1 double-word (1D)
    D1,
    /// 2 double-words (2D)
    D2,
}

impl VecArrangement {
    pub open spec fn suffix(self) -> Seq<char> {
        match self {
            VecArrangement::B8 => seq!['8', 'b'],
            VecArrangement::B16 => seq!['1', '6', 'b'],
            VecArrangement::H4 => seq!['4', 'h'],
            VecArrangement::H8 => seq!['8', 'h'],
            VecArrangement::S2 => seq!['2', 's'],
            VecArrangement::S4 => seq!['4', 's'],
            VecArrangement::D1 => seq!['1', 'd'],
            VecArrangement::D2 => seq!['2', 'd'],
        }
    }
}

/// A SIMD vector register with arrangement.
#[derive(Debug, Clone, Copy, PartialEq, Eq, Hash, Structural)]
pub struct VecReg {
    pub number: u8,
    pub arrangement: VecArrangement,
}

impl VecReg {
    pub open spec fn wf(self) -> bool {
        self.number <= 31
    }

    pub fn new(number: u8, arrangement: VecArrangement) -> (r: VecReg)
        requires
            number <= 31,
        ensures
            r.number == number,
            r.arrangement == arrangement,
            r.wf(),
    {
        VecReg { number, arrangement }
    }

    pub fn encoding(&self) -> (r: u8)
        ensures
            r == self.number,
    {
        self.number
    }

    pub open spec fn spec_name(self) -> Seq<char> {
        seq!['v'] + decimal_digits(self.number as nat) + seq!['.'] + self.arrangement.suffix()
    }

    pub fn to_string(&self) -> (r: String)
        ensures
            r@ == self.spec_name(),
    {
        let mut s = String::new();
        push_char(&mut s, 'v');
        push_decimal(&mut s, self.number as u64);
        push_char(&mut s, '.');
        let suffix: &[char] = match self.arrangement {
            VecArrangement::B8 => &['8', 'b'],
            VecArrangement::B16 => &['1', '6', 'b'],
            VecArrangement::H4 => &['4', 'h'],
            VecArrangement::H8 => &['8', 'h'],
            VecArrangement::S2 => &['2', 's'],
            VecArrangement::S4 => &['4', 's'],
            VecArrangement::D1 => &['1', 'd'],
            VecArrangement::D2 => &['2', 'd'],
        };
        let mut i: usize = 0;
        let ghost base = s@;
        while i < suffix.len()
            invariant
                0 <= i <= suffix@.len(),
                s@ =~= base + suffix@.take(i as int),
            decreases suffix@.len() - i,
        {
            push_char(&mut s, suffix[i]);
            i = i + 1;
        }
        assert(suffix@.take(suffix@.len() as int) =~= suffix@);
        assert(suffix@ == self.arrangement.suffix());
        s
    }
}

/// Unified register type.
#[derive(Debug, Clone, Copy, PartialEq, Eq, Hash, Structural)]
pub enum Register {
    Gp(GpReg),
    Special(SpecialReg),
    Fp(FpReg),
    Vec(VecReg),
}

impl Register {
    pub open spec fn wf(self) -> bool {
        match self {
            Register::Gp(r) => r.wf(),
            Register::Special(_) => true,
            Register::Fp(r) => r.wf(),
            Register::Vec(r) => r.wf(),
        }
    }

    /// The 5-bit register number used in instruction fields.
    pub open spec fn spec_encoding(self) -> u8 {
        match self {
            Register::Gp(r) => r.number,
            Register::Special(_) => 31,
            Register::Fp(r) => r.number,
            Register::Vec(r) => r.number,
        }
    }

    /// The 5-bit register encoding.
    pub fn encoding(&self) -> (r: u8)
        ensures
            r == self.spec_encoding(),
    {
        match self {
            Register::Gp(r) => r.encoding(),
            Register::Special(r) => r.encoding(),
            Register::Fp(r) => r.encoding(),
            Register::Vec(r) => r.encoding(),
        }
    }

    pub open spec fn spec_name(self) -> Seq<char> {
        match self {
            Register::Gp(r) => r.spec_name(),
            Register::Special(r) => r.spec_name(),
            Register::Fp(r) => r.spec_name(),
            Register::Vec(r) => r.spec_name(),
        }
    }

    pub fn to_string(&self) -> (r: String)
        ensures
            r@ == self.spec_name(),
    {
        match self {
            Register::Gp(r) => r.to_string(),
            Register::Special(r) => r.to_string(),
            Register::Fp(r) => r.to_string(),
            Register::Vec(r) => r.to_string(),
        }
    }
}

} // verus!
