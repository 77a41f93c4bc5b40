//! Tokens of ARM64 assembly source.

use vstd::prelude::*;
use crate::types::operand::{ExtendOp, ShiftOp};
use crate::types::register::{FpReg, GpReg, Register, SpecialReg};

verus! {

/// A token. Identifier-like tokens carry no text: the parser reads it from the source by span.
#[derive(Debug, PartialEq)]
pub enum Token {
    BlockComment,
    GpReg(GpReg),
    WReg(GpReg),
    Sp,
    Wsp,
    Xzr,
    Wzr,
    FpRegB(FpReg),
    FpRegH(FpReg),
    FpRegS(FpReg),
    FpRegD(FpReg),
    FpRegQ(FpReg),
    VecReg(u8),
    Integer(i64),
    StringLiteral(String),
    Lsl,
    Lsr,
    Asr,
    Ror,
    Uxtb,
    Uxth,
    Uxtw,
    Uxtx,
    Sxtb,
    Sxth,
    Sxtw,
    Sxtx,
    Directive,
    Ident,
    Comma,
    LBracket,
    RBracket,
    Exclaim,
    Colon,
    Hash,
    Dot,
    LParen,
    RParen,
    Plus,
    Minus,
    Star,
    Slash,
    Tilde,
    Eq,
    Newline,
}

/// The abstract value of a token: a string literal's text as characters.
pub enum TokenView {
    BlockComment,
    GpReg(GpReg),
    WReg(GpReg),
    Sp,
    Wsp,
    Xzr,
    Wzr,
    FpRegB(FpReg),
    FpRegH(FpReg),
    FpRegS(FpReg),
    FpRegD(FpReg),
    FpRegQ(FpReg),
    VecReg(u8),
    Integer(i64),
    StringLiteral(Seq<char>),
    Lsl,
    Lsr,
    Asr,
    Ror,
    Uxtb,
    Uxth,
    Uxtw,
    Uxtx,
    Sxtb,
    Sxth,
    Sxtw,
    Sxtx,
    Directive,
    Ident,
    Comma,
    LBracket,
    RBracket,
    Exclaim,
    Colon,
    Hash,
    Dot,
    LParen,
    RParen,
    Plus,
    Minus,
    Star,
    Slash,
    Tilde,
    Eq,
    Newline,
}

impl View for Token {
    type V = TokenView;

    open spec fn view(&self) -> TokenView {
        match self {
            Token::BlockComment => TokenView::BlockComment,
            Token::GpReg(r) => TokenView::GpReg(*r),
            Token::WReg(r) => TokenView::WReg(*r),
            Token::Sp => TokenView::Sp,
            Token::Wsp => TokenView::Wsp,
            Token::Xzr => TokenView::Xzr,
            Token::Wzr => TokenView::Wzr,
            Token::FpRegB(r) => TokenView::FpRegB(*r),
            Token::FpRegH(r) => TokenView::FpRegH(*r),
            Token::FpRegS(r) => TokenView::FpRegS(*r),
            Token::FpRegD(r) => TokenView::FpRegD(*r),
            Token::FpRegQ(r) => TokenView::FpRegQ(*r),
            Token::VecReg(n) => TokenView::VecReg(*n),
            Token::Integer(n) => TokenView::Integer(*n),
            Token::StringLiteral(s) => TokenView::StringLiteral(s@),
            Token::Lsl => TokenView::Lsl,
            Token::Lsr => TokenView::Lsr,
            Token::Asr => TokenView::Asr,
            Token::Ror => TokenView::Ror,
            Token::Uxtb => TokenView::Uxtb,
            Token::Uxth => TokenView::Uxth,
            Token::Uxtw => TokenView::Uxtw,
            Token::Uxtx => TokenView::Uxtx,
            Token::Sxtb => TokenView::Sxtb,
            Token::Sxth => TokenView::Sxth,
            Token::Sxtw => TokenView::Sxtw,
            Token::Sxtx => TokenView::Sxtx,
            Token::Directive => TokenView::Directive,
            Token::Ident => TokenView::Ident,
            Token::Comma => TokenView::Comma,
            Token::LBracket => TokenView::LBracket,
            Token::RBracket => TokenView::RBracket,
            Token::Exclaim => TokenView::Exclaim,
            Token::Colon => TokenView::Colon,
            Token::Hash => TokenView::Hash,
            Token::Dot => TokenView::Dot,
            Token::LParen => TokenView::LParen,
            Token::RParen => TokenView::RParen,
            Token::Plus => TokenView::Plus,
            Token::Minus => TokenView::Minus,
            Token::Star => TokenView::Star,
            Token::Slash => TokenView::Slash,
            Token::Tilde => TokenView::Tilde,
            Token::Eq => TokenView::Eq,
            Token::Newline => TokenView::Newline,
        }
    }
}

impl TokenView {
    /// The register a register token names.
    pub open spec fn register(self) -> Option<Register> {
        match self {
            TokenView::GpReg(r) => Some(Register::Gp(r)),
            TokenView::WReg(r) => Some(Register::Gp(r)),
            TokenView::Sp => Some(Register::Special(SpecialReg::Sp)),
            TokenView::Wsp => Some(Register::Special(SpecialReg::Wsp)),
            TokenView::Xzr => Some(Register::Special(SpecialReg::Xzr)),
            TokenView::Wzr => Some(Register::Special(SpecialReg::Wzr)),
            TokenView::FpRegB(r) => Some(Register::Fp(r)),
            TokenView::FpRegH(r) => Some(Register::Fp(r)),
            TokenView::FpRegS(r) => Some(Register::Fp(r)),
            TokenView::FpRegD(r) => Some(Register::Fp(r)),
            TokenView::FpRegQ(r) => Some(Register::Fp(r)),
            _ => None,
        }
    }

    /// Whether the register a token names, if any, is well formed.
    pub open spec fn register_wf(self) -> bool {
        match self.register() {
            Some(r) => r.wf(),
            None => true,
        }
    }

    /// The shift a shift keyword names.
    pub open spec fn shift_op(self) -> Option<ShiftOp> {
        match self {
            TokenView::Lsl => Some(ShiftOp::Lsl),
            TokenView::Lsr => Some(ShiftOp::Lsr),
            TokenView::Asr => Some(ShiftOp::Asr),
            TokenView::Ror => Some(ShiftOp::Ror),
            _ => None,
        }
    }

    /// The extension an extend keyword names.
    pub open spec fn extend_op(self) -> Option<ExtendOp> {
        match self {
            TokenView::Uxtb => Some(ExtendOp::Uxtb),
            TokenView::Uxth => Some(ExtendOp::Uxth),
            TokenView::Uxtw => Some(ExtendOp::Uxtw),
            TokenView::Uxtx => Some(ExtendOp::Uxtx),
            TokenView::Sxtb => Some(ExtendOp::Sxtb),
            TokenView::Sxth => Some(ExtendOp::Sxth),
            TokenView::Sxtw => Some(ExtendOp::Sxtw),
            TokenView::Sxtx => Some(ExtendOp::Sxtx),
            _ => None,
        }
    }

    /// The variant's position in the declaration; tokens of one variant share it whatever they carry.
    pub open spec fn kind(self) -> nat {
        match self {
            TokenView::BlockComment => 0,
            TokenView::GpReg(_) => 1,
            TokenView::WReg(_) => 2,
            TokenView::Sp => 3,
            TokenView::Wsp => 4,
            TokenView::Xzr => 5,
            TokenView::Wzr => 6,
            TokenView::FpRegB(_) => 7,
            TokenView::FpRegH(_) => 8,
            TokenView::FpRegS(_) => 9,
            TokenView::FpRegD(_) => 10,
            TokenView::FpRegQ(_) => 11,
            TokenView::VecReg(_) => 12,
            TokenView::Integer(_) => 13,
            TokenView::StringLiteral(_) => 14,
            TokenView::Lsl => 15,
            TokenView::Lsr => 16,
            TokenView::Asr => 17,
            TokenView::Ror => 18,
            TokenView::Uxtb => 19,
            TokenView::Uxth => 20,
            TokenView::Uxtw => 21,
            TokenView::Uxtx => 22,
            TokenView::Sxtb => 23,
            TokenView::Sxth => 24,
            TokenView::Sxtw => 25,
            TokenView::Sxtx => 26,
            TokenView::Directive => 27,
            TokenView::Ident => 28,
            TokenView::Comma => 29,
            TokenView::LBracket => 30,
            TokenView::RBracket => 31,
            TokenView::Exclaim => 32,
            TokenView::Colon => 33,
            TokenView::Hash => 34,
            TokenView::Dot => 35,
            TokenView::LParen => 36,
            TokenView::RParen => 37,
            TokenView::Plus => 38,
            TokenView::Minus => 39,
            TokenView::Star => 40,
            TokenView::Slash => 41,
            TokenView::Tilde => 42,
            TokenView::Eq => 43,
            TokenView::Newline => 44,
        }
    }
}

impl Token {
    /// Convert register tokens to the unified `Register` type.
    pub fn as_register(&self) -> (r: Option<Register>)
        ensures
            r == self@.register(),
    {
        match self {
            Token::GpReg(r) | Token::WReg(r) => Some(Register::Gp(*r)),
            Token::Sp => Some(Register::Special(SpecialReg::Sp)),
            Token::Wsp => Some(Register::Special(SpecialReg::Wsp)),
            Token::Xzr => Some(Register::Special(SpecialReg::Xzr)),
            Token::Wzr => Some(Register::Special(SpecialReg::Wzr)),
            Token::FpRegB(r) | Token::FpRegH(r) | Token::FpRegS(r) | Token::FpRegD(r) | Token::FpRegQ(r) => Some(Register::Fp(*r)),
            _ => None,
        }
    }

    /// Convert shift keyword tokens to `ShiftOp`.
    pub fn as_shift_op(&self) -> (r: Option<ShiftOp>)
        ensures
            r == self@.shift_op(),
    {
        match self {
            Token::Lsl => Some(ShiftOp::Lsl),
            Token::Lsr => Some(ShiftOp::Lsr),
            Token::Asr => Some(ShiftOp::Asr),
            Token::Ror => Some(ShiftOp::Ror),
            _ => None,
        }
    }

    /// Convert extend keyword tokens to `ExtendOp`.
    pub fn as_extend_op(&self) -> (r: Option<ExtendOp>)
        ensures
            r == self@.extend_op(),
    {
        match self {
            Token::Uxtb => Some(ExtendOp::Uxtb),
            Token::Uxth => Some(ExtendOp::Uxth),
            Token::Uxtw => Some(ExtendOp::Uxtw),
            Token::Uxtx => Some(ExtendOp::Uxtx),
            Token::Sxtb => Some(ExtendOp::Sxtb),
            Token::Sxth => Some(ExtendOp::Sxth),
            Token::Sxtw => Some(ExtendOp::Sxtw),
            Token::Sxtx => Some(ExtendOp::Sxtx),
            _ => None,
        }
    }

    /// Check if this token is a newline.
    pub fn is_newline(&self) -> (r: bool)
        ensures
            r == (self@ == TokenView::Newline),
    {
        match self {
            Token::Newline => true,
            _ => false,
        }
    }

    /// Check if this token represents any GP register (X or W).
    pub fn as_gp_reg(&self) -> (r: Option<GpReg>)
        ensures
            r == (match self@ {
                TokenView::GpReg(g) => Some(g),
                TokenView::WReg(g) => Some(g),
                _ => None,
            }),
    {
        match self {
            Token::GpReg(r) | Token::WReg(r) => Some(*r),
            _ => None,
        }
    }

    /// Check if this token represents any FP register.
    pub fn as_fp_reg(&self) -> (r: Option<FpReg>)
        ensures
            r == (match self@ {
                TokenView::FpRegB(f) => Some(f),
                TokenView::FpRegH(f) => Some(f),
                TokenView::FpRegS(f) => Some(f),
                TokenView::FpRegD(f) => Some(f),
                TokenView::FpRegQ(f) => Some(f),
                _ => None,
            }),
    {
        match self {
            Token::FpRegB(r) | Token::FpRegH(r) | Token::FpRegS(r) | Token::FpRegD(r) | Token::FpRegQ(r) => Some(*r),
            _ => None,
        }
    }

    /// Whether two tokens are of the same variant, whatever they carry.
    pub fn same_kind(&self, other: &Token) -> (r: bool)
        ensures
            r == (self@.kind() == other@.kind()),
    {
        self.kind() == other.kind()
    }

    /// The variant's position in the declaration.
    pub fn kind(&self) -> (r: u8)
        ensures
            r == self@.kind(),
    {
        match self {
            Token::BlockComment => 0,
            Token::GpReg(_) => 1,
            Token::WReg(_) => 2,
            Token::Sp => 3,
            Token::Wsp => 4,
            Token::Xzr => 5,
            Token::Wzr => 6,
            Token::FpRegB(_) => 7,
            Token::FpRegH(_) => 8,
            Token::FpRegS(_) => 9,
            Token::FpRegD(_) => 10,
            Token::FpRegQ(_) => 11,
            Token::VecReg(_) => 12,
            Token::Integer(_) => 13,
            Token::StringLiteral(_) => 14,
            Token::Lsl => 15,
            Token::Lsr => 16,
            Token::Asr => 17,
            Token::Ror => 18,
            Token::Uxtb => 19,
            Token::Uxth => 20,
            Token::Uxtw => 21,
            Token::Uxtx => 22,
            Token::Sxtb => 23,
            Token::Sxth => 24,
            Token::Sxtw => 25,
            Token::Sxtx => 26,
            Token::Directive => 27,
            Token::Ident => 28,
            Token::Comma => 29,
            Token::LBracket => 30,
            Token::RBracket => 31,
            Token::Exclaim => 32,
            Token::Colon => 33,
            Token::Hash => 34,
            Token::Dot => 35,
            Token::LParen => 36,
            Token::RParen => 37,
            Token::Plus => 38,
            Token::Minus => 39,
            Token::Star => 40,
            Token::Slash => 41,
            Token::Tilde => 42,
            Token::Eq => 43,
            Token::Newline => 44,
        }
    }

    /// A copy of this token.
    pub fn copy(&self) -> (r: Token)
        ensures
            r@ == self@,
    {
        match self {
            Token::StringLiteral(s) => Token::StringLiteral(s.clone()),
            Token::BlockComment => Token::BlockComment,
            Token::GpReg(r) => Token::GpReg(*r),
            Token::WReg(r) => Token::WReg(*r),
            Token::Sp => Token::Sp,
            Token::Wsp => Token::Wsp,
            Token::Xzr => Token::Xzr,
            Token::Wzr => Token::Wzr,
            Token::FpRegB(r) => Token::FpRegB(*r),
            Token::FpRegH(r) => Token::FpRegH(*r),
            Token::FpRegS(r) => Token::FpRegS(*r),
            Token::FpRegD(r) => Token::FpRegD(*r),
            Token::FpRegQ(r) => Token::FpRegQ(*r),
            Token::VecReg(n) => Token::VecReg(*n),
            Token::Integer(n) => Token::Integer(*n),
            Token::Lsl => Token::Lsl,
            Token::Lsr => Token::Lsr,
            Token::Asr => Token::Asr,
            Token::Ror => Token::Ror,
            Token::Uxtb => Token::Uxtb,
            Token::Uxth => Token::Uxth,
            Token::Uxtw => Token::Uxtw,
            Token::Uxtx => Token::Uxtx,
            Token::Sxtb => Token::Sxtb,
            Token::Sxth => Token::Sxth,
            Token::Sxtw => Token::Sxtw,
            Token::Sxtx => Token::Sxtx,
            Token::Directive => Token::Directive,
            Token::Ident => Token::Ident,
            Token::Comma => Token::Comma,
            Token::LBracket => Token::LBracket,
            Token::RBracket => Token::RBracket,
            Token::Exclaim => Token::Exclaim,
            Token::Colon => Token::Colon,
            Token::Hash => Token::Hash,
            Token::Dot => Token::Dot,
            Token::LParen => Token::LParen,
            Token::RParen => Token::RParen,
            Token::Plus => Token::Plus,
            Token::Minus => Token::Minus,
            Token::Star => Token::Star,
            Token::Slash => Token::Slash,
            Token::Tilde => Token::Tilde,
            Token::Eq => Token::Eq,
            Token::Newline => Token::Newline,
        }
    }
}

impl Clone for Token {
    fn clone(&self) -> (r: Self)
        ensures
            r@ == self@,
    {
        self.copy()
    }
}

} // verus!
