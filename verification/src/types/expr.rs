//! Expressions that can appear as immediates and directive arguments.

use vstd::prelude::*;
use crate::text::{ascii_lower_seq, chars_eq, lower_chars};

verus! {

/// Relocation modifier for symbol references.
#[derive(Debug, Clone, Copy, PartialEq, Eq, Hash, Structural)]
pub enum RelocModifier {
    /// `:lo12:sym` — page offset, bits [11:0]
    Lo12,
    /// `:pg_hi21:sym` — page address, bits [32:12]
    PgHi21,
    /// `:got:sym` — GOT page
    Got,
    /// `:got_lo12:sym` — GOT page offset
    GotLo12,
}

impl RelocModifier {
    /// The lower-case spelling of the modifier between the two colons.
    pub open spec fn name(self) -> Seq<char> {
        match self {
            RelocModifier::Lo12 => seq!['l', 'o', '1', '2'],
            RelocModifier::PgHi21 => seq!['p', 'g', '_', 'h', 'i', '2', '1'],
            RelocModifier::Got => seq!['g', 'o', 't'],
            RelocModifier::GotLo12 => seq!['g', 'o', 't', '_', 'l', 'o', '1', '2'],
        }
    }

    /// Parse a modifier name (case-insensitive).
    /// Parse a modifier name (between the colons), case-insensitively.
    pub fn parse(s: &str) -> (r: Option<RelocModifier>)
        ensures
            r matches Some(m) ==> m.name() == ascii_lower_seq(s@),
            r is None ==> forall|m: RelocModifier| #[trigger] m.name() != ascii_lower_seq(s@),
    {
        let cs = crate::text::str_chars(s);
        RelocModifier::parse_chars(&cs)
    }

    pub fn parse_chars(s: &[char]) -> (r: Option<RelocModifier>)
        ensures
            r matches Some(m) ==> m.name() == ascii_lower_seq(s@),
            r is None ==> forall|m: RelocModifier| #[trigger] m.name() != ascii_lower_seq(s@),
    {
        let l = lower_chars(s);
        assert(l@ == ascii_lower_seq(s@));
        if chars_eq(&l, &['l', 'o', '1', '2']) { return Some(RelocModifier::Lo12); }
        if chars_eq(&l, &['p', 'g', '_', 'h', 'i', '2', '1']) { return Some(RelocModifier::PgHi21); }
        if chars_eq(&l, &['g', 'o', 't']) { return Some(RelocModifier::Got); }
        if chars_eq(&l, &['g', 'o', 't', '_', 'l', 'o', '1', '2']) { return Some(RelocModifier::GotLo12); }
        assert forall|m: RelocModifier| #[trigger] m.name() != ascii_lower_seq(s@) by {
            match m { RelocModifier::Lo12 => {}, _ => {} }
        }
        None
    }
}

/// Binary operators in assembly expressions.
#[derive(Debug, Clone, Copy, PartialEq, Eq, Hash, Structural)]
pub enum BinOp {
    Add,
    Sub,
    Mul,
    Div,
}

/// Unary operators in assembly expressions.
#[derive(Debug, Clone, Copy, PartialEq, Eq, Hash, Structural)]
pub enum UnaryOp {
    Neg,
    Not,
}

/// An expression that can appear as an immediate operand.
#[derive(Debug, PartialEq, Eq)]
pub enum Expr {
    /// An integer literal.
    Literal(i64),
    /// A symbol reference.
    Symbol(String),
    /// A relocated symbol: `modifier(symbol + addend)`.
    Relocated { modifier: RelocModifier, symbol: String, addend: i64 },
    /// Binary operation.
    Binary { op: BinOp, lhs: Box<Expr>, rhs: Box<Expr> },
    /// Unary operation.
    Unary { op: UnaryOp, expr: Box<Expr> },
    /// `.` — current address.
    CurrentAddress,
}

/// Two's-complement negation that wraps at `i64::MIN`.
pub open spec fn wrapping_neg(v: i64) -> i64 {
    if v == i64::MIN { i64::MIN } else { (-v) as i64 }
}

/// Division rounding toward zero that wraps at `i64::MIN / -1`; undefined for a zero divisor.
pub open spec fn wrapping_div(l: i64, r: i64) -> i64 {
    if l == i64::MIN && r == -1 {
        i64::MIN
    } else {
        match l.checked_div(r) {
            Some(q) => q,
            None => 0,
        }
    }
}

/// The constant value of an expression built from literals with wrapping arithmetic,
/// or `None` when it mentions a symbol, a relocation, `.`, or divides by zero.
pub open spec fn spec_as_literal(e: Expr) -> Option<i64>
    decreases e,
{
    match e {
        Expr::Literal(v) => Some(v),
        Expr::Unary { op, expr } => match spec_as_literal(*expr) {
            Some(v) => match op {
                UnaryOp::Neg => Some(wrapping_neg(v)),
                UnaryOp::Not => Some(!v),
            },
            None => None,
        },
        Expr::Binary { op, lhs, rhs } => match (spec_as_literal(*lhs), spec_as_literal(*rhs)) {
            (Some(l), Some(r)) => match op {
                BinOp::Add => Some(vstd::wrapping::i64_specs::wrapping_add(l, r)),
                BinOp::Sub => Some(vstd::wrapping::i64_specs::wrapping_sub(l, r)),
                BinOp::Mul => Some(vstd::wrapping::i64_specs::wrapping_mul(l, r)),
                BinOp::Div => if r == 0 { None } else { Some(wrapping_div(l, r)) },
            },
            _ => None,
        },
        _ => None,
    }
}

impl Expr {
    /// If this expression is a compile-time integer constant, return it.
    pub fn as_literal(&self) -> (r: Option<i64>)
        ensures
            r == spec_as_literal(*self),
        decreases self,
    {
        match self {
            Expr::Literal(v) => Some(*v),
            Expr::Unary { op, expr } => {
                match expr.as_literal() {
                    Some(v) => match op {
                        UnaryOp::Neg => Some(if v == i64::MIN { i64::MIN } else { -v }),
                        UnaryOp::Not => Some(!v),
                    },
                    None => None,
                }
            }
            Expr::Binary { op, lhs, rhs } => {
                let l = match lhs.as_literal() {
                    Some(l) => l,
                    None => return None,
                };
                let r = match rhs.as_literal() {
                    Some(r) => r,
                    None => return None,
                };
                match op {
                    BinOp::Add => Some(l.wrapping_add(r)),
                    BinOp::Sub => Some(l.wrapping_sub(r)),
                    BinOp::Mul => Some(l.wrapping_mul(r)),
                    BinOp::Div => {
                        if r == 0 {
                            return None;
                        }
                        if l == i64::MIN && r == -1 {
                            Some(i64::MIN)
                        } else {
                            match l.checked_div(r) {
                                Some(q) => Some(q),
                                None => Some(0),
                            }
                        }
                    }
                }
            }
            _ => None,
        }
    }

    /// A copy of this expression.
    pub fn copy(&self) -> (r: Expr)
        ensures
            r == *self,
        decreases self,
    {
        match self {
            Expr::Literal(v) => Expr::Literal(*v),
            Expr::Symbol(s) => Expr::Symbol(s.clone()),
            Expr::Relocated { modifier, symbol, addend } => Expr::Relocated {
                modifier: *modifier,
                symbol: symbol.clone(),
                addend: *addend,
            },
            Expr::Binary { op, lhs, rhs } => Expr::Binary {
                op: *op,
                lhs: Box::new(lhs.copy()),
                rhs: Box::new(rhs.copy()),
            },
            Expr::Unary { op, expr } => Expr::Unary { op: *op, expr: Box::new(expr.copy()) },
            Expr::CurrentAddress => Expr::CurrentAddress,
        }
    }
}


/// The abstract value of an expression: names as character sequences.
pub enum ExprView {
    Literal(i64),
    Symbol(Seq<char>),
    Relocated { modifier: RelocModifier, symbol: Seq<char>, addend: i64 },
    Binary { op: BinOp, lhs: Box<ExprView>, rhs: Box<ExprView> },
    Unary { op: UnaryOp, expr: Box<ExprView> },
    CurrentAddress,
}

/// The abstract value of an expression.
pub open spec fn expr_view(e: Expr) -> ExprView
    decreases e,
{
    match e {
        Expr::Literal(v) => ExprView::Literal(v),
        Expr::Symbol(s) => ExprView::Symbol(s@),
        Expr::Relocated { modifier, symbol, addend } => ExprView::Relocated { modifier, symbol: symbol@, addend },
        Expr::Binary { op, lhs, rhs } => ExprView::Binary {
            op,
            lhs: Box::new(expr_view(*lhs)),
            rhs: Box::new(expr_view(*rhs)),
        },
        Expr::Unary { op, expr } => ExprView::Unary { op, expr: Box::new(expr_view(*expr)) },
        Expr::CurrentAddress => ExprView::CurrentAddress,
    }
}

/// The constant value of an expression's abstract value, as `spec_as_literal` computes it.
pub open spec fn view_as_literal(e: ExprView) -> Option<i64>
    decreases e,
{
    match e {
        ExprView::Literal(v) => Some(v),
        ExprView::Unary { op, expr } => match view_as_literal(*expr) {
            Some(v) => match op {
                UnaryOp::Neg => Some(wrapping_neg(v)),
                UnaryOp::Not => Some(!v),
            },
            None => None,
        },
        ExprView::Binary { op, lhs, rhs } => match (view_as_literal(*lhs), view_as_literal(*rhs)) {
            (Some(l), Some(r)) => match op {
                BinOp::Add => Some(vstd::wrapping::i64_specs::wrapping_add(l, r)),
                BinOp::Sub => Some(vstd::wrapping::i64_specs::wrapping_sub(l, r)),
                BinOp::Mul => Some(vstd::wrapping::i64_specs::wrapping_mul(l, r)),
                BinOp::Div => if r == 0 { None } else { Some(wrapping_div(l, r)) },
            },
            _ => None,
        },
        _ => None,
    }
}

/// An expression and its abstract value have the same constant value.
pub proof fn lemma_view_as_literal(e: Expr)
    ensures
        view_as_literal(expr_view(e)) == spec_as_literal(e),
    decreases e,
{
    match e {
        Expr::Unary { op, expr } => lemma_view_as_literal(*expr),
        Expr::Binary { op, lhs, rhs } => {
            lemma_view_as_literal(*lhs);
            lemma_view_as_literal(*rhs);
        },
        _ => {},
    }
}

impl View for Expr {
    type V = ExprView;

    open spec fn view(&self) -> ExprView {
        expr_view(*self)
    }
}

impl Clone for Expr {
    fn clone(&self) -> (r: Self)
        ensures
            r == *self,
    {
        self.copy()
    }
}

} // verus!
