//! Expressions: a Pratt parser over `+ - * /` with unary `-`, `~`, parentheses, symbols,
//! `.` and relocation modifiers.

use vstd::prelude::*;
use crate::lexer::token::{Token, TokenView};
use crate::text::{ascii_lower_seq, push_str};
use crate::types::error::{AsmError, ErrorView};
use crate::types::expr::{wrapping_neg, BinOp, Expr, ExprView, RelocModifier, UnaryOp};
use crate::types::span::Span;
use crate::parser::state::{span_ok, span_text, spec_expect, PState, ParseEnv, Parser};

verus! {

/// The binary operator of a token, with its left and right binding powers.
pub open spec fn binop_of(t: TokenView) -> Option<(BinOp, u8, u8)> {
    match t {
        TokenView::Plus => Some((BinOp::Add, 1, 2)),
        TokenView::Minus => Some((BinOp::Sub, 1, 2)),
        TokenView::Star => Some((BinOp::Mul, 3, 4)),
        TokenView::Slash => Some((BinOp::Div, 3, 4)),
        _ => None,
    }
}

/// The relocation modifier a name spells, case-insensitively.
pub open spec fn reloc_named(name: Seq<char>) -> Option<RelocModifier> {
    if exists|m: RelocModifier| m.name() == ascii_lower_seq(name) {
        Some(choose|m: RelocModifier| m.name() == ascii_lower_seq(name))
    } else {
        None
    }
}

proof fn lemma_reloc_name_unique(a: RelocModifier, b: RelocModifier)
    requires
        a.name() == b.name(),
    ensures
        a == b,
{
    assert(RelocModifier::Lo12.name().len() == 4);
    assert(RelocModifier::PgHi21.name().len() == 7);
    assert(RelocModifier::Got.name().len() == 3);
    assert(RelocModifier::GotLo12.name().len() == 8);
}

/// The result of parsing a relocation expression `:modifier:symbol[+-n]`.
pub open spec fn p_reloc(env: ParseEnv, st: PState) -> (Option<ExprView>, PState) {
    let start = env.span_at(st.pos);
    let (c1, s1) = spec_expect(env, st, TokenView::Colon.kind(), "expected `:`"@);
    if c1 is None {
        (None, s1)
    } else {
        let (m, s2) = spec_expect(env, s1, TokenView::Ident.kind(), "expected relocation modifier"@);
        match m {
            None => (None, s2),
            Some((_, mspan)) => {
                let name = span_text(env.text, mspan);
                match reloc_named(name) {
                    None => (None, s2.push(ErrorView::ParseError {
                        detail: "unknown relocation modifier `"@ + name + "`"@,
                        span: start.spec_merge(mspan),
                    })),
                    Some(modifier) => {
                        let (c2, s3) = spec_expect(env, s2, TokenView::Colon.kind(), "expected `:` after relocation modifier"@);
                        if c2 is None {
                            (None, s3)
                        } else {
                            let (sy, s4) = spec_expect(env, s3, TokenView::Ident.kind(), "expected symbol name"@);
                            match sy {
                                None => (None, s4),
                                Some((_, sspan)) => {
                                    let symbol = span_text(env.text, sspan);
                                    if env.check(s4, TokenView::Plus.kind()) || env.check(s4, TokenView::Minus.kind()) {
                                        let negate = env.check(s4, TokenView::Minus.kind());
                                        let (n, s5) = spec_expect(env, s4.next(), TokenView::Integer(0).kind(), "expected integer addend"@);
                                        match n {
                                            Some((TokenView::Integer(v), _)) => (Some(ExprView::Relocated {
                                                modifier,
                                                symbol,
                                                addend: if negate { wrapping_neg(v) } else { v },
                                            }), s5),
                                            _ => (None, s5),
                                        }
                                    } else {
                                        (Some(ExprView::Relocated { modifier, symbol, addend: 0 }), s4)
                                    }
                                },
                            }
                        }
                    },
                }
            },
        }
    }
}

/// The result of parsing an expression whose operators bind at least `min_bp`.
pub open spec fn p_expr_bp(env: ParseEnv, st: PState, min_bp: u8) -> (Option<ExprView>, PState)
    decreases env.toks.len() - st.pos, 2nat,
{
    let (a, st1) = p_atom(env, st);
    match a {
        None => (None, st1),
        Some(lhs) => if st.pos < st1.pos <= env.toks.len() { p_loop(env, st1, lhs, min_bp) } else { (Some(lhs), st1) },
    }
}

/// Extending `lhs` with operators that bind at least `min_bp`.
pub open spec fn p_loop(env: ParseEnv, st: PState, lhs: ExprView, min_bp: u8) -> (Option<ExprView>, PState)
    decreases env.toks.len() - st.pos, 0nat,
{
    match env.tok(st.pos) {
        None => (Some(lhs), st),
        Some(t) => match binop_of(t) {
            None => (Some(lhs), st),
            Some((op, l_bp, r_bp)) => if l_bp < min_bp {
                (Some(lhs), st)
            } else if 0 <= st.pos < env.toks.len() {
                let (r, st2) = p_expr_bp(env, st.next(), r_bp);
                match r {
                    None => (Some(lhs), st2.err(env, "expected expression after operator"@)),
                    Some(rhs) => {
                        let e = ExprView::Binary { op, lhs: Box::new(lhs), rhs: Box::new(rhs) };
                        if st.pos < st2.pos <= env.toks.len() { p_loop(env, st2, e, min_bp) } else { (Some(e), st2) }
                    },
                }
            } else {
                (Some(lhs), st)
            },
        },
    }
}

/// The result of parsing an atom: a number, a negation or complement, a parenthesized
/// expression, `.`, a symbol or a relocation.
pub open spec fn p_atom(env: ParseEnv, st: PState) -> (Option<ExprView>, PState)
    decreases env.toks.len() - st.pos, 1nat,
{
    if !(0 <= st.pos < env.toks.len()) {
        (None, st)
    } else {
        match env.toks[st.pos].0 {
            TokenView::Integer(n) => (Some(ExprView::Literal(n)), st.next()),
            TokenView::Minus => {
                let (inner, st2) = p_atom(env, st.next());
                match inner {
                    Some(e) => (Some(ExprView::Unary { op: UnaryOp::Neg, expr: Box::new(e) }), st2),
                    None => (None, st2),
                }
            },
            TokenView::Tilde => {
                let (inner, st2) = p_atom(env, st.next());
                match inner {
                    Some(e) => (Some(ExprView::Unary { op: UnaryOp::Not, expr: Box::new(e) }), st2),
                    None => (None, st2),
                }
            },
            TokenView::LParen => {
                let (inner, st2) = p_expr_bp(env, st.next(), 0);
                match inner {
                    None => (None, st2),
                    Some(e) => {
                        let (x, st3) = spec_expect(env, st2, TokenView::RParen.kind(), "expected `)`"@);
                        if x is Some { (Some(e), st3) } else { (None, st3) }
                    },
                }
            },
            TokenView::Dot => (Some(ExprView::CurrentAddress), st.next()),
            TokenView::Ident => (Some(ExprView::Symbol(env.text_at(st.pos))), st.next()),
            TokenView::Colon => p_reloc(env, st),
            _ => (None, st.err(env, "expected expression"@)),
        }
    }
}

/// The result of parsing an expression.
#[verifier::opaque]
pub open spec fn p_expr(env: ParseEnv, st: PState) -> (Option<ExprView>, PState) {
    p_expr_bp(env, st, 0)
}

impl<'src> Parser<'src> {
    /// Parse an expression (Pratt parser entry point).
    pub fn parse_expr(&mut self) -> (r: Option<Expr>)
        requires
            old(self).wf(),
        ensures
            final(self).wf(),
            final(self).env() == old(self).env(),
            old(self).st().pos <= final(self).st().pos,
            r is Some ==> old(self).st().pos < final(self).st().pos,
            ({
                let (x, st) = p_expr(old(self).env(), old(self).st());
                final(self).st() == st && match r {
                    Some(e) => x == Some(e@),
                    None => x is None,
                }
            }),
    {
        proof { reveal(p_expr); }
        self.parse_expr_bp(0)
    }

    /// Pratt parser with binding power.
    fn parse_expr_bp(&mut self, min_bp: u8) -> (r: Option<Expr>)
        requires
            old(self).wf(),
        ensures
            final(self).wf(),
            final(self).env() == old(self).env(),
            old(self).st().pos <= final(self).st().pos,
            r is Some ==> old(self).st().pos < final(self).st().pos,
            ({
                let (x, st) = p_expr_bp(old(self).env(), old(self).st(), min_bp);
                final(self).st() == st && match r {
                    Some(e) => x == Some(e@),
                    None => x is None,
                }
            }),
        decreases old(self).env().toks.len() - old(self).st().pos, 2nat,
    {
        proof { self.lemma_wf(); }
        let ghost env = self.env();
        let ghost st0 = self.st();
        let mut lhs = match self.parse_expr_atom() {
            Some(e) => e,
            None => {
                return None;
            },
        };
        proof { self.lemma_wf(); }
        loop
            invariant_except_break
                self.wf(),
                env == old(self).env(),
                st0 == old(self).st(),
                self.env() == env,
                st0.pos < self.st().pos <= env.toks.len(),
                p_expr_bp(env, st0, min_bp) == p_loop(env, self.st(), lhs@, min_bp),
            ensures
                self.wf(),
                env == old(self).env(),
                st0 == old(self).st(),
                self.env() == env,
                st0.pos < self.st().pos,
                p_expr_bp(env, st0, min_bp) == (Some(lhs@), self.st()),
            decreases env.toks.len() - self.st().pos,
        {
            let (op, l_bp, r_bp): (BinOp, u8, u8) = match self.peek() {
                Some(Token::Plus) => (BinOp::Add, 1, 2),
                Some(Token::Minus) => (BinOp::Sub, 1, 2),
                Some(Token::Star) => (BinOp::Mul, 3, 4),
                Some(Token::Slash) => (BinOp::Div, 3, 4),
                _ => {
                    break;
                },
            };
            if l_bp < min_bp {
                break;
            }
            self.advance();
            proof { self.lemma_wf(); }
            let rhs = match self.parse_expr_bp(r_bp) {
                Some(r) => r,
                None => {
                    self.error("expected expression after operator");
                    proof { self.lemma_wf(); }
                    return Some(lhs);
                },
            };
            proof { self.lemma_wf(); }
            lhs = Expr::Binary { op, lhs: Box::new(lhs), rhs: Box::new(rhs) };
        }
        Some(lhs)
    }

    /// Parse an atom in an expression.
    fn parse_expr_atom(&mut self) -> (r: Option<Expr>)
        requires
            old(self).wf(),
        ensures
            final(self).wf(),
            final(self).env() == old(self).env(),
            old(self).st().pos <= final(self).st().pos,
            r is Some ==> old(self).st().pos < final(self).st().pos,
            ({
                let (x, st) = p_atom(old(self).env(), old(self).st());
                final(self).st() == st && match r {
                    Some(e) => x == Some(e@),
                    None => x is None,
                }
            }),
        decreases old(self).env().toks.len() - old(self).st().pos, 1nat,
    {
        proof { self.lemma_wf(); }
        let kind = match self.peek() {
            None => {
                return None;
            },
            Some(t) => t.kind(),
        };
        if kind == 13 {
            return match self.advance() {
                Some((Token::Integer(n), _)) => Some(Expr::Literal(n)),
                _ => None,
            };
        }
        if kind == 39 || kind == 42 {
            self.advance();
            let inner = match self.parse_expr_atom() {
                Some(e) => e,
                None => {
                    return None;
                },
            };
            let op = if kind == 39 { UnaryOp::Neg } else { UnaryOp::Not };
            return Some(Expr::Unary { op, expr: Box::new(inner) });
        }
        if kind == 36 {
            self.advance();
            let inner = match self.parse_expr_bp(0) {
                Some(e) => e,
                None => {
                    return None;
                },
            };
            if self.expect(&Token::RParen, "expected `)`").is_none() {
                return None;
            }
            return Some(inner);
        }
        if kind == 35 {
            self.advance();
            return Some(Expr::CurrentAddress);
        }
        if kind == 28 {
            let span = match self.advance() {
                Some((_, s)) => s,
                None => {
                    return None;
                },
            };
            proof { self.lemma_wf(); }
            let name = self.slice(span);
            return Some(Expr::Symbol(name));
        }
        if kind == 33 {
            return self.parse_reloc_expr();
        }
        self.error("expected expression");
        None
    }

    /// Parse a relocation expression like `:lo12:symbol` or `:lo12:symbol+addend`.
    fn parse_reloc_expr(&mut self) -> (r: Option<Expr>)
        requires
            old(self).wf(),
        ensures
            final(self).wf(),
            final(self).env() == old(self).env(),
            old(self).st().pos <= final(self).st().pos,
            r is Some ==> old(self).st().pos < final(self).st().pos,
            ({
                let (x, st) = p_reloc(old(self).env(), old(self).st());
                final(self).st() == st && match r {
                    Some(e) => x == Some(e@),
                    None => x is None,
                }
            }),
    {
        proof { self.lemma_wf(); }
        let start_span = self.peek_span();
        self.expect(&Token::Colon, "expected `:`")?;
        let (_, mod_span) = self.expect(&Token::Ident, "expected relocation modifier")?;
        proof { self.lemma_wf(); }
        let mod_name = self.slice(mod_span);
        let modifier = match RelocModifier::parse(mod_name.as_str()) {
            Some(m) => m,
            None => {
                proof {
                    assert(start_span.end() <= u32::MAX);
                }
                let mut detail = String::new();
                push_str(&mut detail, "unknown relocation modifier `");
                push_str(&mut detail, mod_name.as_str());
                push_str(&mut detail, "`");
                let span = start_span.merge(mod_span);
                self.push_error(AsmError::ParseError { detail, span });
                return None;
            },
        };
        proof {
            let m = modifier;
            assert(reloc_named(mod_name@) == Some(m)) by {
                assert(exists|x: RelocModifier| x.name() == ascii_lower_seq(mod_name@));
                let c = choose|x: RelocModifier| x.name() == ascii_lower_seq(mod_name@);
                lemma_reloc_name_unique(c, m);
            }
        }
        self.expect(&Token::Colon, "expected `:` after relocation modifier")?;
        let (_, sym_span) = self.expect(&Token::Ident, "expected symbol name")?;
        proof { self.lemma_wf(); }
        let symbol = self.slice(sym_span);
        let addend = if self.check(&Token::Plus) || self.check(&Token::Minus) {
            let negate = self.check(&Token::Minus);
            self.advance();
            let (n, _) = self.expect_integer("expected integer addend")?;
            if negate {
                if n == i64::MIN { n } else { -n }
            } else {
                n
            }
        } else {
            0
        };
        Some(Expr::Relocated { modifier, symbol, addend })
    }
}

} // verus!
