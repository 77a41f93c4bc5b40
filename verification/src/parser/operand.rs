//! Operands: registers, immediates, labels, memory addressing, shifts and extends.

use vstd::prelude::*;
use crate::lexer::token::{Token, TokenView};
use crate::types::expr::{view_as_literal, lemma_view_as_literal, ExprView};
use crate::types::operand::{ExtendOp, MemoryOperand, MemoryOperandView, Operand, OperandView, ShiftOp};
use crate::types::register::Register;
use crate::parser::state::{spec_eat, spec_expect, PState, ParseEnv, Parser};
use crate::parser::expr::p_expr;
use crate::encode::dp_imm::operand_wf;

verus! {

/// Closing a register-indexed memory operand with `]`.
pub open spec fn p_index_close(
    env: ParseEnv,
    st: PState,
    base: Register,
    index: Register,
    extend: Option<ExtendOp>,
    amount: Option<u8>,
) -> (Option<MemoryOperandView>, PState) {
    let (rb, s1) = spec_expect(env, st, TokenView::RBracket.kind(), "expected `]`"@);
    if rb is None {
        (None, s1)
    } else {
        (Some(MemoryOperandView::BaseRegister { base, index, extend, amount }), s1)
    }
}

/// The optional `#amount` after an index extension; an amount that folds to a number
/// keeps its low eight bits, one that does not is dropped.
pub open spec fn p_index_amount(env: ParseEnv, st: PState, base: Register, index: Register, ext: ExtendOp) -> (
    Option<MemoryOperandView>,
    PState,
) {
    let (h, s1) = spec_eat(env, st, TokenView::Hash.kind());
    if h is Some {
        let (e, s2) = p_expr(env, s1);
        match e {
            None => (None, s2),
            Some(x) => p_index_close(env, s2, base, index, Some(ext), match view_as_literal(x) {
                Some(v) => Some(v as u8),
                None => None,
            }),
        }
    } else {
        p_index_close(env, s1, base, index, Some(ext), None)
    }
}

/// The rest of `[base, index{, extend {#amount}}]` after the index register.
pub open spec fn p_index(env: ParseEnv, st: PState, base: Register, index: Register) -> (
    Option<MemoryOperandView>,
    PState,
) {
    let (c, s1) = spec_eat(env, st, TokenView::Comma.kind());
    let t = env.tok(s1.pos);
    if c is None {
        p_index_close(env, s1, base, index, None, None)
    } else if t is Some && t->0.extend_op() is Some {
        p_index_amount(env, s1.next(), base, index, t->0.extend_op()->0)
    } else if t is Some && t->0.shift_op() is Some {
        if t->0.shift_op() == Some(ShiftOp::Lsl) {
            p_index_amount(env, s1.next(), base, index, ExtendOp::Uxtx)
        } else {
            (None, s1.next().err(env, "only LSL is valid for register index"@))
        }
    } else {
        p_index_close(env, s1, base, index, None, None)
    }
}

/// The rest of `[base, #imm]` or `[base, #imm]!` after the comma.
pub open spec fn p_offset(env: ParseEnv, st: PState, base: Register) -> (Option<MemoryOperandView>, PState) {
    let (h, s1) = spec_eat(env, st, TokenView::Hash.kind());
    if h is None {
        (None, s1.err(env, "expected register, `#`, or `]`"@))
    } else {
        let (e, s2) = p_expr(env, s1);
        match e {
            None => (None, s2),
            Some(offset) => {
                let (rb, s3) = spec_expect(env, s2, TokenView::RBracket.kind(), "expected `]`"@);
                if rb is None {
                    (None, s3)
                } else {
                    let (ex, s4) = spec_eat(env, s3, TokenView::Exclaim.kind());
                    if ex is Some {
                        (Some(MemoryOperandView::PreIndex { reg: base, offset }), s4)
                    } else {
                        (Some(MemoryOperandView::BaseOffset { reg: base, offset }), s4)
                    }
                }
            },
        }
    }
}

/// The rest of `[base]` or `[base], #offset` after the closing bracket.
pub open spec fn p_post(env: ParseEnv, st: PState, base: Register) -> (Option<MemoryOperandView>, PState) {
    let (c, s1) = spec_eat(env, st, TokenView::Comma.kind());
    if c is None {
        (Some(MemoryOperandView::Base { reg: base }), s1)
    } else {
        let (h, s2) = spec_eat(env, s1, TokenView::Hash.kind());
        if h is None {
            (None, s2.err(env, "expected `#` after post-index comma"@))
        } else {
            let (e, s3) = p_expr(env, s2);
            match e {
                None => (None, s3),
                Some(offset) => (Some(MemoryOperandView::PostIndex { reg: base, offset }), s3),
            }
        }
    }
}

/// The result of parsing a memory operand.
#[verifier::opaque]
pub open spec fn p_memory(env: ParseEnv, st: PState) -> (Option<MemoryOperandView>, PState) {
    let (lb, s1) = spec_expect(env, st, TokenView::LBracket.kind(), "expected `[`"@);
    if lb is None {
        (None, s1)
    } else {
        match env.tok(s1.pos) {
            None => (None, s1),
            Some(t) => match t.register() {
                None => (None, s1.err(env, "expected base register"@)),
                Some(base) => {
                    let (rb, s2) = spec_eat(env, s1.next(), TokenView::RBracket.kind());
                    if rb is Some {
                        p_post(env, s2, base)
                    } else {
                        let (c, s3) = spec_expect(env, s2, TokenView::Comma.kind(), "expected `,` or `]`"@);
                        if c is None {
                            (None, s3)
                        } else {
                            match env.tok(s3.pos) {
                                None => (None, s3),
                                Some(n) => match n.register() {
                                    Some(index) => p_index(env, s3.next(), base, index),
                                    None => p_offset(env, s3, base),
                                },
                            }
                        }
                    }
                },
            },
        }
    }
}

/// An expression result as an immediate operand.
pub open spec fn as_immediate(r: (Option<ExprView>, PState)) -> (Option<OperandView>, PState) {
    match r.0 {
        Some(e) => (Some(OperandView::Immediate(e)), r.1),
        None => (None, r.1),
    }
}

/// The result of parsing an extend operand after its keyword.
#[verifier::opaque]
pub open spec fn p_extend(env: ParseEnv, st: PState, op: ExtendOp) -> (Option<OperandView>, PState) {
    let (h, s1) = spec_eat(env, st, TokenView::Hash.kind());
    if h is Some || (!env.at_eol(s1) && !env.check(s1, TokenView::Comma.kind()) && !env.check(
        s1,
        TokenView::RBracket.kind(),
    )) {
        let (e, s2) = p_expr(env, s1);
        match e {
            Some(a) => (Some(OperandView::Extend { op, amount: Some(a) }), s2),
            None => (None, s2),
        }
    } else {
        (Some(OperandView::Extend { op, amount: None }), s1)
    }
}

/// The result of parsing a shift operand after its keyword; the `#` is optional.
#[verifier::opaque]
pub open spec fn p_shift(env: ParseEnv, st: PState, op: ShiftOp) -> (Option<OperandView>, PState) {
    let s1 = spec_eat(env, st, TokenView::Hash.kind()).1;
    let (e, s2) = p_expr(env, s1);
    match e {
        Some(amount) => (Some(OperandView::Shift { op, amount }), s2),
        None => (None, s2),
    }
}

/// The result of parsing one operand.
#[verifier::opaque]
pub open spec fn p_operand(env: ParseEnv, st: PState) -> (Option<OperandView>, PState) {
    match env.tok(st.pos) {
        None => (None, st),
        Some(t) => if t.register() is Some {
            (Some(OperandView::Register(t.register()->0)), st.next())
        } else if t == TokenView::LBracket {
            let (m, s) = p_memory(env, st);
            match m {
                Some(x) => (Some(OperandView::Memory(x)), s),
                None => (None, s),
            }
        } else if t == TokenView::Hash {
            as_immediate(p_expr(env, st.next()))
        } else if t.shift_op() is Some {
            p_shift(env, st.next(), t.shift_op()->0)
        } else if t.extend_op() is Some {
            p_extend(env, st.next(), t.extend_op()->0)
        } else if t == TokenView::Ident {
            (Some(OperandView::Label(env.text_at(st.pos))), st.next())
        } else if t is Integer || t == TokenView::Minus || t == TokenView::Colon {
            as_immediate(p_expr(env, st))
        } else {
            (None, st.err(env, "expected operand"@))
        },
    }
}

impl<'src> Parser<'src> {
    /// Parse a single operand.
    pub fn parse_operand(&mut self) -> (r: Option<Operand>)
        requires
            old(self).wf(),
        ensures
            final(self).wf(),
            final(self).env() == old(self).env(),
            old(self).st().pos <= final(self).st().pos,
            r is Some ==> old(self).st().pos < final(self).st().pos,
            r matches Some(o) ==> operand_wf(o),
            ({
                let (x, st) = p_operand(old(self).env(), old(self).st());
                final(self).st() == st && match r {
                    Some(o) => x == Some(o@),
                    None => x is None,
                }
            }),
    {
        proof {
            self.lemma_wf();
            reveal(p_operand);
        }
        let (reg, shift, ext, kind) = match self.peek() {
            None => {
                return None;
            },
            Some(t) => (t.as_register(), t.as_shift_op(), t.as_extend_op(), t.kind()),
        };
        assert(self.env().toks[self.st().pos].0.register_wf());
        if let Some(reg) = reg {
            self.advance();
            return Some(Operand::Register(reg));
        }
        if kind == 30 {
            return match self.parse_memory_operand() {
                Some(m) => Some(Operand::Memory(m)),
                None => None,
            };
        }
        if kind == 34 {
            self.advance();
            return match self.parse_expr() {
                Some(e) => Some(Operand::Immediate(e)),
                None => None,
            };
        }
        if let Some(op) = shift {
            self.advance();
            return self.parse_shift_amount(op);
        }
        if let Some(op) = ext {
            self.advance();
            return self.parse_extend_amount(op);
        }
        if kind == 28 {
            let span = match self.advance() {
                Some((_, s)) => s,
                None => {
                    return None;
                },
            };
            proof { self.lemma_wf(); }
            return Some(Operand::Label(self.slice(span)));
        }
        if kind == 13 || kind == 39 || kind == 33 {
            return match self.parse_expr() {
                Some(e) => Some(Operand::Immediate(e)),
                None => None,
            };
        }
        self.error("expected operand");
        None
    }

    /// The amount of a shift operand, after its keyword.
    fn parse_shift_amount(&mut self, op: ShiftOp) -> (r: Option<Operand>)
        requires
            old(self).wf(),
        ensures
            final(self).wf(),
            final(self).env() == old(self).env(),
            old(self).st().pos <= final(self).st().pos,
            r matches Some(o) ==> operand_wf(o),
            ({
                let (x, st) = p_shift(old(self).env(), old(self).st(), op);
                final(self).st() == st && match r {
                    Some(o) => x == Some(o@),
                    None => x is None,
                }
            }),
    {
        proof { reveal(p_shift); }
        self.eat(&Token::Hash);
        match self.parse_expr() {
            Some(amount) => Some(Operand::Shift { op, amount }),
            None => None,
        }
    }

    /// The optional amount of an extend operand, after its keyword.
    fn parse_extend_amount(&mut self, op: ExtendOp) -> (r: Option<Operand>)
        requires
            old(self).wf(),
        ensures
            final(self).wf(),
            final(self).env() == old(self).env(),
            old(self).st().pos <= final(self).st().pos,
            r matches Some(o) ==> operand_wf(o),
            ({
                let (x, st) = p_extend(old(self).env(), old(self).st(), op);
                final(self).st() == st && match r {
                    Some(o) => x == Some(o@),
                    None => x is None,
                }
            }),
    {
        proof { reveal(p_extend); }
        let has_hash = self.eat(&Token::Hash).is_some();
        if has_hash || (!self.at_eol() && !self.check(&Token::Comma) && !self.check(&Token::RBracket)) {
            return match self.parse_expr() {
                Some(amount) => Some(Operand::Extend { op, amount: Some(amount) }),
                None => None,
            };
        }
        Some(Operand::Extend { op, amount: None })
    }

    /// Parse a memory operand: `[base]`, `[base, offset]`, `[base, offset]!`, `[base], offset`
    fn parse_memory_operand(&mut self) -> (r: Option<MemoryOperand>)
        requires
            old(self).wf(),
        ensures
            final(self).wf(),
            final(self).env() == old(self).env(),
            old(self).st().pos <= final(self).st().pos,
            r is Some ==> old(self).st().pos < final(self).st().pos,
            r matches Some(m) ==> operand_wf(Operand::Memory(m)),
            ({
                let (x, st) = p_memory(old(self).env(), old(self).st());
                final(self).st() == st && match r {
                    Some(m) => x == Some(m@),
                    None => x is None,
                }
            }),
    {
        proof { reveal(p_memory); }
        self.expect(&Token::LBracket, "expected `[`")?;
        proof { self.lemma_wf(); }
        let base = match self.peek() {
            None => {
                return None;
            },
            Some(t) => t.as_register(),
        };
        assert(base is Some ==> self.env().toks[self.st().pos].0.register_wf());
        let base = match base {
            Some(reg) => {
                self.advance();
                reg
            },
            None => {
                self.error("expected base register");
                return None;
            },
        };
        if self.eat(&Token::RBracket).is_some() {
            if self.eat(&Token::Comma).is_some() {
                if self.eat(&Token::Hash).is_some() {
                    let offset = self.parse_expr()?;
                    return Some(MemoryOperand::PostIndex { reg: base, offset });
                }
                self.error("expected `#` after post-index comma");
                return None;
            }
            return Some(MemoryOperand::Base { reg: base });
        }
        self.expect(&Token::Comma, "expected `,` or `]`")?;
        proof { self.lemma_wf(); }
        let index = match self.peek() {
            None => {
                return None;
            },
            Some(t) => t.as_register(),
        };
        assert(index is Some ==> self.env().toks[self.st().pos].0.register_wf());
        if let Some(index) = index {
            self.advance();
            return self.parse_index_tail(base, index);
        }
        if self.eat(&Token::Hash).is_some() {
            let offset = self.parse_expr()?;
            self.expect(&Token::RBracket, "expected `]`")?;
            if self.eat(&Token::Exclaim).is_some() {
                return Some(MemoryOperand::PreIndex { reg: base, offset });
            }
            return Some(MemoryOperand::BaseOffset { reg: base, offset });
        }
        self.error("expected register, `#`, or `]`");
        None
    }

    /// The rest of a register-indexed memory operand: `{, extend {#amount}}]`.
    fn parse_index_tail(&mut self, base: Register, index: Register) -> (r: Option<MemoryOperand>)
        requires
            old(self).wf(),
            base.wf(),
            index.wf(),
        ensures
            r matches Some(m) ==> operand_wf(Operand::Memory(m)),
            final(self).wf(),
            final(self).env() == old(self).env(),
            old(self).st().pos <= final(self).st().pos,
            r is Some ==> old(self).st().pos < final(self).st().pos,
            ({
                let (x, st) = p_index(old(self).env(), old(self).st(), base, index);
                final(self).st() == st && match r {
                    Some(m) => x == Some(m@),
                    None => x is None,
                }
            }),
    {
        let mut extend: Option<ExtendOp> = None;
        let mut amount: Option<u8> = None;
        if self.eat(&Token::Comma).is_some() {
            let (e, s) = match self.peek() {
                Some(t) => (t.as_extend_op(), t.as_shift_op()),
                None => (None, None),
            };
            if let Some(x) = e {
                self.advance();
                extend = Some(x);
            } else if let Some(shift) = s {
                self.advance();
                match shift {
                    ShiftOp::Lsl => {
                        extend = Some(ExtendOp::Uxtx);
                    },
                    _ => {
                        self.error("only LSL is valid for register index");
                        return None;
                    },
                }
            }
            if extend.is_some() && self.eat(&Token::Hash).is_some() {
                let expr = self.parse_expr()?;
                proof { lemma_view_as_literal(expr); }
                amount = match expr.as_literal() {
                    Some(v) => Some(v as u8),
                    None => None,
                };
            }
        }
        self.expect(&Token::RBracket, "expected `]`")?;
        Some(MemoryOperand::BaseRegister { base, index, extend, amount })
    }
}

} // verus!
