//! Instructions: a mnemonic, an optional condition suffix for `b`, and a comma-separated
//! operand list.

use vstd::prelude::*;
use crate::lexer::token::{Token, TokenView};
use crate::text::{ascii_lower_seq, str_chars};
use crate::types::error::{owned, AsmError, ErrorView};
use crate::types::instruction::{Instruction, InstructionView, Mnemonic};
use crate::types::operand::{Condition, Operand, OperandView};
use crate::types::span::Span;
use crate::parser::state::{span_ok, spec_eat, PState, ParseEnv, Parser};
use crate::parser::operand::p_operand;
use crate::encode::dp_imm::{operand_wf, operands_wf};

verus! {

/// The text of a directive token without its leading `.`.
pub open spec fn suffix_of(t: Seq<char>) -> Seq<char> {
    if t.len() > 0 { t.subrange(1, t.len() as int) } else { t }
}

/// The condition a `b` mnemonic is suffixed with: the current token is a directive whose
/// text after the `.` names a condition.
pub open spec fn cond_suffix(env: ParseEnv, st: PState) -> Option<Condition> {
    if env.tok(st.pos) == Some(TokenView::Directive) {
        Condition::from_name(ascii_lower_seq(suffix_of(env.text_at(st.pos))))
    } else {
        None
    }
}

/// The operands after the first: `, operand` repeated; the span is that of the last token read.
pub open spec fn p_more_operands(env: ParseEnv, st: PState, ops: Seq<OperandView>, end: Span) -> (
    Option<(Seq<OperandView>, Span)>,
    PState,
)
    decreases env.toks.len() - st.pos,
{
    let (c, s1) = spec_eat(env, st, TokenView::Comma.kind());
    if c is None {
        (Some((ops, end)), s1)
    } else {
        let (o, s2) = p_operand(env, s1);
        match o {
            None => (None, s2),
            Some(op) => if st.pos < s2.pos <= env.toks.len() {
                p_more_operands(env, s2, ops.push(op), env.toks[s2.pos - 1].1)
            } else {
                (None, s2)
            },
        }
    }
}

/// The operand list, if the line does not end here.
pub open spec fn p_operand_list(env: ParseEnv, st: PState, ops: Seq<OperandView>, end: Span) -> (
    Option<(Seq<OperandView>, Span)>,
    PState,
) {
    if env.at_eol(st) {
        (Some((ops, end)), st)
    } else {
        let (o, s1) = p_operand(env, st);
        match o {
            None => (None, s1),
            Some(op) => if st.pos < s1.pos <= env.toks.len() {
                p_more_operands(env, s1, ops.push(op), env.toks[s1.pos - 1].1)
            } else {
                (None, s1)
            },
        }
    }
}

/// The result of parsing an instruction whose mnemonic `name` spans `mspan`.
pub open spec fn p_instruction(env: ParseEnv, st: PState, name: Seq<char>, mspan: Span) -> (
    Option<InstructionView>,
    PState,
) {
    match Mnemonic::named(ascii_lower_seq(name)) {
        None => (None, st.push(ErrorView::UnknownMnemonic { mnemonic: name, span: mspan })),
        Some(m) => {
            let cond = if m == Mnemonic::B { cond_suffix(env, st) } else { None };
            let (m2, ops0, end0, s1) = match cond {
                Some(c) => (
                    Mnemonic::BCond,
                    seq![OperandView::Condition(c)],
                    mspan.spec_merge(env.span_at(st.pos)),
                    st.next(),
                ),
                None => (m, Seq::empty(), mspan, st),
            };
            match p_operand_list(env, s1, ops0, end0) {
                (Some((ops, end)), s2) => (Some(InstructionView { mnemonic: m2, operands: ops, span: end }), s2),
                (None, s2) => (None, s2),
            }
        },
    }
}

impl<'src> Parser<'src> {
    /// Parse an instruction: mnemonic followed by operand list.
    /// The mnemonic identifier token has already been identified; `name` is its text, `mnem_span` its span.
    pub fn parse_instruction(&mut self, name: &str, mnem_span: Span) -> (r: Option<Instruction>)
        requires
            old(self).wf(),
            mnem_span.end() <= u32::MAX,
        ensures
            final(self).wf(),
            final(self).env() == old(self).env(),
            old(self).st().pos <= final(self).st().pos,
            r matches Some(i) ==> operands_wf(i.operands@),
            ({
                let (x, st) = p_instruction(old(self).env(), old(self).st(), name@, mnem_span);
                final(self).st() == st && match r {
                    Some(i) => x == Some(i@),
                    None => x is None,
                }
            }),
    {
        proof { self.lemma_wf(); }
        let ghost env = self.env();
        let ghost st0 = self.st();
        let mut mnemonic = match Mnemonic::parse(name) {
            Some(m) => {
                proof {
                    let c = choose|x: Mnemonic| #[trigger] x.name() == Some(ascii_lower_seq(name@));
                    Mnemonic::lemma_name_unique(c, m);
                }
                m
            },
            None => {
                self.push_error(AsmError::UnknownMnemonic { mnemonic: owned(name), span: mnem_span });
                return None;
            },
        };
        let mut operands: Vec<Operand> = Vec::new();
        let mut end_span = mnem_span;
        if mnemonic == Mnemonic::B {
            let is_dir = match self.peek() {
                Some(t) => t.kind() == 27,
                None => false,
            };
            if is_dir {
                let dir_span = self.peek_span();
                let dir_text = self.slice(dir_span);
                let cs = str_chars(dir_text.as_str());
                let suffix: &[char] = if cs.len() > 0 {
                    vstd::slice::slice_subrange(cs.as_slice(), 1, cs.len())
                } else {
                    cs.as_slice()
                };
                if let Some(cond) = Condition::parse_chars(suffix) {
                    proof {
                        let l = ascii_lower_seq(suffix_of(env.text_at(st0.pos)));
                        assert(suffix@ == suffix_of(env.text_at(st0.pos)));
                        let c = choose|x: Condition| #[trigger] x.named(l);
                        Condition::lemma_named_unique(c, cond, l);
                    }
                    self.advance();
                    mnemonic = Mnemonic::BCond;
                    operands.push(Operand::Condition(cond));
                    end_span = end_span.merge(dir_span);
                } else {
                    proof {
                        assert(suffix@ == suffix_of(env.text_at(st0.pos)));
                    }
                }
            }
        }
        let ghost ops0 = operands@.map_values(|o: Operand| o@);
        assert(ops0 =~= (if mnemonic == Mnemonic::BCond { seq![OperandView::Condition(operands[0]->0)] } else {
            Seq::<OperandView>::empty()
        }));
        let listed = self.parse_operand_list(&mut operands, &mut end_span);
        if !listed {
            return None;
        }
        Some(Instruction { mnemonic, operands, span: end_span })
    }

    /// Parse the operand list up to the end of the line, appending to `operands` and
    /// moving `end` to the span of the last token read; false when an operand fails.
    fn parse_operand_list(&mut self, operands: &mut Vec<Operand>, end: &mut Span) -> (r: bool)
        requires
            old(self).wf(),
            operands_wf(old(operands)@),
        ensures
            operands_wf(final(operands)@),
            final(self).wf(),
            final(self).env() == old(self).env(),
            old(self).st().pos <= final(self).st().pos,
            ({
                let (x, st) = p_operand_list(
                    old(self).env(),
                    old(self).st(),
                    old(operands)@.map_values(|o: Operand| o@),
                    *old(end),
                );
                final(self).st() == st && match x {
                    Some((ops, e)) => r && final(operands)@.map_values(|o: Operand| o@) == ops && *final(end) == e,
                    None => !r,
                }
            }),
    {
        proof { self.lemma_wf(); }
        let ghost env = self.env();
        if self.at_eol() {
            return true;
        }
        let ghost ops_before = operands@.map_values(|o: Operand| o@);
        match self.parse_operand() {
            Some(op) => operands.push(op),
            None => {
                return false;
            },
        }
        proof {
            self.lemma_wf();
            assert(operands@.map_values(|o: Operand| o@) =~= ops_before.push(operands@.last()@));
        }
        *end = self.prev_span();
        loop
            invariant
                self.wf(),
                operands_wf(operands@),
                self.env() == env,
                env == old(self).env(),
                old(self).st().pos < self.st().pos,
                p_operand_list(env, old(self).st(), old(operands)@.map_values(|o: Operand| o@), *old(end))
                    == p_more_operands(env, self.st(), operands@.map_values(|o: Operand| o@), *end),
            decreases env.toks.len() - self.st().pos,
        {
            proof { self.lemma_wf(); }
            if self.eat(&Token::Comma).is_none() {
                return true;
            }
            let ghost ops_before = operands@.map_values(|o: Operand| o@);
            match self.parse_operand() {
                Some(op) => operands.push(op),
                None => {
                    return false;
                },
            }
            proof {
                self.lemma_wf();
                assert(operands@.map_values(|o: Operand| o@) =~= ops_before.push(operands@.last()@));
            }
            *end = self.prev_span();
        }
    }
}

} // verus!
