//! Statements: lines of labels, instructions and directives, and the parser's entry point.

use vstd::prelude::*;
use vstd::utf8::encode_utf8;
use crate::lexer::Lexer;
use crate::lexer::{lemma_lex_spans, lex_from, span_of};
use crate::lexer::scan::{byte_offset, lemma_byte_offset_bound};
use crate::lexer::token::{Token, TokenView};
use crate::text::{str_chars, string_from_chars};
use crate::types::error::{AsmError, ErrorView};
use crate::types::span::Span;
use crate::types::statement::{Statement, StatementView};
use crate::parser::state::{lemma_offsets_strict, span_ok, spec_eat, spec_skip_to_newline, PState, ParseEnv, Parser};
use crate::parser::instruction::{p_instruction, suffix_of};
use crate::parser::directive::p_directive;
use crate::pipeline::pass2::statements_wf;
use crate::lexer::lemma_lex_registers;

verus! {

/// What follows an optional label on a line: a directive, an instruction, or nothing;
/// a line that fails is skipped to its end.
pub open spec fn p_body(env: ParseEnv, st: PState) -> (Seq<StatementView>, PState) {
    match env.tok(st.pos) {
        Some(TokenView::Directive) => {
            let dspan = env.toks[st.pos].1;
            match p_directive(env, st.next(), suffix_of(env.text_at(st.pos)), dspan) {
                (Some(d), s1) => (seq![StatementView::Directive { directive: d, span: dspan }], s1),
                (None, s1) => (Seq::empty(), spec_skip_to_newline(env, s1)),
            }
        },
        Some(TokenView::Ident) | Some(TokenView::FpRegB(_)) => {
            let mspan = env.toks[st.pos].1;
            match p_instruction(env, st.next(), env.text_at(st.pos), mspan) {
                (Some(i), s1) => (seq![StatementView::Instruction(i)], s1),
                (None, s1) => (Seq::empty(), spec_skip_to_newline(env, s1)),
            }
        },
        Some(TokenView::Newline) | None => (Seq::empty(), st),
        _ => (Seq::empty(), spec_skip_to_newline(env, st.err(env, "expected instruction, directive, or label"@))),
    }
}

/// Whether the line starts with a label: a name followed by `:`.
pub open spec fn label_at(env: ParseEnv, st: PState) -> bool {
    env.tok(st.pos) == Some(TokenView::Ident) && env.tok(st.pos + 1) == Some(TokenView::Colon)
}

/// The statements of one line (none, or a label and/or an instruction or directive).
pub open spec fn p_line(env: ParseEnv, st: PState) -> (Seq<StatementView>, PState) {
    if env.at_eol(st) {
        (Seq::empty(), st)
    } else if label_at(env, st) {
        let label = StatementView::Label {
            name: env.text_at(st.pos),
            span: env.toks[st.pos].1.spec_merge(env.toks[st.pos + 1].1),
        };
        let s1 = st.next().next();
        if env.at_eol(s1) {
            (seq![label], s1)
        } else {
            let (body, s2) = p_body(env, s1);
            (seq![label] + body, s2)
        }
    } else {
        p_body(env, st)
    }
}

/// The statements of every line from the current position to the end.
pub open spec fn p_all(env: ParseEnv, st: PState) -> (Seq<StatementView>, PState)
    decreases env.toks.len() - st.pos,
{
    if env.tok(st.pos) is None {
        (Seq::empty(), st)
    } else {
        let (line, s1) = p_line(env, st);
        let s2 = spec_eat(env, s1, TokenView::Newline.kind()).1;
        if st.pos < s2.pos <= env.toks.len() {
            let (rest, s3) = p_all(env, s2);
            (line + rest, s3)
        } else {
            (line, s2)
        }
    }
}

/// Skipping to the end of a line moves forward, past at least one token when not already there.
pub proof fn lemma_skip_forward(env: ParseEnv, st: PState)
    requires
        0 <= st.pos <= env.toks.len(),
    ensures
        st.pos <= spec_skip_to_newline(env, st).pos <= env.toks.len(),
        !env.at_eol(st) ==> st.pos < spec_skip_to_newline(env, st).pos,
        spec_skip_to_newline(env, st).errors == st.errors,
    decreases env.toks.len() - st.pos,
{
    if !env.at_eol(st) && 0 <= st.pos < env.toks.len() {
        lemma_skip_forward(env, st.next());
    }
}

/// The statements of all the tokens, with the lexer's errors followed by the parser's.
pub open spec fn spec_parse(text: Seq<char>) -> (Seq<StatementView>, Seq<ErrorView>) {
    let env = ParseEnv { toks: lex_from(text, 0).0, text };
    let (stmts, st) = p_all(env, PState { pos: 0, errors: lex_from(text, 0).1 });
    (stmts, st.errors)
}

/// Every token span the lexer produces covers whole characters of the text, when the
/// text's UTF-8 form fits in 32 bits.
pub proof fn lemma_lexed_spans_ok(text: Seq<char>)
    requires
        encode_utf8(text).len() <= u32::MAX,
    ensures
        forall|k: int| 0 <= k < lex_from(text, 0).0.len() ==> span_ok(text, #[trigger] lex_from(text, 0).0[k].1),
{
    lemma_lex_spans(text, 0);
    lemma_offsets_strict(text);
    assert forall|k: int| 0 <= k < lex_from(text, 0).0.len() implies span_ok(text, #[trigger] lex_from(text, 0).0[k].1) by {
        let (s, e) = choose|s: int, e: int| 0 <= s <= e <= text.len() && #[trigger] lex_from(text, 0).0[k].1 == span_of(text, s, e);
        lemma_byte_offset_bound(text, e);
        lemma_byte_offset_bound(text, s);
        if s < e {
            assert(byte_offset(text, s) < byte_offset(text, e));
        }
        let sp = span_of(text, s, e);
        assert(sp.offset == byte_offset(text, s));
        assert(sp.len == byte_offset(text, e) - byte_offset(text, s));
    }
}

impl<'src> Parser<'src> {
    /// Parse all statements from the token stream.
    pub fn parse_all(&mut self) -> (r: Vec<Statement>)
        requires
            old(self).wf(),
        ensures
            final(self).wf(),
            final(self).env() == old(self).env(),
            statements_wf(r@),
            ({
                let (stmts, st) = p_all(old(self).env(), old(self).st());
                r@.map_values(|s: Statement| s@) == stmts && final(self).st() == st
            }),
    {
        let ghost env = self.env();
        let mut stmts: Vec<Statement> = Vec::new();
        loop
            invariant
                self.wf(),
                statements_wf(stmts@),
                self.env() == env,
                env == old(self).env(),
                ({
                    let (all, st) = p_all(env, old(self).st());
                    let (rest, st2) = p_all(env, self.st());
                    all == stmts@.map_values(|s: Statement| s@) + rest && st == st2
                }),
            decreases env.toks.len() - self.st().pos,
        {
            proof { self.lemma_wf(); }
            if self.peek().is_none() {
                assert(stmts@.map_values(|s: Statement| s@) + Seq::<StatementView>::empty() =~= stmts@.map_values(|s: Statement| s@));
                return stmts;
            }
            let ghost st0 = self.st();
            let ghost before = stmts@.map_values(|s: Statement| s@);
            self.parse_line(&mut stmts);
            self.consume_newline();
            proof {
                self.lemma_wf();
                let line = p_line(env, st0).0;
                assert(stmts@.map_values(|s: Statement| s@) =~= before + line);
                let (rest, _) = p_all(env, self.st());
                assert(before + (line + rest) =~= (before + line) + rest);
            }
        }
    }

    /// Parse a single line, which may produce 0-2 statements (label + instruction/directive).
    fn parse_line(&mut self, stmts: &mut Vec<Statement>)
        requires
            old(self).wf(),
            statements_wf(old(stmts)@),
        ensures
            statements_wf(final(stmts)@),
            final(self).wf(),
            final(self).env() == old(self).env(),
            old(self).st().pos <= final(self).st().pos,
            !old(self).env().at_eol(old(self).st()) ==> old(self).st().pos < final(self).st().pos,
            ({
                let (line, st) = p_line(old(self).env(), old(self).st());
                final(stmts)@.map_values(|s: Statement| s@) == old(stmts)@.map_values(|s: Statement| s@) + line
                    && final(self).st() == st
            }),
    {
        proof { self.lemma_wf(); }
        let ghost before = stmts@.map_values(|s: Statement| s@);
        if self.at_eol() {
            assert(before + Seq::<StatementView>::empty() =~= before);
            return;
        }
        let is_ident = match self.peek() {
            Some(t) => t.kind() == 28,
            None => false,
        };
        let colon_next = match self.peek2() {
            Some(t) => t.kind() == 33,
            None => false,
        };
        if is_ident && colon_next {
            let name_span = match self.advance() {
                Some((_, s)) => s,
                None => {
                    return;
                },
            };
            let colon_span = match self.advance() {
                Some((_, s)) => s,
                None => {
                    return;
                },
            };
            proof { self.lemma_wf(); }
            let label_name = self.slice(name_span);
            let span = name_span.merge(colon_span);
            stmts.push(Statement::Label { name: label_name, span });
            assert(stmts@.map_values(|s: Statement| s@) =~= before.push(stmts@.last()@));
            if self.at_eol() {
                assert(before.push(stmts@.last()@) =~= before + seq![stmts@.last()@]);
                return;
            }
            let ghost mid = stmts@.map_values(|s: Statement| s@);
            self.parse_body(stmts);
            proof {
                let body = p_body(self.env(), old(self).st().next().next()).0;
                assert(mid + body =~= before + (seq![mid.last()] + body));
            }
            return;
        }
        self.parse_body(stmts);
    }

    /// Parse what follows an optional label: a directive, an instruction, or nothing.
    fn parse_body(&mut self, stmts: &mut Vec<Statement>)
        requires
            old(self).wf(),
            statements_wf(old(stmts)@),
        ensures
            statements_wf(final(stmts)@),
            final(self).wf(),
            final(self).env() == old(self).env(),
            old(self).st().pos <= final(self).st().pos,
            !old(self).env().at_eol(old(self).st()) ==> old(self).st().pos < final(self).st().pos,
            ({
                let (body, st) = p_body(old(self).env(), old(self).st());
                final(stmts)@.map_values(|s: Statement| s@) == old(stmts)@.map_values(|s: Statement| s@) + body
                    && final(self).st() == st
            }),
    {
        proof { self.lemma_wf(); }
        let ghost env = self.env();
        let ghost before = stmts@.map_values(|s: Statement| s@);
        let kind = match self.peek() {
            Some(t) => t.kind(),
            None => 44,
        };
        if kind == 27 {
            let dir_span = match self.advance() {
                Some((_, s)) => s,
                None => {
                    return;
                },
            };
            proof { self.lemma_wf(); }
            let text = self.slice(dir_span);
            let cs = str_chars(text.as_str());
            let name = if cs.len() > 0 {
                string_from_chars(vstd::slice::slice_subrange(cs.as_slice(), 1, cs.len()))
            } else {
                string_from_chars(cs.as_slice())
            };
            assert(name@ == suffix_of(env.text_at(old(self).st().pos)));
            match self.parse_directive(name.as_str(), dir_span) {
                Some(directive) => {
                    stmts.push(Statement::Directive { directive, span: dir_span });
                    assert(stmts@.map_values(|s: Statement| s@) =~= before + seq![stmts@.last()@]);
                },
                None => {
                    proof { self.lemma_wf(); lemma_skip_forward(self.env(), self.st()); }
                    self.skip_to_newline();
                    assert(before + Seq::<StatementView>::empty() =~= before);
                },
            }
            return;
        }
        if kind == 28 || kind == 7 {
            let mnem_span = match self.advance() {
                Some((_, s)) => s,
                None => {
                    return;
                },
            };
            proof { self.lemma_wf(); }
            let name = self.slice(mnem_span);
            match self.parse_instruction(name.as_str(), mnem_span) {
                Some(instr) => {
                    stmts.push(Statement::Instruction(instr));
                    assert(stmts@.map_values(|s: Statement| s@) =~= before + seq![stmts@.last()@]);
                },
                None => {
                    proof { self.lemma_wf(); lemma_skip_forward(self.env(), self.st()); }
                    self.skip_to_newline();
                    assert(before + Seq::<StatementView>::empty() =~= before);
                },
            }
            return;
        }
        if kind == 44 {
            assert(before + Seq::<StatementView>::empty() =~= before);
            return;
        }
        self.error("expected instruction, directive, or label");
        proof { self.lemma_wf(); lemma_skip_forward(self.env(), self.st()); }
        self.skip_to_newline();
        assert(before + Seq::<StatementView>::empty() =~= before);
    }
}

/// Parse ARM64 assembly source into statements.
///
/// Returns both statements and errors (not `Result`) — follows the project's
/// "collect all errors" philosophy. The source's UTF-8 form must fit the 32-bit spans.
pub fn parse(source: &str) -> (r: (Vec<Statement>, Vec<AsmError>))
    requires
        encode_utf8(source@).len() <= u32::MAX,
    ensures
        r.0@.map_values(|s: Statement| s@) == spec_parse(source@).0,
        r.1@.map_values(|e: AsmError| e@) == spec_parse(source@).1,
        statements_wf(r.0@),
{
    let (tokens, lex_errors) = Lexer::collect_all(source);
    proof {
        lemma_lexed_spans_ok(source@);
        lemma_lex_registers(source@, 0);
        assert forall|i: int| 0 <= i < tokens@.len() implies span_ok(source@, #[trigger] tokens@[i].1) by {
            assert(tokens@.map_values(|p: (Token, Span)| (p.0@, p.1))[i].1 == tokens@[i].1);
        }
        assert forall|i: int| 0 <= i < tokens@.len() implies (#[trigger] tokens@[i]).0@.register_wf() by {
            assert(tokens@.map_values(|p: (Token, Span)| (p.0@, p.1))[i].0 == tokens@[i].0@);
        }
    }
    let mut parser = Parser::new(source, tokens, lex_errors);
    let stmts = parser.parse_all();
    (stmts, parser.into_errors())
}

} // verus!
