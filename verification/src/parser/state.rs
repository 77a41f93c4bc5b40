//! Parser state: the token list, the position in it, and the errors so far.

use vstd::prelude::*;
use vstd::utf8::encode_utf8;
use crate::lexer::scan::{byte_offset, byte_offsets, char_width, lemma_byte_offset_bound, lemma_byte_offset_step};
use crate::lexer::token::{Token, TokenView};
use crate::text::str_chars;
use crate::types::error::{AsmError, ErrorView, owned};
use crate::types::span::Span;

verus! {

/// What the parser reads: the tokens with their spans, and the source text.
pub struct ParseEnv {
    pub toks: Seq<(TokenView, Span)>,
    pub text: Seq<char>,
}

/// Where the parser is: the position in the token list and the errors so far.
pub struct PState {
    pub pos: int,
    pub errors: Seq<ErrorView>,
}

/// Whether a span covers whole characters of the text and ends within 32 bits.
pub open spec fn span_ok(text: Seq<char>, span: Span) -> bool {
    &&& span.end() <= u32::MAX
    &&& exists|s: int, e: int| 0 <= s <= e <= text.len() && byte_offset(text, s) == span.offset
        && byte_offset(text, e) == span.offset + span.len
}

/// The characters a span covers.
pub open spec fn span_text(text: Seq<char>, span: Span) -> Seq<char> {
    let (s, e) = choose|s: int, e: int| 0 <= s <= e <= text.len() && byte_offset(text, s) == span.offset
        && byte_offset(text, e) == span.offset + span.len;
    text.subrange(s, e)
}

/// The span just past the end of the text.
pub open spec fn eof_span(text: Seq<char>) -> Span {
    Span { offset: encode_utf8(text).len() as u32, len: 0 }
}

impl ParseEnv {
    /// The token at position `i`.
    pub open spec fn tok(self, i: int) -> Option<TokenView> {
        if 0 <= i < self.toks.len() { Some(self.toks[i].0) } else { None }
    }

    /// The span of the token at position `i`, or the end of the text.
    pub open spec fn span_at(self, i: int) -> Span {
        if 0 <= i < self.toks.len() { self.toks[i].1 } else { eof_span(self.text) }
    }

    /// The text of the token at position `i`.
    pub open spec fn text_at(self, i: int) -> Seq<char> {
        span_text(self.text, self.toks[i].1)
    }

    /// Whether the state is at the end of a line (a newline or the end of the tokens).
    pub open spec fn at_eol(self, st: PState) -> bool {
        match self.tok(st.pos) {
            None => true,
            Some(t) => t == TokenView::Newline,
        }
    }

    /// Whether the current token is of the given variant.
    pub open spec fn check(self, st: PState, kind: nat) -> bool {
        match self.tok(st.pos) {
            Some(t) => t.kind() == kind,
            None => false,
        }
    }
}

impl PState {
    /// One token further on.
    pub open spec fn next(self) -> PState {
        PState { pos: self.pos + 1, ..self }
    }

    /// With a parse error at the current token.
    pub open spec fn err(self, env: ParseEnv, detail: Seq<char>) -> PState {
        PState { errors: self.errors.push(ErrorView::ParseError { detail, span: env.span_at(self.pos) }), ..self }
    }

    /// With an error.
    pub open spec fn push(self, e: ErrorView) -> PState {
        PState { errors: self.errors.push(e), ..self }
    }
}

/// Consuming a token of the given variant when it is the current one.
pub open spec fn spec_eat(env: ParseEnv, st: PState, kind: nat) -> (Option<(TokenView, Span)>, PState) {
    if env.check(st, kind) { (Some(env.toks[st.pos]), st.next()) } else { (None, st) }
}

/// Consuming a token of the given variant, or recording `detail` at the current token.
pub open spec fn spec_expect(env: ParseEnv, st: PState, kind: nat, detail: Seq<char>) -> (Option<(TokenView, Span)>, PState) {
    if env.check(st, kind) { (Some(env.toks[st.pos]), st.next()) } else { (None, st.err(env, detail)) }
}

/// Skipping to the next newline (or the end).
pub open spec fn spec_skip_to_newline(env: ParseEnv, st: PState) -> PState
    decreases env.toks.len() - st.pos,
{
    if !env.at_eol(st) && 0 <= st.pos < env.toks.len() { spec_skip_to_newline(env, st.next()) } else { st }
}

/// Core parser state that drives the recursive descent.
///
/// Pre-lexes all tokens into a `Vec` for trivial lookahead.
pub struct Parser<'src> {
    source: &'src str,
    tokens: Vec<(Token, Span)>,
    pos: usize,
    errors: Vec<AsmError>,
    chars: Vec<char>,
    offsets: Vec<usize>,
}

impl<'src> Parser<'src> {
    /// What the parser reads.
    pub closed spec fn env(&self) -> ParseEnv {
        ParseEnv { toks: self.tokens@.map_values(|p: (Token, Span)| (p.0@, p.1)), text: self.source@ }
    }

    /// Where the parser is.
    pub closed spec fn st(&self) -> PState {
        PState { pos: self.pos as int, errors: self.errors@.map_values(|e: AsmError| e@) }
    }

    /// The text, its byte offsets and the position are consistent, and every span covers
    /// whole characters.
    pub closed spec fn wf(&self) -> bool {
        &&& self.chars@ == self.source@
        &&& self.offsets@.len() == self.chars@.len() + 1
        &&& forall|k: int| 0 <= k <= self.chars@.len() ==> self.offsets@[k] == byte_offset(self.chars@, k)
        &&& self.pos <= self.tokens@.len()
        &&& forall|i: int| 0 <= i < self.tokens@.len() ==> span_ok(self.source@, #[trigger] self.tokens@[i].1)
        &&& forall|i: int| 0 <= i < self.tokens@.len() ==> (#[trigger] self.tokens@[i]).0@.register_wf()
    }

    pub fn new(source: &'src str, tokens: Vec<(Token, Span)>, lex_errors: Vec<AsmError>) -> (r: Parser<'src>)
        requires
            forall|i: int| 0 <= i < tokens@.len() ==> span_ok(source@, #[trigger] tokens@[i].1),
            forall|i: int| 0 <= i < tokens@.len() ==> (#[trigger] tokens@[i]).0@.register_wf(),
        ensures
            r.wf(),
            r.env() == (ParseEnv { toks: tokens@.map_values(|p: (Token, Span)| (p.0@, p.1)), text: source@ }),
            r.st() == (PState { pos: 0, errors: lex_errors@.map_values(|e: AsmError| e@) }),
    {
        let chars = str_chars(source);
        let total = source.as_bytes().len();
        let offsets = byte_offsets(&chars, total);
        Parser { source, tokens, pos: 0, errors: lex_errors, chars, offsets }
    }

    /// The position is within the tokens and every token's span covers whole characters.
    pub proof fn lemma_wf(&self)
        requires
            self.wf(),
        ensures
            0 <= self.st().pos <= self.env().toks.len(),
            forall|i: int| 0 <= i < self.env().toks.len() ==> span_ok(self.env().text, #[trigger] self.env().toks[i].1),
            forall|i: int| 0 <= i < self.env().toks.len() ==> (#[trigger] self.env().toks[i]).0.register_wf(),
    {
        assert forall|i: int| 0 <= i < self.env().toks.len() implies span_ok(self.env().text, #[trigger] self.env().toks[i].1) by {
            assert(self.env().toks[i].1 == self.tokens@[i].1);
        }
        assert forall|i: int| 0 <= i < self.env().toks.len() implies (#[trigger] self.env().toks[i]).0.register_wf() by {
            assert(self.env().toks[i].0 == self.tokens@[i].0@);
        }
    }

    /// The errors recorded so far.
    pub fn errors(&self) -> (r: &Vec<AsmError>)
        ensures
            r@.map_values(|e: AsmError| e@) == self.st().errors,
    {
        &self.errors
    }

    /// The errors recorded so far, taking the parser apart.
    pub fn into_errors(self) -> (r: Vec<AsmError>)
        ensures
            r@.map_values(|e: AsmError| e@) == self.st().errors,
    {
        self.errors
    }

    /// The source text.
    pub fn source(&self) -> (r: &'src str)
        ensures
            r@ == self.env().text,
    {
        self.source
    }

    /// Peek at the current token without consuming it.
    pub fn peek(&self) -> (r: Option<&Token>)
        ensures
            match self.env().tok(self.st().pos) {
                Some(t) => r matches Some(x) && x@ == t,
                None => r is None,
            },
    {
        if self.pos < self.tokens.len() {
            Some(&self.tokens[self.pos].0)
        } else {
            None
        }
    }

    /// Peek at the span of the current token.
    pub fn peek_span(&self) -> (r: Span)
        requires
            self.wf(),
        ensures
            r == self.env().span_at(self.st().pos),
    {
        if self.pos < self.tokens.len() {
            self.tokens[self.pos].1
        } else {
            proof { lemma_byte_offset_bound(self.chars@, self.chars@.len() as int); }
            assert(self.chars@.take(self.chars@.len() as int) == self.chars@);
            Span { offset: self.offsets[self.chars.len()] as u32, len: 0 }
        }
    }

    /// Return the span of the most recently consumed token.
    pub fn prev_span(&self) -> (r: Span)
        requires
            self.wf(),
            self.st().pos > 0,
        ensures
            r == self.env().toks[self.st().pos - 1].1,
    {
        self.tokens[self.pos - 1].1
    }

    /// Peek at the token two positions ahead.
    pub fn peek2(&self) -> (r: Option<&Token>)
        ensures
            match self.env().tok(self.st().pos + 1) {
                Some(t) => r matches Some(x) && x@ == t,
                None => r is None,
            },
    {
        if self.pos < self.tokens.len() && self.pos + 1 < self.tokens.len() {
            Some(&self.tokens[self.pos + 1].0)
        } else {
            None
        }
    }

    /// Advance past the current token and return it with its span.
    pub fn advance(&mut self) -> (r: Option<(Token, Span)>)
        requires
            old(self).wf(),
        ensures
            final(self).wf(),
            final(self).env() == old(self).env(),
            final(self).st().errors == old(self).st().errors,
            match old(self).env().tok(old(self).st().pos) {
                Some(t) => final(self).st() == old(self).st().next()
                    && (r matches Some((x, sp)) && x@ == t && sp == old(self).env().toks[old(self).st().pos].1),
                None => r is None && final(self).st() == old(self).st(),
            },
    {
        if self.pos < self.tokens.len() {
            let tok = self.tokens[self.pos].0.copy();
            let sp = self.tokens[self.pos].1;
            self.pos += 1;
            Some((tok, sp))
        } else {
            None
        }
    }

    /// Check if the current token matches the expected discriminant (ignoring payload).
    pub fn check(&self, expected: &Token) -> (r: bool)
        ensures
            r == self.env().check(self.st(), expected@.kind()),
    {
        match self.peek() {
            Some(t) => t.same_kind(expected),
            None => false,
        }
    }

    /// Consume the current token if it matches the expected discriminant.
    pub fn eat(&mut self, expected: &Token) -> (r: Option<(Token, Span)>)
        requires
            old(self).wf(),
        ensures
            final(self).wf(),
            final(self).env() == old(self).env(),
            ({
                let (x, st) = spec_eat(old(self).env(), old(self).st(), expected@.kind());
                final(self).st() == st && match r {
                    Some((t, sp)) => x == Some((t@, sp)),
                    None => x is None,
                }
            }),
    {
        if self.check(expected) {
            self.advance()
        } else {
            None
        }
    }

    /// Consume the current token if it matches, otherwise record a parse error.
    pub fn expect(&mut self, expected: &Token, detail: &str) -> (r: Option<(Token, Span)>)
        requires
            old(self).wf(),
        ensures
            final(self).wf(),
            final(self).env() == old(self).env(),
            ({
                let (x, st) = spec_expect(old(self).env(), old(self).st(), expected@.kind(), detail@);
                final(self).st() == st && match r {
                    Some((t, sp)) => x == Some((t@, sp)),
                    None => x is None,
                }
            }),
    {
        if let Some(pair) = self.eat(expected) {
            Some(pair)
        } else {
            self.error(detail);
            None
        }
    }

    /// True if we're at end-of-line (Newline token or EOF).
    pub fn at_eol(&self) -> (r: bool)
        ensures
            r == self.env().at_eol(self.st()),
    {
        match self.peek() {
            None => true,
            Some(t) => t.is_newline(),
        }
    }

    /// Record a parse error at the current position.
    pub fn error(&mut self, detail: &str)
        requires
            old(self).wf(),
        ensures
            final(self).wf(),
            final(self).env() == old(self).env(),
            final(self).st() == old(self).st().err(old(self).env(), detail@),
    {
        let span = self.peek_span();
        self.push_error(AsmError::ParseError { detail: owned(detail), span });
    }

    /// Record an error.
    pub fn push_error(&mut self, e: AsmError)
        requires
            old(self).wf(),
        ensures
            final(self).wf(),
            final(self).env() == old(self).env(),
            final(self).st() == old(self).st().push(e@),
    {
        let ghost es = self.errors@;
        self.errors.push(e);
        assert(self.errors@.map_values(|x: AsmError| x@) =~= es.map_values(|x: AsmError| x@).push(e@));
    }

    /// Skip tokens until the next newline or EOF (error recovery).
    pub fn skip_to_newline(&mut self)
        requires
            old(self).wf(),
        ensures
            final(self).wf(),
            final(self).env() == old(self).env(),
            final(self).st() == spec_skip_to_newline(old(self).env(), old(self).st()),
    {
        while !self.at_eol()
            invariant
                self.wf(),
                self.env() == old(self).env(),
                spec_skip_to_newline(old(self).env(), old(self).st()) == spec_skip_to_newline(self.env(), self.st()),
            decreases self.tokens@.len() - self.pos,
        {
            self.advance();
        }
    }

    /// Consume a newline if present.
    pub fn consume_newline(&mut self)
        requires
            old(self).wf(),
        ensures
            final(self).wf(),
            final(self).env() == old(self).env(),
            final(self).st() == spec_eat(old(self).env(), old(self).st(), TokenView::Newline.kind()).1,
    {
        self.eat(&Token::Newline);
    }

    /// Expect an integer token and return its value + span.
    pub fn expect_integer(&mut self, detail: &str) -> (r: Option<(i64, Span)>)
        requires
            old(self).wf(),
        ensures
            final(self).wf(),
            final(self).env() == old(self).env(),
            ({
                let (x, st) = spec_expect(old(self).env(), old(self).st(), TokenView::Integer(0).kind(), detail@);
                final(self).st() == st && match x {
                    Some((TokenView::Integer(n), sp)) => r == Some((n, sp)),
                    _ => r is None,
                }
            }),
    {
        match self.expect(&Token::Integer(0), detail) {
            Some((Token::Integer(n), span)) => Some((n, span)),
            _ => None,
        }
    }

    /// Expect a string literal token and return its value + span.
    pub fn expect_string(&mut self, detail: &str) -> (r: Option<(String, Span)>)
        requires
            old(self).wf(),
        ensures
            final(self).wf(),
            final(self).env() == old(self).env(),
            ({
                let (x, st) = spec_expect(old(self).env(), old(self).st(), TokenView::StringLiteral(Seq::empty()).kind(), detail@);
                final(self).st() == st && match x {
                    Some((TokenView::StringLiteral(s), sp)) => r matches Some((v, vsp)) && v@ == s && vsp == sp,
                    _ => r is None,
                }
            }),
    {
        match self.expect(&Token::StringLiteral(String::new()), detail) {
            Some((Token::StringLiteral(s), span)) => Some((s, span)),
            _ => None,
        }
    }

    /// Get the source text for a given span.
    pub fn slice(&self, span: Span) -> (r: String)
        requires
            self.wf(),
            span_ok(self.env().text, span),
        ensures
            r@ == span_text(self.env().text, span),
    {
        let ghost text = self.chars@;
        let ghost (s0, e0) = choose|s: int, e: int| 0 <= s <= e <= text.len() && byte_offset(text, s) == span.offset
            && byte_offset(text, e) == span.offset + span.len;
        proof { lemma_offsets_strict(text); }
        let start = span.offset as usize;
        let end = span.offset as usize + span.len as usize;
        let mut s: usize = 0;
        while s < self.chars.len() && self.offsets[s] != start
            invariant
                s <= self.chars@.len(),
                s <= s0,
                self.wf(),
                text == self.chars@,
                0 <= s0 <= e0 <= text.len(),
                byte_offset(text, s0) == start,
            decreases self.chars.len() - s,
        {
            s += 1;
        }
        assert(s == s0);
        let mut e: usize = s;
        while e < self.chars.len() && self.offsets[e] != end
            invariant
                s0 <= e <= self.chars@.len(),
                e <= e0,
                self.wf(),
                text == self.chars@,
                0 <= s0 <= e0 <= text.len(),
                byte_offset(text, e0) == end,
            decreases self.chars.len() - e,
        {
            e += 1;
        }
        assert(e == e0);
        let mut out = String::new();
        let mut k = s;
        while k < e
            invariant
                s <= k <= e,
                e <= self.chars@.len(),
                out@ == self.chars@.subrange(s as int, k as int),
            decreases e - k,
        {
            crate::text::push_char(&mut out, self.chars[k]);
            assert(out@ =~= self.chars@.subrange(s as int, k + 1));
            k += 1;
        }
        out
    }
}

/// Byte offsets grow strictly with the character position.
pub proof fn lemma_offsets_strict(text: Seq<char>)
    ensures
        forall|a: int, b: int| 0 <= a < b <= text.len() ==> byte_offset(text, a) < byte_offset(text, b),
{
    assert forall|a: int, b: int| 0 <= a < b <= text.len() implies byte_offset(text, a) < byte_offset(text, b) by {
        lemma_offsets_grow(text, a, b);
    }
}

proof fn lemma_offsets_grow(text: Seq<char>, a: int, b: int)
    requires
        0 <= a < b <= text.len(),
    ensures
        byte_offset(text, a) < byte_offset(text, b),
    decreases b - a,
{
    lemma_byte_offset_step(text, b - 1);
    vstd::utf8::char_is_scalar(text[b - 1]);
    assert(char_width(text[b - 1]) >= 1);
    if a < b - 1 {
        lemma_offsets_grow(text, a, b - 1);
    }
}

} // verus!
