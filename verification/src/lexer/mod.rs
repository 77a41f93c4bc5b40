//! ARM64 tokenizer.
//!
//! Blanks (` `, `\t`, `\r`), `//` and `;` line comments and `/* */` block comments are
//! skipped; newlines are tokens. A word of letters, digits, `_` and `$` is a register or
//! keyword when the whole word spells one (case-insensitively for keywords), else an
//! identifier.

pub mod scan;
pub mod token;

use vstd::prelude::*;
use vstd::utf8::encode_utf8;
use crate::text::{ascii_lower_seq, chars_eq, lower_chars, push_char, push_str, str_chars};
use crate::types::error::{AsmError, ErrorView, owned};
use crate::types::register::{FpReg, FpRegWidth, GpReg, RegWidth};
use crate::types::span::Span;
use crate::lexer::scan::{
    byte_offset, byte_offsets, decode_string, digit_value, find_close, in_class, is_dec, is_hex, is_letter,
    lemma_find_close, lemma_run_end_bounds, lemma_string_end, parse_numeral, run_end, scan_close, scan_run,
    scan_string, spec_numeral, string_end, unescape, CharClass,
};
use crate::lexer::token::{Token, TokenView};

verus! {

/// A register number written canonically: one digit, or two without a leading zero.
pub open spec fn reg_number(ds: Seq<char>) -> Option<nat> {
    if ds.len() == 1 && is_dec(ds[0]) {
        Some(digit_value(ds[0]))
    } else if ds.len() == 2 && is_dec(ds[0]) && ds[0] != '0' && is_dec(ds[1]) {
        Some(10 * digit_value(ds[0]) + digit_value(ds[1]))
    } else {
        None
    }
}

/// The number of a register word `<prefix><n>` with `n <= max`.
pub open spec fn prefixed_number(w: Seq<char>, lower: char, upper: char, max: nat) -> Option<u8> {
    if w.len() >= 2 && (w[0] == lower || w[0] == upper) {
        match reg_number(w.drop_first()) {
            Some(n) => if n <= max { Some(n as u8) } else { None },
            None => None,
        }
    } else {
        None
    }
}

/// The token a whole word spells.
pub open spec fn classify_word(w: Seq<char>) -> TokenView {
    let l = ascii_lower_seq(w);
    if l == seq!['s', 'p'] { TokenView::Sp }
    else if l == seq!['w', 's', 'p'] { TokenView::Wsp }
    else if l == seq!['x', 'z', 'r'] { TokenView::Xzr }
    else if l == seq!['w', 'z', 'r'] { TokenView::Wzr }
    else if l == seq!['l', 's', 'l'] { TokenView::Lsl }
    else if l == seq!['l', 's', 'r'] { TokenView::Lsr }
    else if l == seq!['a', 's', 'r'] { TokenView::Asr }
    else if l == seq!['r', 'o', 'r'] { TokenView::Ror }
    else if l == seq!['u', 'x', 't', 'b'] { TokenView::Uxtb }
    else if l == seq!['u', 'x', 't', 'h'] { TokenView::Uxth }
    else if l == seq!['u', 'x', 't', 'w'] { TokenView::Uxtw }
    else if l == seq!['u', 'x', 't', 'x'] { TokenView::Uxtx }
    else if l == seq!['s', 'x', 't', 'b'] { TokenView::Sxtb }
    else if l == seq!['s', 'x', 't', 'h'] { TokenView::Sxth }
    else if l == seq!['s', 'x', 't', 'w'] { TokenView::Sxtw }
    else if l == seq!['s', 'x', 't', 'x'] { TokenView::Sxtx }
    else { match prefixed_number(w, 'x', 'X', 30) {
        Some(n) => TokenView::GpReg(GpReg { number: n, width: RegWidth::X64 }),
        None => match prefixed_number(w, 'w', 'W', 30) {
        Some(n) => TokenView::WReg(GpReg { number: n, width: RegWidth::W32 }),
        None => match prefixed_number(w, 'b', 'B', 31) {
        Some(n) => TokenView::FpRegB(FpReg { number: n, width: FpRegWidth::B }),
        None => match prefixed_number(w, 'h', 'H', 31) {
        Some(n) => TokenView::FpRegH(FpReg { number: n, width: FpRegWidth::H }),
        None => match prefixed_number(w, 's', 'S', 31) {
        Some(n) => TokenView::FpRegS(FpReg { number: n, width: FpRegWidth::S }),
        None => match prefixed_number(w, 'd', 'D', 31) {
        Some(n) => TokenView::FpRegD(FpReg { number: n, width: FpRegWidth::D }),
        None => match prefixed_number(w, 'q', 'Q', 31) {
        Some(n) => TokenView::FpRegQ(FpReg { number: n, width: FpRegWidth::Q }),
        None => match prefixed_number(w, 'v', 'V', 31) {
        Some(n) => TokenView::VecReg(n),
        None => TokenView::Ident,
    }}}}}}}}}
}

/// The token of a punctuation character.
pub open spec fn punct(c: char) -> Option<TokenView> {
    if c == ',' { Some(TokenView::Comma) }
    else if c == '[' { Some(TokenView::LBracket) }
    else if c == ']' { Some(TokenView::RBracket) }
    else if c == '!' { Some(TokenView::Exclaim) }
    else if c == ':' { Some(TokenView::Colon) }
    else if c == '#' { Some(TokenView::Hash) }
    else if c == '(' { Some(TokenView::LParen) }
    else if c == ')' { Some(TokenView::RParen) }
    else if c == '+' { Some(TokenView::Plus) }
    else if c == '-' { Some(TokenView::Minus) }
    else if c == '*' { Some(TokenView::Star) }
    else if c == '/' { Some(TokenView::Slash) }
    else if c == '~' { Some(TokenView::Tilde) }
    else if c == '=' { Some(TokenView::Eq) }
    else if c == '\n' { Some(TokenView::Newline) }
    else { None }
}

/// A token between two character positions, or an error with its message.
pub enum LexStep {
    Token(TokenView, int, int),
    Error(Seq<char>, int, int),
}

/// The message for text no token matches.
pub open spec fn unexpected(text: Seq<char>) -> Seq<char> {
    "unexpected character `"@ + text + "`"@
}

/// A numeral's token, or an error when its value does not fit in an `i64`.
pub open spec fn numeral_step(cs: Seq<char>, digits_from: int, radix: nat, i: int, e: int) -> LexStep {
    match spec_numeral(cs.subrange(digits_from, e), radix) {
        Some(v) => LexStep::Token(TokenView::Integer(v), i, e),
        None => LexStep::Error(unexpected(cs.subrange(i, e)), i, e),
    }
}

/// The number that starts at `i`: `0x`, `0o` and `0b` prefixes need a digit after them.
pub open spec fn number_at(cs: Seq<char>, i: int) -> LexStep {
    let pre = cs[i] == '0' && i + 2 < cs.len();
    if pre && (cs[i + 1] == 'x' || cs[i + 1] == 'X') && is_hex(cs[i + 2]) {
        numeral_step(cs, i + 2, 16, i, run_end(cs, i + 2, CharClass::Hex))
    } else if pre && (cs[i + 1] == 'o' || cs[i + 1] == 'O') && '0' <= cs[i + 2] <= '7' {
        numeral_step(cs, i + 2, 8, i, run_end(cs, i + 2, CharClass::Octal))
    } else if pre && (cs[i + 1] == 'b' || cs[i + 1] == 'B') && (cs[i + 2] == '0' || cs[i + 2] == '1') {
        numeral_step(cs, i + 2, 2, i, run_end(cs, i + 2, CharClass::Binary))
    } else {
        numeral_step(cs, i, 10, i, run_end(cs, i, CharClass::Decimal))
    }
}

/// The token that starts at `i`, which is neither a blank nor the start of a comment.
pub open spec fn token_at(cs: Seq<char>, i: int) -> LexStep {
    let c = cs[i];
    if is_letter(c) || c == '_' || c == '$' {
        let e = run_end(cs, i, CharClass::Word);
        LexStep::Token(classify_word(cs.subrange(i, e)), i, e)
    } else if c == '.' {
        if i + 1 < cs.len() && (is_letter(cs[i + 1]) || cs[i + 1] == '_') {
            LexStep::Token(TokenView::Directive, i, run_end(cs, i + 1, CharClass::DirectiveName))
        } else {
            LexStep::Token(TokenView::Dot, i, i + 1)
        }
    } else if is_dec(c) {
        number_at(cs, i)
    } else if c == '"' {
        match string_end(cs, i + 1) {
            Ok(e) => match unescape(cs, i + 1, e - 1) {
                Some(s) => LexStep::Token(TokenView::StringLiteral(s), i, e),
                None => LexStep::Error(unexpected(cs.subrange(i, e)), i, e),
            },
            Err(e) => LexStep::Error(unexpected(cs.subrange(i, e)), i, e),
        }
    } else {
        match punct(c) {
            Some(t) => LexStep::Token(t, i, i + 1),
            None => LexStep::Error(unexpected(seq![c]), i, i + 1),
        }
    }
}

/// Whether a line comment starts at `i`.
pub open spec fn line_comment_at(cs: Seq<char>, i: int) -> bool {
    cs[i] == ';' || (cs[i] == '/' && i + 1 < cs.len() && cs[i + 1] == '/')
}

/// Whether a block comment starts at `i`.
pub open spec fn block_comment_at(cs: Seq<char>, i: int) -> bool {
    cs[i] == '/' && i + 1 < cs.len() && cs[i + 1] == '*'
}

/// The first token or error at or after `i`, skipping blanks and comments; `None` at the end.
pub open spec fn lex_step(cs: Seq<char>, i: int) -> Option<LexStep>
    decreases cs.len() - i,
{
    if i < 0 || i >= cs.len() {
        None
    } else if in_class(CharClass::Blank, cs[i]) {
        lex_step(cs, i + 1)
    } else if line_comment_at(cs, i) {
        let e = run_end(cs, i, CharClass::NotNewline);
        if i < e <= cs.len() { lex_step(cs, e) } else { None }
    } else if block_comment_at(cs, i) {
        match find_close(cs, i + 2) {
            Some(k) => if i < k + 2 <= cs.len() { lex_step(cs, k + 2) } else { None },
            None => Some(LexStep::Error("unterminated block comment"@, i, i + 2)),
        }
    } else {
        Some(token_at(cs, i))
    }
}

/// Where a step ends.
pub open spec fn step_end(s: LexStep) -> int {
    match s {
        LexStep::Token(_, _, e) => e,
        LexStep::Error(_, _, e) => e,
    }
}

/// Where a step starts.
pub open spec fn step_start(s: LexStep) -> int {
    match s {
        LexStep::Token(_, st, _) => st,
        LexStep::Error(_, st, _) => st,
    }
}

proof fn lemma_token_at_progress(cs: Seq<char>, i: int)
    requires
        0 <= i < cs.len(),
    ensures
        step_start(token_at(cs, i)) == i,
        i < step_end(token_at(cs, i)) <= cs.len(),
{
    lemma_run_end_bounds(cs, i + 1, CharClass::Word);
    lemma_run_end_bounds(cs, i + 1, CharClass::Decimal);
    if i + 1 < cs.len() {
        lemma_run_end_bounds(cs, i + 1, CharClass::DirectiveName);
    }
    if i + 2 < cs.len() {
        lemma_run_end_bounds(cs, i + 2, CharClass::Hex);
        lemma_run_end_bounds(cs, i + 2, CharClass::Octal);
        lemma_run_end_bounds(cs, i + 2, CharClass::Binary);
    }
    lemma_string_end(cs, i + 1);
}

/// Each step starts at or after `i` and ends past where it starts, within the text.
pub proof fn lemma_lex_step_progress(cs: Seq<char>, i: int)
    requires
        0 <= i,
    ensures
        lex_step(cs, i) matches Some(s) ==> i <= step_start(s) < step_end(s) <= cs.len(),
    decreases cs.len() - i,
{
    if 0 <= i < cs.len() {
        if in_class(CharClass::Blank, cs[i]) {
            lemma_lex_step_progress(cs, i + 1);
        } else if line_comment_at(cs, i) {
            let e = run_end(cs, i, CharClass::NotNewline);
            lemma_run_end_bounds(cs, i, CharClass::NotNewline);
            if i < e <= cs.len() {
                lemma_lex_step_progress(cs, e);
            }
        } else if block_comment_at(cs, i) {
            lemma_find_close(cs, i + 2);
            match find_close(cs, i + 2) {
                Some(k) => if i < k + 2 <= cs.len() {
                    lemma_lex_step_progress(cs, k + 2);
                },
                None => {},
            }
        } else {
            lemma_token_at_progress(cs, i);
        }
    }
}

/// The span of the characters between two positions, in bytes.
pub open spec fn span_of(cs: Seq<char>, s: int, e: int) -> Span {
    Span { offset: byte_offset(cs, s) as u32, len: (byte_offset(cs, e) - byte_offset(cs, s)) as u32 }
}

/// All tokens and errors from position `i` on, in order.
pub open spec fn lex_from(cs: Seq<char>, i: int) -> (Seq<(TokenView, Span)>, Seq<ErrorView>)
    decreases cs.len() - i,
{
    match lex_step(cs, i) {
        None => (Seq::empty(), Seq::empty()),
        Some(s) => if i < step_end(s) <= cs.len() {
            let (ts, es) = lex_from(cs, step_end(s));
            match s {
                LexStep::Token(t, st, e) => (seq![(t, span_of(cs, st, e))] + ts, es),
                LexStep::Error(d, st, e) => (ts, seq![ErrorView::LexError { detail: d, span: span_of(cs, st, e) }] + es),
            }
        } else {
            (Seq::empty(), Seq::empty())
        },
    }
}

/// The first token at or after `i` names a well-formed register, if any.
proof fn lemma_lex_step_register(cs: Seq<char>, i: int)
    ensures
        lex_step(cs, i) matches Some(LexStep::Token(t, _, _)) ==> t.register_wf(),
    decreases cs.len() - i,
{
    if 0 <= i < cs.len() {
        if in_class(CharClass::Blank, cs[i]) {
            lemma_lex_step_register(cs, i + 1);
        } else if line_comment_at(cs, i) {
            let e = run_end(cs, i, CharClass::NotNewline);
            if i < e <= cs.len() {
                lemma_lex_step_register(cs, e);
            }
        } else if block_comment_at(cs, i) {
            match find_close(cs, i + 2) {
                Some(k) => if i < k + 2 <= cs.len() {
                    lemma_lex_step_register(cs, k + 2);
                },
                None => {},
            }
        }
    }
}

/// Every token the lexer produces names a well-formed register, if any.
pub proof fn lemma_lex_registers(cs: Seq<char>, i: int)
    ensures
        forall|k: int| 0 <= k < lex_from(cs, i).0.len() ==> (#[trigger] lex_from(cs, i).0[k]).0.register_wf(),
    decreases cs.len() - i,
{
    lemma_lex_step_register(cs, i);
    match lex_step(cs, i) {
        None => {},
        Some(st) => if i < step_end(st) <= cs.len() {
            lemma_lex_registers(cs, step_end(st));
            let ts = lex_from(cs, step_end(st)).0;
            match st {
                LexStep::Token(t, s0, e0) => {
                    assert forall|k: int| 0 <= k < lex_from(cs, i).0.len() implies (#[trigger] lex_from(cs, i).0[k]).0.register_wf() by {
                        if k > 0 {
                            assert(lex_from(cs, i).0[k] == ts[k - 1]);
                        }
                    }
                },
                LexStep::Error(..) => {},
            }
        },
    }
}

/// Every token the lexer produces from position `i` on spans the characters between two
/// positions at or after `i`.
pub proof fn lemma_lex_spans(cs: Seq<char>, i: int)
    requires
        0 <= i,
    ensures
        forall|k: int| 0 <= k < lex_from(cs, i).0.len() ==> exists|s: int, e: int| i <= s <= e <= cs.len()
            && #[trigger] lex_from(cs, i).0[k].1 == span_of(cs, s, e),
    decreases cs.len() - i,
{
    lemma_lex_step_progress(cs, i);
    match lex_step(cs, i) {
        None => {},
        Some(st) => if i < step_end(st) <= cs.len() {
            lemma_lex_spans(cs, step_end(st));
            let ts = lex_from(cs, step_end(st)).0;
            match st {
                LexStep::Token(t, s0, e0) => {
                    assert forall|k: int| 0 <= k < lex_from(cs, i).0.len() implies exists|s: int, e: int| i <= s <= e <= cs.len()
                        && #[trigger] lex_from(cs, i).0[k].1 == span_of(cs, s, e) by {
                        if k == 0 {
                            assert(lex_from(cs, i).0[k].1 == span_of(cs, s0, e0));
                        } else {
                            assert(lex_from(cs, i).0[k] == ts[k - 1]);
                            let (s, e) = choose|s: int, e: int| step_end(st) <= s <= e <= cs.len() && #[trigger] ts[k - 1].1 == span_of(cs, s, e);
                            assert(i <= s <= e <= cs.len() && lex_from(cs, i).0[k].1 == span_of(cs, s, e));
                        }
                    }
                },
                LexStep::Error(..) => {},
            }
        },
    }
}

/// The token a whole word spells.
fn classify(w: &[char]) -> (r: Token)
    ensures
        r@ == classify_word(w@),
{
    let l = lower_chars(w);
    assert(l@ == ascii_lower_seq(w@));
    if chars_eq(&l, &['s', 'p']) { return Token::Sp; }
    if chars_eq(&l, &['w', 's', 'p']) { return Token::Wsp; }
    if chars_eq(&l, &['x', 'z', 'r']) { return Token::Xzr; }
    if chars_eq(&l, &['w', 'z', 'r']) { return Token::Wzr; }
    if chars_eq(&l, &['l', 's', 'l']) { return Token::Lsl; }
    if chars_eq(&l, &['l', 's', 'r']) { return Token::Lsr; }
    if chars_eq(&l, &['a', 's', 'r']) { return Token::Asr; }
    if chars_eq(&l, &['r', 'o', 'r']) { return Token::Ror; }
    if chars_eq(&l, &['u', 'x', 't', 'b']) { return Token::Uxtb; }
    if chars_eq(&l, &['u', 'x', 't', 'h']) { return Token::Uxth; }
    if chars_eq(&l, &['u', 'x', 't', 'w']) { return Token::Uxtw; }
    if chars_eq(&l, &['u', 'x', 't', 'x']) { return Token::Uxtx; }
    if chars_eq(&l, &['s', 'x', 't', 'b']) { return Token::Sxtb; }
    if chars_eq(&l, &['s', 'x', 't', 'h']) { return Token::Sxth; }
    if chars_eq(&l, &['s', 'x', 't', 'w']) { return Token::Sxtw; }
    if chars_eq(&l, &['s', 'x', 't', 'x']) { return Token::Sxtx; }
    if let Some(n) = register_number(w, 'x', 'X', 30) { return Token::GpReg(GpReg::new(n, RegWidth::X64)); }
    if let Some(n) = register_number(w, 'w', 'W', 30) { return Token::WReg(GpReg::new(n, RegWidth::W32)); }
    if let Some(n) = register_number(w, 'b', 'B', 31) { return Token::FpRegB(FpReg::new(n, FpRegWidth::B)); }
    if let Some(n) = register_number(w, 'h', 'H', 31) { return Token::FpRegH(FpReg::new(n, FpRegWidth::H)); }
    if let Some(n) = register_number(w, 's', 'S', 31) { return Token::FpRegS(FpReg::new(n, FpRegWidth::S)); }
    if let Some(n) = register_number(w, 'd', 'D', 31) { return Token::FpRegD(FpReg::new(n, FpRegWidth::D)); }
    if let Some(n) = register_number(w, 'q', 'Q', 31) { return Token::FpRegQ(FpReg::new(n, FpRegWidth::Q)); }
    if let Some(n) = register_number(w, 'v', 'V', 31) { return Token::VecReg(n); }
    Token::Ident
}

/// The number of a register word `<prefix><n>` with `n <= max`.
fn register_number(w: &[char], lower: char, upper: char, max: u8) -> (r: Option<u8>)
    requires
        max <= 31,
    ensures
        r == prefixed_number(w@, lower, upper, max as nat),
        r matches Some(n) ==> n <= max,
{
    if w.len() < 2 || !(w[0] == lower || w[0] == upper) {
        return None;
    }
    let ghost ds = w@.drop_first();
    let n: u8 = if w.len() == 2 && '0' <= w[1] && w[1] <= '9' {
        (w[1] as u32 - '0' as u32) as u8
    } else if w.len() == 3 && '1' <= w[1] && w[1] <= '9' && '0' <= w[2] && w[2] <= '9' {
        (10 * (w[1] as u32 - '0' as u32) + (w[2] as u32 - '0' as u32)) as u8
    } else {
        assert(reg_number(ds) is None);
        return None;
    };
    assert(reg_number(ds) == Some(n as nat));
    if n <= max { Some(n) } else { None }
}

/// The token of a punctuation character.
fn punct_token(c: char) -> (r: Option<Token>)
    ensures
        match punct(c) {
            Some(t) => r matches Some(x) && x@ == t,
            None => r is None,
        },
{
    if c == ',' { Some(Token::Comma) }
    else if c == '[' { Some(Token::LBracket) }
    else if c == ']' { Some(Token::RBracket) }
    else if c == '!' { Some(Token::Exclaim) }
    else if c == ':' { Some(Token::Colon) }
    else if c == '#' { Some(Token::Hash) }
    else if c == '(' { Some(Token::LParen) }
    else if c == ')' { Some(Token::RParen) }
    else if c == '+' { Some(Token::Plus) }
    else if c == '-' { Some(Token::Minus) }
    else if c == '*' { Some(Token::Star) }
    else if c == '/' { Some(Token::Slash) }
    else if c == '~' { Some(Token::Tilde) }
    else if c == '=' { Some(Token::Eq) }
    else if c == '\n' { Some(Token::Newline) }
    else { None }
}

/// A token or an error between two character positions.
enum Step {
    Token(Token, usize, usize),
    Error(String, usize, usize),
}

/// Whether an executable step is the step the specification describes.
spec fn step_matches(x: Step, s: LexStep) -> bool {
    match (x, s) {
        (Step::Token(t, a, b), LexStep::Token(tv, sa, sb)) => t@ == tv && a == sa && b == sb,
        (Step::Error(d, a, b), LexStep::Error(dv, sa, sb)) => d@ == dv && a == sa && b == sb,
        _ => false,
    }
}

/// The message for the characters between two positions.
fn unexpected_text(cs: &[char], i: usize, e: usize) -> (r: String)
    requires
        i <= e <= cs@.len(),
    ensures
        r@ == unexpected(cs@.subrange(i as int, e as int)),
{
    let mut s = String::new();
    push_str(&mut s, "unexpected character `");
    let ghost start = s@;
    let mut k = i;
    while k < e
        invariant
            i <= k <= e,
            e <= cs@.len(),
            s@ == start + cs@.subrange(i as int, k as int),
        decreases e - k,
    {
        push_char(&mut s, cs[k]);
        assert(cs@.subrange(i as int, k + 1) == cs@.subrange(i as int, k as int).push(cs@[k as int]));
        k += 1;
    }
    push_str(&mut s, "`");
    s
}

/// The step of a numeral whose digits start at `digits_from` and end at `e`.
fn numeral(cs: &[char], digits_from: usize, radix: u64, i: usize, e: usize) -> (r: Step)
    requires
        i <= digits_from <= e <= cs@.len(),
        radix == 2 || radix == 8 || radix == 10 || radix == 16,
        forall|k: int| digits_from <= k < e ==> (cs@[k] == '_' || (is_hex(#[trigger] cs@[k]) && digit_value(cs@[k]) < radix)),
    ensures
        step_matches(r, numeral_step(cs@, digits_from as int, radix as nat, i as int, e as int)),
{
    let mut digits: Vec<char> = Vec::new();
    let mut k = digits_from;
    while k < e
        invariant
            digits_from <= k <= e,
            e <= cs@.len(),
            digits@ == cs@.subrange(digits_from as int, k as int),
        decreases e - k,
    {
        digits.push(cs[k]);
        assert(digits@ =~= cs@.subrange(digits_from as int, k + 1));
        k += 1;
    }
    match parse_numeral(&digits, radix) {
        Some(v) => Step::Token(Token::Integer(v), i, e),
        None => Step::Error(unexpected_text(cs, i, e), i, e),
    }
}

/// The token that starts at `i`.
fn token_step(cs: &[char], i: usize) -> (r: Step)
    requires
        i < cs@.len(),
    ensures
        step_matches(r, token_at(cs@, i as int)),
{
    let c = cs[i];
    if ('a' <= c && c <= 'z') || ('A' <= c && c <= 'Z') || c == '_' || c == '$' {
        let e = scan_run(cs, i, CharClass::Word);
        let mut w: Vec<char> = Vec::new();
        let mut k = i;
        while k < e
            invariant
                i <= k <= e,
                e <= cs@.len(),
                w@ == cs@.subrange(i as int, k as int),
            decreases e - k,
        {
            w.push(cs[k]);
            assert(w@ =~= cs@.subrange(i as int, k + 1));
            k += 1;
        }
        return Step::Token(classify(&w), i, e);
    }
    if c == '.' {
        if i + 1 < cs.len() && (('a' <= cs[i + 1] && cs[i + 1] <= 'z') || ('A' <= cs[i + 1] && cs[i + 1] <= 'Z') || cs[i + 1] == '_') {
            let e = scan_run(cs, i + 1, CharClass::DirectiveName);
            return Step::Token(Token::Directive, i, e);
        }
        return Step::Token(Token::Dot, i, i + 1);
    }
    if '0' <= c && c <= '9' {
        let pre = c == '0' && cs.len() - i > 2;
        if pre && (cs[i + 1] == 'x' || cs[i + 1] == 'X') && (('0' <= cs[i + 2] && cs[i + 2] <= '9')
            || ('a' <= cs[i + 2] && cs[i + 2] <= 'f') || ('A' <= cs[i + 2] && cs[i + 2] <= 'F')) {
            let e = scan_run(cs, i + 2, CharClass::Hex);
            proof { lemma_run_end_bounds(cs@, i + 2, CharClass::Hex); }
            return numeral(cs, i + 2, 16, i, e);
        }
        if pre && (cs[i + 1] == 'o' || cs[i + 1] == 'O') && '0' <= cs[i + 2] && cs[i + 2] <= '7' {
            let e = scan_run(cs, i + 2, CharClass::Octal);
            proof { lemma_run_end_bounds(cs@, i + 2, CharClass::Octal); }
            return numeral(cs, i + 2, 8, i, e);
        }
        if pre && (cs[i + 1] == 'b' || cs[i + 1] == 'B') && (cs[i + 2] == '0' || cs[i + 2] == '1') {
            let e = scan_run(cs, i + 2, CharClass::Binary);
            proof { lemma_run_end_bounds(cs@, i + 2, CharClass::Binary); }
            return numeral(cs, i + 2, 2, i, e);
        }
        let e = scan_run(cs, i, CharClass::Decimal);
        proof { lemma_run_end_bounds(cs@, i as int, CharClass::Decimal); }
        return numeral(cs, i, 10, i, e);
    }
    if c == '"' {
        proof { lemma_string_end(cs@, i + 1); }
        let rr = match scan_string(cs, i + 1) {
            Ok(e) => match decode_string(cs, i + 1, e - 1) {
                Some(s) => Step::Token(Token::StringLiteral(s), i, e),
                None => Step::Error(unexpected_text(cs, i, e), i, e),
            },
            Err(e) => Step::Error(unexpected_text(cs, i, e), i, e),
        };
        assert(step_matches(rr, token_at(cs@, i as int)));
        return rr;
    }
    match punct_token(c) {
        Some(t) => Step::Token(t, i, i + 1),
        None => {
            let mut s = String::new();
            push_str(&mut s, "unexpected character `");
            push_char(&mut s, c);
            push_str(&mut s, "`");
            assert(s@ == unexpected(seq![c]));
            Step::Error(s, i, i + 1)
        },
    }
}

/// The first step at or after `i`, skipping blanks and comments.
fn next_step(cs: &[char], i: usize) -> (r: Option<Step>)
    requires
        i <= cs@.len(),
    ensures
        match lex_step(cs@, i as int) {
            None => r is None,
            Some(s) => r matches Some(x) && step_matches(x, s),
        },
{
    let mut k = i;
    while k < cs.len()
        invariant
            i <= k <= cs@.len(),
            lex_step(cs@, i as int) == lex_step(cs@, k as int),
        decreases cs.len() - k,
    {
        let c = cs[k];
        if c == ' ' || c == '\t' || c == '\r' {
            k += 1;
        } else if c == ';' || (c == '/' && k + 1 < cs.len() && cs[k + 1] == '/') {
            proof { lemma_run_end_bounds(cs@, k + 1, CharClass::NotNewline); }
            let e = scan_run(cs, k, CharClass::NotNewline);
            k = e;
        } else if c == '/' && k + 1 < cs.len() && cs[k + 1] == '*' {
            proof { lemma_find_close(cs@, k + 2); }
            match scan_close(cs, k + 2) {
                Some(close) => {
                    k = close + 2;
                },
                None => {
                    return Some(Step::Error(owned("unterminated block comment"), k, k + 2));
                },
            }
        } else {
            return Some(token_step(cs, k));
        }
    }
    None
}

/// A lexer over a source text, producing tokens with their byte spans.
pub struct Lexer<'src> {
    source: &'src str,
    chars: Vec<char>,
    offsets: Vec<usize>,
    pos: usize,
}

impl<'src> Lexer<'src> {
    /// The characters, offsets and position are those of the source text.
    pub closed spec fn wf(&self) -> bool {
        &&& self.chars@ == self.source@
        &&& self.offsets@.len() == self.chars@.len() + 1
        &&& forall|k: int| 0 <= k <= self.chars@.len() ==> self.offsets@[k] == byte_offset(self.chars@, k)
        &&& self.pos <= self.chars@.len()
    }

    /// The source text.
    pub closed spec fn text(&self) -> Seq<char> {
        self.chars@
    }

    /// The position (in characters) of the next token to read.
    pub closed spec fn position(&self) -> int {
        self.pos as int
    }

    pub fn new(source: &'src str) -> (r: Lexer<'src>)
        ensures
            r.wf(),
            r.text() == source@,
            r.position() == 0,
    {
        let chars = str_chars(source);
        let total = source.as_bytes().len();
        let offsets = byte_offsets(&chars, total);
        Lexer { source, chars, offsets, pos: 0 }
    }

    /// The source text being lexed.
    pub fn source(&self) -> (r: &'src str)
        requires
            self.wf(),
        ensures
            r@ == self.text(),
    {
        self.source
    }

    fn span(&self, s: usize, e: usize) -> (r: Span)
        requires
            self.wf(),
            s <= e <= self.chars@.len(),
        ensures
            r == span_of(self.text(), s as int, e as int),
    {
        let a = self.offsets[s];
        let b = self.offsets[e];
        proof {
            crate::lexer::scan::lemma_byte_offset_bound(self.chars@, s as int);
            assert(self.chars@.take(e as int) =~= self.chars@.take(s as int) + self.chars@.subrange(s as int, e as int));
            crate::lexer::scan::lemma_encode_concat(self.chars@.take(s as int), self.chars@.subrange(s as int, e as int));
        }
        Span { offset: a as u32, len: (b - a) as u32 }
    }

    /// The next token with its span, or the error for text no token matches; `None` at the end.
    pub fn next(&mut self) -> (r: Option<Result<(Token, Span), AsmError>>)
        requires
            old(self).wf(),
        ensures
            final(self).wf(),
            final(self).text() == old(self).text(),
            match lex_step(old(self).text(), old(self).position()) {
                None => r is None && final(self).position() == old(self).position(),
                Some(LexStep::Token(t, s, e)) => final(self).position() == e
                    && (r matches Some(Ok((tok, sp))) && tok@ == t && sp == span_of(old(self).text(), s, e)),
                Some(LexStep::Error(d, s, e)) => final(self).position() == e
                    && (r matches Some(Err(err)) && err@ == (ErrorView::LexError { detail: d, span: span_of(old(self).text(), s, e) })),
            },
    {
        proof { lemma_lex_step_progress(self.chars@, self.pos as int); }
        match next_step(&self.chars, self.pos) {
            None => None,
            Some(Step::Token(t, s, e)) => {
                let sp = self.span(s, e);
                self.pos = e;
                Some(Ok((t, sp)))
            },
            Some(Step::Error(d, s, e)) => {
                let sp = self.span(s, e);
                self.pos = e;
                Some(Err(AsmError::LexError { detail: d, span: sp }))
            },
        }
    }

    /// Lex all tokens, separating successes from errors.
    pub fn collect_all(source: &str) -> (r: (Vec<(Token, Span)>, Vec<AsmError>))
        ensures
            r.0@.map_values(|p: (Token, Span)| (p.0@, p.1)) == lex_from(source@, 0).0,
            r.1@.map_values(|e: AsmError| e@) == lex_from(source@, 0).1,
    {
        let mut lexer = Lexer::new(source);
        let mut tokens: Vec<(Token, Span)> = Vec::new();
        let mut errors: Vec<AsmError> = Vec::new();
        loop
            invariant_except_break
                lexer.wf(),
                lexer.text() == source@,
                0 <= lexer.position() <= source@.len(),
                ({
                    let (ts, es) = lex_from(source@, lexer.position());
                    tokens@.map_values(|p: (Token, Span)| (p.0@, p.1)) + ts == lex_from(source@, 0).0
                        && errors@.map_values(|e: AsmError| e@) + es == lex_from(source@, 0).1
                }),
            ensures
                tokens@.map_values(|p: (Token, Span)| (p.0@, p.1)) == lex_from(source@, 0).0,
                errors@.map_values(|e: AsmError| e@) == lex_from(source@, 0).1,
            decreases source@.len() - lexer.position(),
        {
            let ghost p = lexer.position();
            let ghost prev_t = tokens@;
            let ghost prev_e = errors@;
            proof { lemma_lex_step_progress(source@, p); }
            match lexer.next() {
                None => {
                    assert(tokens@.map_values(|q: (Token, Span)| (q.0@, q.1)) + Seq::<(TokenView, Span)>::empty()
                        =~= tokens@.map_values(|q: (Token, Span)| (q.0@, q.1)));
                    assert(errors@.map_values(|x: AsmError| x@) + Seq::<ErrorView>::empty()
                        =~= errors@.map_values(|x: AsmError| x@));
                    break;
                },
                Some(Ok(pair)) => {
                    tokens.push(pair);
                    proof {
                        let (ts, es) = lex_from(source@, lexer.position());
                        assert(tokens@.map_values(|q: (Token, Span)| (q.0@, q.1)) =~=
                            prev_t.map_values(|q: (Token, Span)| (q.0@, q.1)).push((pair.0@, pair.1)));
                        assert(prev_t.map_values(|q: (Token, Span)| (q.0@, q.1)) + (seq![(pair.0@, pair.1)] + ts)
                            =~= tokens@.map_values(|q: (Token, Span)| (q.0@, q.1)) + ts);
                    }
                },
                Some(Err(e)) => {
                    errors.push(e);
                    proof {
                        let (ts, es) = lex_from(source@, lexer.position());
                        assert(errors@.map_values(|x: AsmError| x@) =~= prev_e.map_values(|x: AsmError| x@).push(e@));
                        assert(prev_e.map_values(|x: AsmError| x@) + (seq![e@] + es)
                            =~= errors@.map_values(|x: AsmError| x@) + es);
                    }
                },
            }
        }
        (tokens, errors)
    }
}

} // verus!
