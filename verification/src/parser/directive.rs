//! Directives: the name after the `.` selects the arguments that follow.

use vstd::prelude::*;
use crate::lexer::token::{Token, TokenView};
use crate::text::{ascii_lower_seq, chars_eq, lower_chars, push_signed_decimal, push_str, signed_decimal, str_chars};
use crate::types::error::{AsmError, ErrorView};
use crate::types::directive::{BuildVersion, Directive, DirectiveView, Platform, SectionSpec};
use crate::types::expr::{Expr, ExprView};
use crate::types::span::Span;
use crate::parser::state::{span_text, spec_eat, spec_expect, PState, ParseEnv, Parser};
use crate::parser::expr::p_expr;

verus! {

/// The expressions after the first: `, expr` repeated.
pub open spec fn p_more_exprs(env: ParseEnv, st: PState, es: Seq<ExprView>) -> (Option<Seq<ExprView>>, PState)
    decreases env.toks.len() - st.pos,
{
    let (c, s1) = spec_eat(env, st, TokenView::Comma.kind());
    if c is None {
        (Some(es), s1)
    } else {
        let (e, s2) = p_expr(env, s1);
        match e {
            None => (None, s2),
            Some(x) => if st.pos < s2.pos <= env.toks.len() {
                p_more_exprs(env, s2, es.push(x))
            } else {
                (None, s2)
            },
        }
    }
}

/// A comma-separated list of at least one expression.
#[verifier::opaque]
pub open spec fn p_expr_list(env: ParseEnv, st: PState) -> (Option<Seq<ExprView>>, PState) {
    let (e, s1) = p_expr(env, st);
    match e {
        None => (None, s1),
        Some(x) => if st.pos < s1.pos <= env.toks.len() {
            p_more_exprs(env, s1, seq![x])
        } else {
            (None, s1)
        },
    }
}

/// The version text `major[.minor[.patch]]` of a `.build_version`, after the comma.
pub open spec fn p_version(env: ParseEnv, st: PState) -> (Option<Seq<char>>, PState) {
    let (mj, s1) = spec_expect(env, st, TokenView::Integer(0).kind(), "expected version number"@);
    match mj {
        Some((TokenView::Integer(major), _)) => {
            let v1 = signed_decimal(major as int);
            let (d1, s2) = spec_eat(env, s1, TokenView::Dot.kind());
            if d1 is None {
                (Some(v1), s2)
            } else {
                let (mn, s3) = spec_expect(env, s2, TokenView::Integer(0).kind(), "expected minor version"@);
                match mn {
                    Some((TokenView::Integer(minor), _)) => {
                        let v2 = v1 + seq!['.'] + signed_decimal(minor as int);
                        let (d2, s4) = spec_eat(env, s3, TokenView::Dot.kind());
                        if d2 is None {
                            (Some(v2), s4)
                        } else {
                            let (pt, s5) = spec_expect(env, s4, TokenView::Integer(0).kind(), "expected patch version"@);
                            match pt {
                                Some((TokenView::Integer(patch), _)) => (Some(v2 + seq!['.'] + signed_decimal(patch as int)), s5),
                                _ => (None, s5),
                            }
                        }
                    },
                    _ => (None, s3),
                }
            }
        },
        _ => (None, s1),
    }
}

/// `.build_version platform, major[.minor[.patch]]`, after the directive name.
#[verifier::opaque]
pub open spec fn p_build_version(env: ParseEnv, st: PState) -> (Option<DirectiveView>, PState) {
    let (p, s1) = spec_expect(env, st, TokenView::Ident.kind(), "expected platform name"@);
    match p {
        None => (None, s1),
        Some((_, pspan)) => {
            let pname = span_text(env.text, pspan);
            match Platform::from_name(ascii_lower_seq(pname)) {
                None => (None, s1.push(ErrorView::InvalidDirective { detail: "unknown platform `"@ + pname + "`"@, span: pspan })),
                Some(platform) => {
                    let (c, s2) = spec_expect(env, s1, TokenView::Comma.kind(), "expected `,`"@);
                    if c is None {
                        (None, s2)
                    } else {
                        match p_version(env, s2) {
                            (Some(v), s3) => (Some(DirectiveView::BuildVersion { platform, min_version: v }), s3),
                            (None, s3) => (None, s3),
                        }
                    }
                },
            }
        },
    }
}

/// `.section segment, section`, after the directive name.
#[verifier::opaque]
pub open spec fn p_section(env: ParseEnv, st: PState) -> (Option<DirectiveView>, PState) {
    let (g, s1) = spec_expect(env, st, TokenView::Ident.kind(), "expected segment name"@);
    match g {
        None => (None, s1),
        Some((_, gspan)) => {
            let (c, s2) = spec_expect(env, s1, TokenView::Comma.kind(), "expected `,`"@);
            if c is None {
                (None, s2)
            } else {
                let (n, s3) = spec_expect(env, s2, TokenView::Ident.kind(), "expected section name"@);
                match n {
                    None => (None, s3),
                    Some((_, nspan)) => (Some(DirectiveView::Section {
                        segment: span_text(env.text, gspan),
                        section: span_text(env.text, nspan),
                    }), s3),
                }
            }
        },
    }
}

/// `.space size[, fill]`, after the directive name.
#[verifier::opaque]
pub open spec fn p_space(env: ParseEnv, st: PState) -> (Option<DirectiveView>, PState) {
    let (size, s1) = p_expr(env, st);
    match size {
        None => (None, s1),
        Some(sz) => {
            let (c, s2) = spec_eat(env, s1, TokenView::Comma.kind());
            if c is None {
                (Some(DirectiveView::Space { size: sz, fill: None }), s2)
            } else {
                let (fill, s3) = p_expr(env, s2);
                match fill {
                    None => (None, s3),
                    Some(f) => (Some(DirectiveView::Space { size: sz, fill: Some(f) }), s3),
                }
            }
        },
    }
}

/// A symbol name argument.
#[verifier::opaque]
pub open spec fn p_symbol(env: ParseEnv, st: PState) -> (Option<Seq<char>>, PState) {
    let (x, s1) = spec_expect(env, st, TokenView::Ident.kind(), "expected symbol name"@);
    match x {
        Some((_, sp)) => (Some(span_text(env.text, sp)), s1),
        None => (None, s1),
    }
}

/// A string literal argument.
#[verifier::opaque]
pub open spec fn p_string(env: ParseEnv, st: PState) -> (Option<Seq<char>>, PState) {
    let (x, s1) = spec_expect(env, st, TokenView::StringLiteral(Seq::empty()).kind(), "expected string literal"@);
    match x {
        Some((TokenView::StringLiteral(s), _)) => (Some(s), s1),
        _ => (None, s1),
    }
}

/// The result of parsing the arguments of the directive `name` (without its `.`), whose
/// token spans `dspan`; names are matched case-insensitively.
pub open spec fn p_directive(env: ParseEnv, st: PState, name: Seq<char>, dspan: Span) -> (
    Option<DirectiveView>,
    PState,
) {
    let l = ascii_lower_seq(name);
    if l == seq!['t', 'e', 'x', 't'] {
        (Some(DirectiveView::Text), st)
    } else if l == seq!['d', 'a', 't', 'a'] {
        (Some(DirectiveView::Data), st)
    } else if l == "subsections_via_symbols"@ {
        (Some(DirectiveView::SubsectionsViaSymbols), st)
    } else if l == seq!['g', 'l', 'o', 'b', 'a', 'l'] || l == seq!['g', 'l', 'o', 'b', 'l'] {
        match p_symbol(env, st) {
            (Some(n), s1) => (Some(DirectiveView::Global(n)), s1),
            (None, s1) => (None, s1),
        }
    } else if l == seq!['l', 'o', 'c', 'a', 'l'] {
        match p_symbol(env, st) {
            (Some(n), s1) => (Some(DirectiveView::Local(n)), s1),
            (None, s1) => (None, s1),
        }
    } else if l == seq!['a', 'l', 'i', 'g', 'n'] {
        match p_expr(env, st) {
            (Some(e), s1) => (Some(DirectiveView::Align(e)), s1),
            (None, s1) => (None, s1),
        }
    } else if l == seq!['p', '2', 'a', 'l', 'i', 'g', 'n'] {
        match p_expr(env, st) {
            (Some(e), s1) => (Some(DirectiveView::P2Align(e)), s1),
            (None, s1) => (None, s1),
        }
    } else if l == seq!['b', 'y', 't', 'e'] {
        match p_expr_list(env, st) {
            (Some(es), s1) => (Some(DirectiveView::Byte(es)), s1),
            (None, s1) => (None, s1),
        }
    } else if l == seq!['s', 'h', 'o', 'r', 't'] || l == seq!['h', 'w', 'o', 'r', 'd'] {
        match p_expr_list(env, st) {
            (Some(es), s1) => (Some(DirectiveView::Short(es)), s1),
            (None, s1) => (None, s1),
        }
    } else if l == seq!['w', 'o', 'r', 'd'] || l == seq!['l', 'o', 'n', 'g'] {
        match p_expr_list(env, st) {
            (Some(es), s1) => (Some(DirectiveView::Word(es)), s1),
            (None, s1) => (None, s1),
        }
    } else if l == seq!['q', 'u', 'a', 'd'] {
        match p_expr_list(env, st) {
            (Some(es), s1) => (Some(DirectiveView::Quad(es)), s1),
            (None, s1) => (None, s1),
        }
    } else if l == seq!['a', 's', 'c', 'i', 'i'] {
        match p_string(env, st) {
            (Some(s), s1) => (Some(DirectiveView::Ascii(s)), s1),
            (None, s1) => (None, s1),
        }
    } else if l == seq!['a', 's', 'c', 'i', 'z'] || l == seq!['s', 't', 'r', 'i', 'n', 'g'] {
        match p_string(env, st) {
            (Some(s), s1) => (Some(DirectiveView::Asciz(s)), s1),
            (None, s1) => (None, s1),
        }
    } else if l == seq!['s', 'p', 'a', 'c', 'e'] || l == seq!['s', 'k', 'i', 'p'] {
        p_space(env, st)
    } else if l == seq!['s', 'e', 'c', 't', 'i', 'o', 'n'] {
        p_section(env, st)
    } else if l == "build_version"@ {
        p_build_version(env, st)
    } else {
        (None, st.push(ErrorView::InvalidDirective { detail: "unknown directive `."@ + name + "`"@, span: dspan }))
    }
}

impl<'src> Parser<'src> {
    /// Parse directive arguments after the directive token has been identified.
    /// `name` is the directive name without the leading dot, `dir_span` is the span of the directive token.
    pub fn parse_directive(&mut self, name: &str, dir_span: Span) -> (r: Option<Directive>)
        requires
            old(self).wf(),
        ensures
            final(self).wf(),
            final(self).env() == old(self).env(),
            old(self).st().pos <= final(self).st().pos,
            ({
                let (x, st) = p_directive(old(self).env(), old(self).st(), name@, dir_span);
                final(self).st() == st && match r {
                    Some(d) => x == Some(d@),
                    None => x is None,
                }
            }),
    {
        let l = lower_chars(&str_chars(name));
        proof {
            reveal_strlit("subsections_via_symbols");
            reveal_strlit("build_version");
            assert("subsections_via_symbols"@ =~= seq![
                's', 'u', 'b', 's', 'e', 'c', 't', 'i', 'o', 'n', 's', '_', 'v', 'i', 'a', '_', 's', 'y', 'm', 'b', 'o', 'l', 's',
            ]);
            assert("build_version"@ =~= seq!['b', 'u', 'i', 'l', 'd', '_', 'v', 'e', 'r', 's', 'i', 'o', 'n']);
        }
        if chars_eq(&l, &['t', 'e', 'x', 't']) {
            return Some(Directive::Text);
        }
        if chars_eq(&l, &['d', 'a', 't', 'a']) {
            return Some(Directive::Data);
        }
        if chars_eq(
            &l,
            &['s', 'u', 'b', 's', 'e', 'c', 't', 'i', 'o', 'n', 's', '_', 'v', 'i', 'a', '_', 's', 'y', 'm', 'b', 'o', 'l', 's'],
        ) {
            return Some(Directive::SubsectionsViaSymbols);
        }
        if chars_eq(&l, &['g', 'l', 'o', 'b', 'a', 'l']) || chars_eq(&l, &['g', 'l', 'o', 'b', 'l']) {
            return match self.parse_symbol_arg() {
                Some(n) => Some(Directive::Global(n)),
                None => None,
            };
        }
        if chars_eq(&l, &['l', 'o', 'c', 'a', 'l']) {
            return match self.parse_symbol_arg() {
                Some(n) => Some(Directive::Local(n)),
                None => None,
            };
        }
        if chars_eq(&l, &['a', 'l', 'i', 'g', 'n']) {
            return match self.parse_expr() {
                Some(e) => Some(Directive::Align(e)),
                None => None,
            };
        }
        if chars_eq(&l, &['p', '2', 'a', 'l', 'i', 'g', 'n']) {
            return match self.parse_expr() {
                Some(e) => Some(Directive::P2Align(e)),
                None => None,
            };
        }
        if chars_eq(&l, &['b', 'y', 't', 'e']) {
            return match self.parse_expr_list() {
                Some(es) => Some(Directive::Byte(es)),
                None => None,
            };
        }
        if chars_eq(&l, &['s', 'h', 'o', 'r', 't']) || chars_eq(&l, &['h', 'w', 'o', 'r', 'd']) {
            return match self.parse_expr_list() {
                Some(es) => Some(Directive::Short(es)),
                None => None,
            };
        }
        if chars_eq(&l, &['w', 'o', 'r', 'd']) || chars_eq(&l, &['l', 'o', 'n', 'g']) {
            return match self.parse_expr_list() {
                Some(es) => Some(Directive::Word(es)),
                None => None,
            };
        }
        if chars_eq(&l, &['q', 'u', 'a', 'd']) {
            return match self.parse_expr_list() {
                Some(es) => Some(Directive::Quad(es)),
                None => None,
            };
        }
        if chars_eq(&l, &['a', 's', 'c', 'i', 'i']) {
            return match self.parse_string_arg() {
                Some(s) => Some(Directive::Ascii(s)),
                None => None,
            };
        }
        if chars_eq(&l, &['a', 's', 'c', 'i', 'z']) || chars_eq(&l, &['s', 't', 'r', 'i', 'n', 'g']) {
            return match self.parse_string_arg() {
                Some(s) => Some(Directive::Asciz(s)),
                None => None,
            };
        }
        if chars_eq(&l, &['s', 'p', 'a', 'c', 'e']) || chars_eq(&l, &['s', 'k', 'i', 'p']) {
            return self.parse_space();
        }
        if chars_eq(&l, &['s', 'e', 'c', 't', 'i', 'o', 'n']) {
            return self.parse_section();
        }
        if chars_eq(&l, &['b', 'u', 'i', 'l', 'd', '_', 'v', 'e', 'r', 's', 'i', 'o', 'n']) {
            return self.parse_build_version();
        }
        let mut detail = String::new();
        push_str(&mut detail, "unknown directive `.");
        push_str(&mut detail, name);
        push_str(&mut detail, "`");
        self.push_error(AsmError::InvalidDirective { detail, span: dir_span });
        None
    }

    /// A symbol name argument.
    fn parse_symbol_arg(&mut self) -> (r: Option<String>)
        requires
            old(self).wf(),
        ensures
            final(self).wf(),
            final(self).env() == old(self).env(),
            old(self).st().pos <= final(self).st().pos,
            ({
                let (x, st) = p_symbol(old(self).env(), old(self).st());
                final(self).st() == st && match r {
                    Some(n) => x == Some(n@),
                    None => x is None,
                }
            }),
    {
        proof { reveal(p_symbol); }
        proof { self.lemma_wf(); }
        let (_, span) = self.expect(&Token::Ident, "expected symbol name")?;
        proof { self.lemma_wf(); }
        Some(self.slice(span))
    }

    /// A string literal argument.
    fn parse_string_arg(&mut self) -> (r: Option<String>)
        requires
            old(self).wf(),
        ensures
            final(self).wf(),
            final(self).env() == old(self).env(),
            old(self).st().pos <= final(self).st().pos,
            ({
                let (x, st) = p_string(old(self).env(), old(self).st());
                final(self).st() == st && match r {
                    Some(s) => x == Some(s@),
                    None => x is None,
                }
            }),
    {
        proof { reveal(p_string); }
        proof { self.lemma_wf(); }
        let (s, _) = self.expect_string("expected string literal")?;
        Some(s)
    }

    /// `size[, fill]` of `.space`.
    fn parse_space(&mut self) -> (r: Option<Directive>)
        requires
            old(self).wf(),
        ensures
            final(self).wf(),
            final(self).env() == old(self).env(),
            old(self).st().pos <= final(self).st().pos,
            ({
                let (x, st) = p_space(old(self).env(), old(self).st());
                final(self).st() == st && match r {
                    Some(d) => x == Some(d@),
                    None => x is None,
                }
            }),
    {
        proof { reveal(p_space); }
        let size = self.parse_expr()?;
        let fill = if self.eat(&Token::Comma).is_some() {
            Some(self.parse_expr()?)
        } else {
            None
        };
        Some(Directive::Space { size, fill })
    }

    /// `segment, section` of `.section`.
    fn parse_section(&mut self) -> (r: Option<Directive>)
        requires
            old(self).wf(),
        ensures
            final(self).wf(),
            final(self).env() == old(self).env(),
            old(self).st().pos <= final(self).st().pos,
            ({
                let (x, st) = p_section(old(self).env(), old(self).st());
                final(self).st() == st && match r {
                    Some(d) => x == Some(d@),
                    None => x is None,
                }
            }),
    {
        proof { reveal(p_section); }
        proof { self.lemma_wf(); }
        let (_, seg_span) = self.expect(&Token::Ident, "expected segment name")?;
        proof { self.lemma_wf(); }
        let segment = self.slice(seg_span);
        self.expect(&Token::Comma, "expected `,`")?;
        let (_, sec_span) = self.expect(&Token::Ident, "expected section name")?;
        proof { self.lemma_wf(); }
        let section = self.slice(sec_span);
        Some(Directive::Section(SectionSpec { segment, section }))
    }

    /// Parse comma-separated expression list (at least one).
    fn parse_expr_list(&mut self) -> (r: Option<Vec<Expr>>)
        requires
            old(self).wf(),
        ensures
            final(self).wf(),
            final(self).env() == old(self).env(),
            old(self).st().pos <= final(self).st().pos,
            ({
                let (x, st) = p_expr_list(old(self).env(), old(self).st());
                final(self).st() == st && match r {
                    Some(es) => x == Some(es@.map_values(|e: Expr| e@)),
                    None => x is None,
                }
            }),
    {
        proof { reveal(p_expr_list); }
        proof { self.lemma_wf(); }
        let ghost env = self.env();
        let first = self.parse_expr()?;
        proof { self.lemma_wf(); }
        let mut exprs: Vec<Expr> = Vec::new();
        exprs.push(first);
        assert(exprs@.map_values(|e: Expr| e@) =~= seq![exprs@[0]@]);
        loop
            invariant
                self.wf(),
                self.env() == env,
                env == old(self).env(),
                old(self).st().pos < self.st().pos,
                p_expr_list(env, old(self).st()) == p_more_exprs(env, self.st(), exprs@.map_values(|e: Expr| e@)),
            decreases env.toks.len() - self.st().pos,
        {
            proof { self.lemma_wf(); }
            if self.eat(&Token::Comma).is_none() {
                return Some(exprs);
            }
            let ghost before = exprs@.map_values(|e: Expr| e@);
            let e = self.parse_expr()?;
            proof { self.lemma_wf(); }
            exprs.push(e);
            assert(exprs@.map_values(|e: Expr| e@) =~= before.push(exprs@.last()@));
        }
    }

    /// The version `major[.minor[.patch]]` of `.build_version`.
    fn parse_version(&mut self) -> (r: Option<String>)
        requires
            old(self).wf(),
        ensures
            final(self).wf(),
            final(self).env() == old(self).env(),
            old(self).st().pos <= final(self).st().pos,
            ({
                let (x, st) = p_version(old(self).env(), old(self).st());
                final(self).st() == st && match r {
                    Some(v) => x == Some(v@),
                    None => x is None,
                }
            }),
    {
        let (major, _) = self.expect_integer("expected version number")?;
        let mut version = String::new();
        push_signed_decimal(&mut version, major);
        if self.eat(&Token::Dot).is_some() {
            let (minor, _) = self.expect_integer("expected minor version")?;
            crate::text::push_char(&mut version, '.');
            push_signed_decimal(&mut version, minor);
            if self.eat(&Token::Dot).is_some() {
                let (patch, _) = self.expect_integer("expected patch version")?;
                crate::text::push_char(&mut version, '.');
                push_signed_decimal(&mut version, patch);
            }
        }
        proof {
            assert(seq!['.'] =~= Seq::<char>::empty().push('.'));
        }
        Some(version)
    }

    /// Parse `.build_version platform, major.minor.patch`
    fn parse_build_version(&mut self) -> (r: Option<Directive>)
        requires
            old(self).wf(),
        ensures
            final(self).wf(),
            final(self).env() == old(self).env(),
            old(self).st().pos <= final(self).st().pos,
            ({
                let (x, st) = p_build_version(old(self).env(), old(self).st());
                final(self).st() == st && match r {
                    Some(d) => x == Some(d@),
                    None => x is None,
                }
            }),
    {
        proof { reveal(p_build_version); }
        proof { self.lemma_wf(); }
        let (_, plat_span) = self.expect(&Token::Ident, "expected platform name")?;
        proof { self.lemma_wf(); }
        let plat_name = self.slice(plat_span);
        let platform = match Platform::parse(plat_name.as_str()) {
            Some(p) => {
                proof {
                    let c = choose|x: Platform| #[trigger] x.name() == ascii_lower_seq(plat_name@);
                    Platform::lemma_name_unique(c, p);
                }
                p
            },
            None => {
                let mut detail = String::new();
                push_str(&mut detail, "unknown platform `");
                push_str(&mut detail, plat_name.as_str());
                push_str(&mut detail, "`");
                self.push_error(AsmError::InvalidDirective { detail, span: plat_span });
                return None;
            },
        };
        self.expect(&Token::Comma, "expected `,`")?;
        let min_version = self.parse_version()?;
        Some(Directive::BuildVersion(BuildVersion { platform, min_version }))
    }
}

/// `.ascii` and `.asciz` (or `.string`) read the same string argument, in any letter case;
/// `.ascii` gives the string without a terminator, never the terminated form, and `.asciz`
/// the terminated one.
pub proof fn law_ascii_asciz(env: ParseEnv, st: PState, ascii: Seq<char>, asciz: Seq<char>, dspan: Span)
    requires
        ascii_lower_seq(ascii) == seq!['a', 's', 'c', 'i', 'i'],
        ascii_lower_seq(asciz) == seq!['a', 's', 'c', 'i', 'z'] || ascii_lower_seq(asciz) == seq!['s', 't', 'r', 'i', 'n', 'g'],
    ensures
        p_directive(env, st, ascii, dspan).1 == p_directive(env, st, asciz, dspan).1,
        p_directive(env, st, ascii, dspan).0 is None <==> p_directive(env, st, asciz, dspan).0 is None,
        p_directive(env, st, ascii, dspan).0 matches Some(d) ==> d is Ascii,
        p_directive(env, st, asciz, dspan).0 matches Some(d) ==> d is Asciz,
        p_directive(env, st, asciz, dspan).0 matches Some(DirectiveView::Asciz(s))
            ==> p_directive(env, st, ascii, dspan).0 == Some(DirectiveView::Ascii(s)),
{
    let l1 = ascii_lower_seq(ascii);
    let l2 = ascii_lower_seq(asciz);
    reveal_strlit("subsections_via_symbols");
    reveal_strlit("build_version");
    assert(l1.len() == 5 && l1[0] == 'a' && l1[1] == 's' && l1[4] == 'i');
    assert(l2.len() == 5 ==> (l2[0] == 'a' && l2[1] == 's' && l2[4] == 'z'));
    assert(l2.len() == 6 ==> (l2[0] == 's' && l2[1] == 't'));
    assert(l1 != seq!['t', 'e', 'x', 't'] && l1 != seq!['d', 'a', 't', 'a'] && l1 != "subsections_via_symbols"@
        && l1 != seq!['g', 'l', 'o', 'b', 'a', 'l'] && l1 != seq!['g', 'l', 'o', 'b', 'l'] && l1 != seq!['l', 'o', 'c', 'a', 'l']
        && l1 != seq!['a', 'l', 'i', 'g', 'n'] && l1 != seq!['p', '2', 'a', 'l', 'i', 'g', 'n'] && l1 != seq!['b', 'y', 't', 'e']
        && l1 != seq!['s', 'h', 'o', 'r', 't'] && l1 != seq!['h', 'w', 'o', 'r', 'd'] && l1 != seq!['w', 'o', 'r', 'd']
        && l1 != seq!['l', 'o', 'n', 'g'] && l1 != seq!['q', 'u', 'a', 'd']);
    assert(l2 != seq!['t', 'e', 'x', 't'] && l2 != seq!['d', 'a', 't', 'a'] && l2 != "subsections_via_symbols"@
        && l2 != seq!['g', 'l', 'o', 'b', 'a', 'l'] && l2 != seq!['g', 'l', 'o', 'b', 'l'] && l2 != seq!['l', 'o', 'c', 'a', 'l']
        && l2 != seq!['a', 'l', 'i', 'g', 'n'] && l2 != seq!['p', '2', 'a', 'l', 'i', 'g', 'n'] && l2 != seq!['b', 'y', 't', 'e']
        && l2 != seq!['s', 'h', 'o', 'r', 't'] && l2 != seq!['h', 'w', 'o', 'r', 'd'] && l2 != seq!['w', 'o', 'r', 'd']
        && l2 != seq!['l', 'o', 'n', 'g'] && l2 != seq!['q', 'u', 'a', 'd'] && l2 != seq!['a', 's', 'c', 'i', 'i']);
}

/// The data directives read the same list of values and differ only in the size they give
/// each: `.byte` one byte, `.short`/`.hword` two, `.word`/`.long` four, `.quad` eight.
pub proof fn law_data_directives(env: ParseEnv, st: PState, n1: Seq<char>, n2: Seq<char>, n4: Seq<char>, n8: Seq<char>, dspan: Span)
    requires
        ascii_lower_seq(n1) == seq!['b', 'y', 't', 'e'],
        ascii_lower_seq(n2) == seq!['s', 'h', 'o', 'r', 't'] || ascii_lower_seq(n2) == seq!['h', 'w', 'o', 'r', 'd'],
        ascii_lower_seq(n4) == seq!['w', 'o', 'r', 'd'] || ascii_lower_seq(n4) == seq!['l', 'o', 'n', 'g'],
        ascii_lower_seq(n8) == seq!['q', 'u', 'a', 'd'],
    ensures
        p_directive(env, st, n2, dspan).1 == p_directive(env, st, n1, dspan).1,
        p_directive(env, st, n4, dspan).1 == p_directive(env, st, n1, dspan).1,
        p_directive(env, st, n8, dspan).1 == p_directive(env, st, n1, dspan).1,
        match p_directive(env, st, n1, dspan).0 {
            Some(DirectiveView::Byte(es)) => {
                &&& p_directive(env, st, n2, dspan).0 == Some(DirectiveView::Short(es))
                &&& p_directive(env, st, n4, dspan).0 == Some(DirectiveView::Word(es))
                &&& p_directive(env, st, n8, dspan).0 == Some(DirectiveView::Quad(es))
            },
            None => p_directive(env, st, n2, dspan).0 is None && p_directive(env, st, n4, dspan).0 is None
                && p_directive(env, st, n8, dspan).0 is None,
            _ => false,
        },
{
    reveal_strlit("subsections_via_symbols");
    let l1 = ascii_lower_seq(n1);
    let l2 = ascii_lower_seq(n2);
    let l4 = ascii_lower_seq(n4);
    let l8 = ascii_lower_seq(n8);
    assert(l1.len() == 4 && l1[0] == 'b');
    assert(l2.len() == 5 && (l2[0] == 's' || l2[0] == 'h') && (l2[1] == 'h' || l2[1] == 'w'));
    assert(l4.len() == 4 && (l4[0] == 'w' || l4[0] == 'l') && (l4[1] == 'o'));
    assert(l8.len() == 4 && l8[0] == 'q');
}

} // verus!
