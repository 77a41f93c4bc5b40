//! Assembler directives.

use vstd::prelude::*;
use crate::text::{ascii_lower_seq, chars_eq, lower_chars, str_chars};
use crate::types::expr::{Expr, ExprView};

verus! {

/// A Mach-O section specifier.
#[derive(Debug, PartialEq, Eq)]
pub struct SectionSpec {
    pub segment: String,
    pub section: String,
}

/// Target platform for `.build_version`.
#[derive(Debug, Clone, Copy, PartialEq, Eq, Hash, Structural)]
pub enum Platform {
    MacOS,
    IOS,
    TvOS,
    WatchOS,
}

impl Platform {
    /// The lower-case name of the platform.
    pub open spec fn name(self) -> Seq<char> {
        match self {
            Platform::MacOS => seq!['m', 'a', 'c', 'o', 's'],
            Platform::IOS => seq!['i', 'o', 's'],
            Platform::TvOS => seq!['t', 'v', 'o', 's'],
            Platform::WatchOS => seq!['w', 'a', 't', 'c', 'h', 'o', 's'],
        }
    }

    /// The platform a lower-case name denotes, if any.
    pub open spec fn from_name(l: Seq<char>) -> Option<Platform> {
        if exists|p: Platform| #[trigger] p.name() == l {
            Some(choose|p: Platform| #[trigger] p.name() == l)
        } else {
            None
        }
    }

    /// No two platforms share a name.
    pub proof fn lemma_name_unique(a: Platform, b: Platform)
        requires
            a.name() == b.name(),
        ensures
            a == b,
    {
        assert(a.name().len() == b.name().len());
        assert(a.name()[0] == b.name()[0]);
    }

    /// Parse a platform name from characters (case-insensitive).
    pub fn parse_chars(s: &[char]) -> (r: Option<Platform>)
        ensures
            r matches Some(p) ==> p.name() == ascii_lower_seq(s@),
            r is None ==> forall|p: Platform| #[trigger] p.name() != ascii_lower_seq(s@),
    {
        let l = lower_chars(s);
        assert(l@ == ascii_lower_seq(s@));
        if chars_eq(&l, &['m', 'a', 'c', 'o', 's']) { return Some(Platform::MacOS); }
        if chars_eq(&l, &['i', 'o', 's']) { return Some(Platform::IOS); }
        if chars_eq(&l, &['t', 'v', 'o', 's']) { return Some(Platform::TvOS); }
        if chars_eq(&l, &['w', 'a', 't', 'c', 'h', 'o', 's']) { return Some(Platform::WatchOS); }
        assert forall|p: Platform| #[trigger] p.name() != ascii_lower_seq(s@) by {
            match p { Platform::MacOS => {}, _ => {} }
        }
        None
    }

    /// Parse a platform name from a string (case-insensitive).
    pub fn parse(s: &str) -> (r: Option<Platform>)
        ensures
            r matches Some(p) ==> p.name() == ascii_lower_seq(s@),
            r is None ==> forall|p: Platform| #[trigger] p.name() != ascii_lower_seq(s@),
    {
        let cs = str_chars(s);
        Platform::parse_chars(&cs)
    }
}

/// Build version metadata from `.build_version`.
#[derive(Debug, PartialEq, Eq)]
pub struct BuildVersion {
    pub platform: Platform,
    pub min_version: String,
}

/// Assembler directives.
#[derive(Debug, PartialEq, Eq)]
pub enum Directive {
    /// `.text`
    Text,
    /// `.data`
    Data,
    /// `.section segment,section`
    Section(SectionSpec),
    /// `.global symbol`
    Global(String),
    /// `.local symbol`
    Local(String),
    /// `.align boundary`
    Align(Expr),
    /// `.p2align power`
    P2Align(Expr),
    /// `.byte expr, ...`
    Byte(Vec<Expr>),
    /// `.short expr, ...` / `.hword`
    Short(Vec<Expr>),
    /// `.word expr, ...` / `.long`
    Word(Vec<Expr>),
    /// `.quad expr, ...`
    Quad(Vec<Expr>),
    /// `.ascii "string"`
    Ascii(String),
    /// `.asciz "string"` / `.string`
    Asciz(String),
    /// `.space size[, fill]` / `.skip`
    Space { size: Expr, fill: Option<Expr> },
    /// `.subsections_via_symbols`
    SubsectionsViaSymbols,
    /// `.build_version platform, version`
    BuildVersion(BuildVersion),
}

/// The abstract value of a directive: texts as character sequences.
pub enum DirectiveView {
    Text,
    Data,
    Section { segment: Seq<char>, section: Seq<char> },
    Global(Seq<char>),
    Local(Seq<char>),
    Align(ExprView),
    P2Align(ExprView),
    Byte(Seq<ExprView>),
    Short(Seq<ExprView>),
    Word(Seq<ExprView>),
    Quad(Seq<ExprView>),
    Ascii(Seq<char>),
    Asciz(Seq<char>),
    Space { size: ExprView, fill: Option<ExprView> },
    SubsectionsViaSymbols,
    BuildVersion { platform: Platform, min_version: Seq<char> },
}

/// The abstract values of a list of expressions.
pub open spec fn exprs_view(es: Seq<Expr>) -> Seq<ExprView> {
    es.map_values(|e: Expr| e@)
}

impl View for Directive {
    type V = DirectiveView;

    open spec fn view(&self) -> DirectiveView {
        match self {
            Directive::Text => DirectiveView::Text,
            Directive::Data => DirectiveView::Data,
            Directive::Section(s) => DirectiveView::Section { segment: s.segment@, section: s.section@ },
            Directive::Global(n) => DirectiveView::Global(n@),
            Directive::Local(n) => DirectiveView::Local(n@),
            Directive::Align(e) => DirectiveView::Align(e@),
            Directive::P2Align(e) => DirectiveView::P2Align(e@),
            Directive::Byte(es) => DirectiveView::Byte(exprs_view(es@)),
            Directive::Short(es) => DirectiveView::Short(exprs_view(es@)),
            Directive::Word(es) => DirectiveView::Word(exprs_view(es@)),
            Directive::Quad(es) => DirectiveView::Quad(exprs_view(es@)),
            Directive::Ascii(s) => DirectiveView::Ascii(s@),
            Directive::Asciz(s) => DirectiveView::Asciz(s@),
            Directive::Space { size, fill } => DirectiveView::Space {
                size: size@,
                fill: match fill {
                    Some(f) => Some(f@),
                    None => None,
                },
            },
            Directive::SubsectionsViaSymbols => DirectiveView::SubsectionsViaSymbols,
            Directive::BuildVersion(bv) => DirectiveView::BuildVersion { platform: bv.platform, min_version: bv.min_version@ },
        }
    }
}

} // verus!
