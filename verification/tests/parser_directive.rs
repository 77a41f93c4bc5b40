#![allow(unused_imports)]
use ingot::types::error::{AsmError, AsmErrors};
use ingot::types::expr::{BinOp, Expr, RelocModifier, UnaryOp};
use ingot::types::instruction::{Instruction, Mnemonic};
use ingot::types::operand::{Condition, ExtendOp, MemoryOperand, Operand, ShiftOp};
use ingot::types::register::{FpReg, FpRegWidth, GpReg, RegWidth, Register, SpecialReg, VecArrangement, VecReg};
use ingot::types::reloc::{PendingRelocation, RelocKind};
use ingot::types::span::Span;
use ingot::types::directive::{BuildVersion, Directive, Platform, SectionSpec};
use ingot::types::statement::Statement;
use ingot::lexer::Lexer;
use ingot::lexer::token::Token;
use ingot::parser::parse;
use ingot::parser::state::Parser;

    fn parse_dir(source: &str) -> (Option<Directive>, Vec<AsmError>) {
        let src = format!(".{source}\n");
        let (stmts, errors) = parse(&src);
        let directive = stmts.into_iter().find_map(|s| match s {
            Statement::Directive { directive, .. } => Some(directive),
            _ => None,
        });
        (directive, errors)
    }

    #[test]
    fn text_directive() {
        let (d, e) = parse_dir("text");
        assert!(e.is_empty());
        assert_eq!(d, Some(Directive::Text));
    }

    #[test]
    fn data_directive() {
        let (d, e) = parse_dir("data");
        assert!(e.is_empty());
        assert_eq!(d, Some(Directive::Data));
    }

    #[test]
    fn directive_global_directive() {
        let (d, e) = parse_dir("global _main");
        assert!(e.is_empty());
        assert_eq!(d, Some(Directive::Global("_main".into())));
    }

    #[test]
    fn globl_directive() {
        let (d, e) = parse_dir("globl _start");
        assert!(e.is_empty());
        assert_eq!(d, Some(Directive::Global("_start".into())));
    }

    #[test]
    fn byte_directive() {
        let (d, e) = parse_dir("byte 1, 2, 3");
        assert!(e.is_empty());
        assert_eq!(
            d,
            Some(Directive::Byte(vec![
                Expr::Literal(1),
                Expr::Literal(2),
                Expr::Literal(3),
            ]))
        );
    }

    #[test]
    fn asciz_directive() {
        let (d, e) = parse_dir(r#"asciz "hello""#);
        assert!(e.is_empty());
        assert_eq!(d, Some(Directive::Asciz("hello".into())));
    }

    #[test]
    fn directive_space_directive() {
        let (d, e) = parse_dir("space 16");
        assert!(e.is_empty());
        assert_eq!(
            d,
            Some(Directive::Space {
                size: Expr::Literal(16),
                fill: None,
            })
        );
    }

    #[test]
    fn space_with_fill() {
        let (d, e) = parse_dir("space 16, 0xff");
        assert!(e.is_empty());
        assert_eq!(
            d,
            Some(Directive::Space {
                size: Expr::Literal(16),
                fill: Some(Expr::Literal(255)),
            })
        );
    }

    #[test]
    fn section_directive() {
        let (d, e) = parse_dir("section __TEXT, __text");
        assert!(e.is_empty());
        assert_eq!(
            d,
            Some(Directive::Section(SectionSpec {
                segment: "__TEXT".into(),
                section: "__text".into(),
            }))
        );
    }

    #[test]
    fn directive_subsections_via_symbols() {
        let (d, e) = parse_dir("subsections_via_symbols");
        assert!(e.is_empty());
        assert_eq!(d, Some(Directive::SubsectionsViaSymbols));
    }

    #[test]
    fn build_version_directive() {
        let (d, e) = parse_dir("build_version macos, 14.0");
        assert!(e.is_empty());
        assert_eq!(
            d,
            Some(Directive::BuildVersion(BuildVersion {
                platform: Platform::MacOS,
                min_version: "14.0".into(),
            }))
        );
    }

    #[test]
    fn build_version_with_patch() {
        let (d, e) = parse_dir("build_version macos, 14.0.0");
        assert!(e.is_empty());
        assert_eq!(
            d,
            Some(Directive::BuildVersion(BuildVersion {
                platform: Platform::MacOS,
                min_version: "14.0.0".into(),
            }))
        );
    }

    #[test]
    fn unknown_directive_error() {
        let (d, e) = parse_dir("foobar");
        assert!(d.is_none());
        assert_eq!(e.len(), 1);
    }

    #[test]
    fn directive_align_directive() {
        let (d, e) = parse_dir("align 4");
        assert!(e.is_empty());
        assert_eq!(d, Some(Directive::Align(Expr::Literal(4))));
    }

    #[test]
    fn p2align_directive() {
        let (d, e) = parse_dir("p2align 2");
        assert!(e.is_empty());
        assert_eq!(d, Some(Directive::P2Align(Expr::Literal(2))));
    }

    #[test]
    fn word_directive() {
        let (d, e) = parse_dir("word 0x1234");
        assert!(e.is_empty());
        assert_eq!(d, Some(Directive::Word(vec![Expr::Literal(0x1234)])));
    }

    #[test]
    fn quad_directive() {
        let (d, e) = parse_dir("quad 100");
        assert!(e.is_empty());
        assert_eq!(d, Some(Directive::Quad(vec![Expr::Literal(100)])));
    }

    #[test]
    fn local_directive() {
        let (d, e) = parse_dir("local _helper");
        assert!(e.is_empty());
        assert_eq!(d, Some(Directive::Local("_helper".into())));
    }
