#![allow(unused_imports)]
use ingot::types::error::{AsmError, AsmErrors};
use ingot::types::expr::{BinOp, Expr, RelocModifier, UnaryOp};
use ingot::types::instruction::{Instruction, Mnemonic};
use ingot::types::operand::{Condition, ExtendOp, MemoryOperand, Operand, ShiftOp};
use ingot::types::register::{FpReg, FpRegWidth, GpReg, RegWidth, Register, SpecialReg, VecArrangement, VecReg};
use ingot::types::reloc::{PendingRelocation, RelocKind};
use ingot::types::span::Span;
use ingot::types::directive::{BuildVersion, Directive, Platform, SectionSpec};
use ingot::types::statement::Statement;
use ingot::lexer::Lexer;
use ingot::lexer::token::Token;
use ingot::parser::parse;
use ingot::parser::state::Parser;

    fn make_parser(source: &str) -> Parser<'_> {
        let (tokens, errors) = Lexer::collect_all(source);
        Parser::new(source, tokens, errors)
    }

    #[test]
    fn peek_and_advance() {
        let mut p = make_parser("add x0");
        assert_eq!(p.peek(), Some(&Token::Ident));
        let (tok, _) = p.advance().unwrap();
        assert_eq!(tok, Token::Ident);
        assert!(p.peek().unwrap().as_register().is_some());
    }

    #[test]
    fn peek2_works() {
        let p = make_parser("_main:");
        assert_eq!(p.peek(), Some(&Token::Ident));
        assert_eq!(p.peek2(), Some(&Token::Colon));
    }

    #[test]
    fn eat_matching() {
        let mut p = make_parser(",");
        assert!(p.eat(&Token::Comma).is_some());
        assert!(p.peek().is_none());
    }

    #[test]
    fn eat_non_matching() {
        let mut p = make_parser(",");
        assert!(p.eat(&Token::Hash).is_none());
        assert!(p.peek().is_some()); // not consumed
    }

    #[test]
    fn expect_failure_records_error() {
        let mut p = make_parser("x0");
        assert!(p.expect(&Token::Hash, "expected #").is_none());
        assert_eq!(p.errors().len(), 1);
    }

    #[test]
    fn at_eol_eof() {
        let p = make_parser("");
        assert!(p.at_eol());
    }

    #[test]
    fn at_eol_newline() {
        let p = make_parser("\n");
        assert!(p.at_eol());
    }

    #[test]
    fn skip_to_newline_advances() {
        let mut p = make_parser("add x0, x1\nmov");
        p.skip_to_newline();
        assert_eq!(p.peek(), Some(&Token::Newline));
    }

    #[test]
    fn slice_returns_source_text() {
        let src = "add x0";
        let p = make_parser(src);
        assert_eq!(p.slice(Span::new(0, 3)), "add");
    }
