#![allow(unused_imports)]
use ingot::lexer::Lexer;
use ingot::lexer::token::Token;
use ingot::types::error::AsmError;
use ingot::types::operand::{ExtendOp, ShiftOp};
use ingot::types::register::{FpReg, FpRegWidth, GpReg, RegWidth, Register, SpecialReg};
use ingot::types::span::Span;

/// Every token or error the lexer produces, in order.
fn lex_results(source: &str) -> Vec<Result<(Token, Span), AsmError>> {
    let mut lexer = Lexer::new(source);
    let mut out = Vec::new();
    while let Some(r) = lexer.next() {
        out.push(r);
    }
    out
}

    /// Helper: lex source and return all Ok tokens (ignoring spans).
    fn lex_tokens(source: &str) -> Vec<Token> {
        lex_results(source).into_iter().filter_map(|r| r.ok()).map(|(t, _)| t).collect()
    }

    /// Helper: lex source and return tokens with spans.
    fn lex_with_spans(source: &str) -> Vec<(Token, Span)> {
        lex_results(source).into_iter().filter_map(|r| r.ok()).collect()
    }

    // ── GP register tests ───────────────────────────────────────

    #[test]
    fn gp_x_registers() {
        assert_eq!(
            lex_tokens("x0"),
            vec![Token::GpReg(GpReg::new(0, RegWidth::X64))]
        );
        assert_eq!(
            lex_tokens("x30"),
            vec![Token::GpReg(GpReg::new(30, RegWidth::X64))]
        );
        assert_eq!(
            lex_tokens("X15"),
            vec![Token::GpReg(GpReg::new(15, RegWidth::X64))]
        );
    }

    #[test]
    fn gp_w_registers() {
        assert_eq!(
            lex_tokens("w0"),
            vec![Token::WReg(GpReg::new(0, RegWidth::W32))]
        );
        assert_eq!(
            lex_tokens("w30"),
            vec![Token::WReg(GpReg::new(30, RegWidth::W32))]
        );
        assert_eq!(
            lex_tokens("W7"),
            vec![Token::WReg(GpReg::new(7, RegWidth::W32))]
        );
    }

    #[test]
    fn x31_is_ident() {
        // x31 is not a valid GP register — should fall through to Ident
        assert_eq!(lex_tokens("x31"), vec![Token::Ident]);
    }

    #[test]
    fn register_prefix_in_longer_ident() {
        // x0abc should be Ident because longest-match wins
        assert_eq!(lex_tokens("x0abc"), vec![Token::Ident]);
    }

    // ── Special register tests ──────────────────────────────────

    #[test]
    fn special_registers() {
        assert_eq!(lex_tokens("sp"), vec![Token::Sp]);
        assert_eq!(lex_tokens("SP"), vec![Token::Sp]);
        assert_eq!(lex_tokens("wsp"), vec![Token::Wsp]);
        assert_eq!(lex_tokens("WSP"), vec![Token::Wsp]);
        assert_eq!(lex_tokens("xzr"), vec![Token::Xzr]);
        assert_eq!(lex_tokens("XZR"), vec![Token::Xzr]);
        assert_eq!(lex_tokens("wzr"), vec![Token::Wzr]);
        assert_eq!(lex_tokens("WZR"), vec![Token::Wzr]);
    }

    // ── FP register tests ───────────────────────────────────────

    #[test]
    fn fp_registers() {
        assert_eq!(
            lex_tokens("b0"),
            vec![Token::FpRegB(FpReg::new(0, FpRegWidth::B))]
        );
        assert_eq!(
            lex_tokens("h15"),
            vec![Token::FpRegH(FpReg::new(15, FpRegWidth::H))]
        );
        assert_eq!(
            lex_tokens("s31"),
            vec![Token::FpRegS(FpReg::new(31, FpRegWidth::S))]
        );
        assert_eq!(
            lex_tokens("d0"),
            vec![Token::FpRegD(FpReg::new(0, FpRegWidth::D))]
        );
        assert_eq!(
            lex_tokens("Q31"),
            vec![Token::FpRegQ(FpReg::new(31, FpRegWidth::Q))]
        );
    }

    #[test]
    fn fp_boundary_b32_invalid() {
        // b32 is not valid — should be Ident
        assert_eq!(lex_tokens("b32"), vec![Token::Ident]);
    }

    // ── Vector register tests ───────────────────────────────────

    #[test]
    fn vec_registers() {
        assert_eq!(lex_tokens("v0"), vec![Token::VecReg(0)]);
        assert_eq!(lex_tokens("v31"), vec![Token::VecReg(31)]);
        assert_eq!(lex_tokens("V16"), vec![Token::VecReg(16)]);
    }

    #[test]
    fn vec_v32_invalid() {
        assert_eq!(lex_tokens("v32"), vec![Token::Ident]);
    }

    // ── Integer tests ───────────────────────────────────────────

    #[test]
    fn decimal_integers() {
        assert_eq!(lex_tokens("0"), vec![Token::Integer(0)]);
        assert_eq!(lex_tokens("42"), vec![Token::Integer(42)]);
        assert_eq!(lex_tokens("1_000_000"), vec![Token::Integer(1_000_000)]);
    }

    #[test]
    fn hex_integers() {
        assert_eq!(lex_tokens("0xff"), vec![Token::Integer(255)]);
        assert_eq!(lex_tokens("0xFF"), vec![Token::Integer(255)]);
        assert_eq!(lex_tokens("0x1_0000"), vec![Token::Integer(0x1_0000)]);
    }

    #[test]
    fn octal_integers() {
        assert_eq!(lex_tokens("0o77"), vec![Token::Integer(63)]);
        assert_eq!(lex_tokens("0o1_0"), vec![Token::Integer(8)]);
    }

    #[test]
    fn binary_integers() {
        assert_eq!(lex_tokens("0b1010"), vec![Token::Integer(10)]);
        assert_eq!(lex_tokens("0b1111_0000"), vec![Token::Integer(240)]);
    }

    // ── String literal tests ────────────────────────────────────

    #[test]
    fn string_basic() {
        assert_eq!(
            lex_tokens(r#""hello""#),
            vec![Token::StringLiteral("hello".into())]
        );
    }

    #[test]
    fn string_escapes() {
        assert_eq!(
            lex_tokens(r#""a\nb\t""#),
            vec![Token::StringLiteral("a\nb\t".into())]
        );
        assert_eq!(
            lex_tokens(r#""\\\"""#),
            vec![Token::StringLiteral("\\\"".into())]
        );
        assert_eq!(
            lex_tokens(r#""\0""#),
            vec![Token::StringLiteral("\0".into())]
        );
    }

    // ── Comment tests ───────────────────────────────────────────

    #[test]
    fn line_comment_double_slash() {
        assert_eq!(
            lex_tokens("add // comment\nx0"),
            vec![
                Token::Ident,
                Token::Newline,
                Token::GpReg(GpReg::new(0, RegWidth::X64))
            ]
        );
    }

    #[test]
    fn line_comment_semicolon() {
        assert_eq!(
            lex_tokens("add ; comment\nx0"),
            vec![
                Token::Ident,
                Token::Newline,
                Token::GpReg(GpReg::new(0, RegWidth::X64))
            ]
        );
    }

    #[test]
    fn block_comment() {
        assert_eq!(
            lex_tokens("add /* block comment */ x0"),
            vec![Token::Ident, Token::GpReg(GpReg::new(0, RegWidth::X64))]
        );
    }

    #[test]
    fn block_comment_multiline() {
        assert_eq!(
            lex_tokens("add /* multi\nline */ x0"),
            vec![Token::Ident, Token::GpReg(GpReg::new(0, RegWidth::X64))]
        );
    }

    #[test]
    fn newline_preserved_after_comment() {
        let tokens = lex_tokens("add // comment\nmov");
        assert!(tokens.contains(&Token::Newline));
    }

    // ── Shift/extend keyword tests ──────────────────────────────

    #[test]
    fn shift_keywords() {
        assert_eq!(lex_tokens("lsl"), vec![Token::Lsl]);
        assert_eq!(lex_tokens("LSR"), vec![Token::Lsr]);
        assert_eq!(lex_tokens("Asr"), vec![Token::Asr]);
        assert_eq!(lex_tokens("ROR"), vec![Token::Ror]);
    }

    #[test]
    fn extend_keywords() {
        assert_eq!(lex_tokens("uxtb"), vec![Token::Uxtb]);
        assert_eq!(lex_tokens("SXTX"), vec![Token::Sxtx]);
    }

    // ── Directive tests ─────────────────────────────────────────

    #[test]
    fn directives() {
        assert_eq!(lex_tokens(".global"), vec![Token::Directive]);
        assert_eq!(lex_tokens(".text"), vec![Token::Directive]);
        assert_eq!(lex_tokens(".p2align"), vec![Token::Directive]);
    }

    // ── Punctuation tests ───────────────────────────────────────

    #[test]
    fn punctuation() {
        let tokens = lex_tokens(", [ ] ! : # . ( ) + - * / ~ =");
        assert_eq!(
            tokens,
            vec![
                Token::Comma,
                Token::LBracket,
                Token::RBracket,
                Token::Exclaim,
                Token::Colon,
                Token::Hash,
                Token::Dot,
                Token::LParen,
                Token::RParen,
                Token::Plus,
                Token::Minus,
                Token::Star,
                Token::Slash,
                Token::Tilde,
                Token::Eq,
            ]
        );
    }

    // ── Full instruction line tests ─────────────────────────────

    #[test]
    fn add_instruction() {
        let tokens = lex_tokens("add x0, x1, #42");
        assert_eq!(
            tokens,
            vec![
                Token::Ident, // add
                Token::GpReg(GpReg::new(0, RegWidth::X64)),
                Token::Comma,
                Token::GpReg(GpReg::new(1, RegWidth::X64)),
                Token::Comma,
                Token::Hash,
                Token::Integer(42),
            ]
        );
    }

    #[test]
    fn label_line() {
        let tokens = lex_tokens("_main:");
        assert_eq!(tokens, vec![Token::Ident, Token::Colon]);
    }

    #[test]
    fn ldr_memory_operand() {
        let tokens = lex_tokens("ldr x0, [x1, #8]");
        assert_eq!(
            tokens,
            vec![
                Token::Ident, // ldr
                Token::GpReg(GpReg::new(0, RegWidth::X64)),
                Token::Comma,
                Token::LBracket,
                Token::GpReg(GpReg::new(1, RegWidth::X64)),
                Token::Comma,
                Token::Hash,
                Token::Integer(8),
                Token::RBracket,
            ]
        );
    }

    #[test]
    fn token_global_directive() {
        let tokens = lex_tokens(".global _main");
        assert_eq!(tokens, vec![Token::Directive, Token::Ident]);
    }

    #[test]
    fn negative_immediate() {
        let tokens = lex_tokens("#-42");
        assert_eq!(tokens, vec![Token::Hash, Token::Minus, Token::Integer(42)]);
    }

    // ── Span accuracy tests ─────────────────────────────────────

    #[test]
    fn span_positions() {
        let items = lex_with_spans("add x0, x1");
        assert_eq!(items.len(), 4);
        // "add" at 0..3
        assert_eq!(items[0], (Token::Ident, Span::new(0, 3)));
        // "x0" at 4..6
        assert_eq!(
            items[1],
            (Token::GpReg(GpReg::new(0, RegWidth::X64)), Span::new(4, 2))
        );
        // "," at 6..7
        assert_eq!(items[2], (Token::Comma, Span::new(6, 1)));
        // "x1" at 8..10
        assert_eq!(
            items[3],
            (Token::GpReg(GpReg::new(1, RegWidth::X64)), Span::new(8, 2))
        );
    }

    // ── Error tests ─────────────────────────────────────────────

    #[test]
    fn unrecognized_char_produces_error() {
        let results = lex_results("@");
        assert_eq!(results.len(), 1);
        assert!(results[0].is_err());
    }

    // ── Helper method tests ─────────────────────────────────────

    #[test]
    fn as_register_gp() {
        let tok = Token::GpReg(GpReg::new(5, RegWidth::X64));
        assert_eq!(
            tok.as_register(),
            Some(Register::Gp(GpReg::new(5, RegWidth::X64)))
        );
    }

    #[test]
    fn as_register_w() {
        let tok = Token::WReg(GpReg::new(10, RegWidth::W32));
        assert_eq!(
            tok.as_register(),
            Some(Register::Gp(GpReg::new(10, RegWidth::W32)))
        );
    }

    #[test]
    fn as_register_special() {
        assert_eq!(
            Token::Sp.as_register(),
            Some(Register::Special(SpecialReg::Sp))
        );
        assert_eq!(
            Token::Xzr.as_register(),
            Some(Register::Special(SpecialReg::Xzr))
        );
    }

    #[test]
    fn as_register_fp() {
        let tok = Token::FpRegD(FpReg::new(7, FpRegWidth::D));
        assert_eq!(
            tok.as_register(),
            Some(Register::Fp(FpReg::new(7, FpRegWidth::D)))
        );
    }

    #[test]
    fn as_register_non_register() {
        assert_eq!(Token::Ident.as_register(), None);
        assert_eq!(Token::Integer(42).as_register(), None);
    }

    #[test]
    fn as_shift_op_test() {
        assert_eq!(Token::Lsl.as_shift_op(), Some(ShiftOp::Lsl));
        assert_eq!(Token::Lsr.as_shift_op(), Some(ShiftOp::Lsr));
        assert_eq!(Token::Asr.as_shift_op(), Some(ShiftOp::Asr));
        assert_eq!(Token::Ror.as_shift_op(), Some(ShiftOp::Ror));
        assert_eq!(Token::Ident.as_shift_op(), None);
    }

    #[test]
    fn as_extend_op_test() {
        assert_eq!(Token::Uxtb.as_extend_op(), Some(ExtendOp::Uxtb));
        assert_eq!(Token::Sxtx.as_extend_op(), Some(ExtendOp::Sxtx));
        assert_eq!(Token::Ident.as_extend_op(), None);
    }

    #[test]
    fn is_newline_test() {
        assert!(Token::Newline.is_newline());
        assert!(!Token::Ident.is_newline());
    }

    #[test]
    fn unterminated_block_comment_error() {
        let errors: Vec<AsmError> = lex_results("/* no end").into_iter().filter_map(|r| r.err()).collect();
        assert_eq!(errors.len(), 1);
        match &errors[0] {
            AsmError::LexError { detail, .. } => {
                assert_eq!(detail, "unterminated block comment");
            }
            other => panic!("expected LexError, got {other:?}"),
        }
    }
