#![allow(unused_imports)]
use ingot::types::error::{AsmError, AsmErrors};
use ingot::types::expr::{BinOp, Expr, RelocModifier, UnaryOp};
use ingot::types::instruction::{Instruction, Mnemonic};
use ingot::types::operand::{Condition, ExtendOp, MemoryOperand, Operand, ShiftOp};
use ingot::types::register::{FpReg, FpRegWidth, GpReg, RegWidth, Register, SpecialReg, VecArrangement, VecReg};
use ingot::types::reloc::{PendingRelocation, RelocKind};
use ingot::types::span::Span;
use ingot::types::directive::{BuildVersion, Directive, Platform, SectionSpec};
use ingot::types::statement::Statement;

    #[test]
    fn span_size() {
        assert_eq!(std::mem::size_of::<Span>(), 8);
    }

    #[test]
    fn merge_adjacent() {
        let a = Span::new(0, 3);
        let b = Span::new(3, 4);
        assert_eq!(a.merge(b), Span::new(0, 7));
    }

    #[test]
    fn merge_overlapping() {
        let a = Span::new(2, 5);
        let b = Span::new(4, 6);
        assert_eq!(a.merge(b), Span::new(2, 8));
    }

    #[test]
    fn merge_with_gap() {
        let a = Span::new(0, 2);
        let b = Span::new(10, 3);
        assert_eq!(a.merge(b), Span::new(0, 13));
    }

    #[test]
    fn dummy_is_zero() {
        let d = Span::dummy();
        assert_eq!(d.offset, 0);
        assert_eq!(d.len, 0);
    }


    #[test]
    fn gp_encoding() {
        let r = GpReg::new(5, RegWidth::X64);
        assert_eq!(r.encoding(), 5);
        assert_eq!(r.to_string(), "x5");
    }

    #[test]
    fn w_register_display() {
        let r = GpReg::new(30, RegWidth::W32);
        assert_eq!(r.to_string(), "w30");
    }

    #[test]
    fn special_encoding_is_31() {
        assert_eq!(SpecialReg::Sp.encoding(), 31);
        assert_eq!(SpecialReg::Wsp.encoding(), 31);
        assert_eq!(SpecialReg::Xzr.encoding(), 31);
        assert_eq!(SpecialReg::Wzr.encoding(), 31);
    }

    #[test]
    fn fp_display() {
        let r = FpReg::new(0, FpRegWidth::D);
        assert_eq!(r.to_string(), "d0");
    }

    #[test]
    fn vec_display() {
        let r = VecReg::new(3, VecArrangement::S4);
        assert_eq!(r.to_string(), "v3.4s");
    }

    #[test]
    fn unified_encoding() {
        let gp = Register::Gp(GpReg::new(10, RegWidth::X64));
        let sp = Register::Special(SpecialReg::Sp);
        assert_eq!(gp.encoding(), 10);
        assert_eq!(sp.encoding(), 31);
    }

    #[test]
    fn register_display() {
        assert_eq!(Register::Gp(GpReg::new(0, RegWidth::X64)).to_string(), "x0");
        assert_eq!(
            Register::Gp(GpReg::new(30, RegWidth::W32)).to_string(),
            "w30"
        );
        assert_eq!(Register::Special(SpecialReg::Sp).to_string(), "sp");
        assert_eq!(Register::Special(SpecialReg::Wsp).to_string(), "wsp");
        assert_eq!(Register::Special(SpecialReg::Xzr).to_string(), "xzr");
        assert_eq!(Register::Special(SpecialReg::Wzr).to_string(), "wzr");
        assert_eq!(Register::Fp(FpReg::new(7, FpRegWidth::S)).to_string(), "s7");
        assert_eq!(
            Register::Vec(VecReg::new(2, VecArrangement::D2)).to_string(),
            "v2.2d"
        );
    }

    #[test]
    fn shift_encodings() {
        assert_eq!(ShiftOp::Lsl.encoding(), 0b00);
        assert_eq!(ShiftOp::Lsr.encoding(), 0b01);
        assert_eq!(ShiftOp::Asr.encoding(), 0b10);
        assert_eq!(ShiftOp::Ror.encoding(), 0b11);
    }

    #[test]
    fn extend_encodings() {
        assert_eq!(ExtendOp::Uxtb.encoding(), 0b000);
        assert_eq!(ExtendOp::Sxtx.encoding(), 0b111);
    }

    #[test]
    fn condition_encodings() {
        assert_eq!(Condition::Eq.encoding(), 0b0000);
        assert_eq!(Condition::Ne.encoding(), 0b0001);
        assert_eq!(Condition::Nv.encoding(), 0b1111);
    }

    #[test]
    fn condition_from_str() {
        assert_eq!(Condition::parse("eq"), Some(Condition::Eq));
        assert_eq!(Condition::parse("EQ"), Some(Condition::Eq));
        assert_eq!(Condition::parse("cs"), Some(Condition::Hs));
        assert_eq!(Condition::parse("cc"), Some(Condition::Lo));
        assert_eq!(Condition::parse("hs"), Some(Condition::Hs));
        assert_eq!(Condition::parse("lo"), Some(Condition::Lo));
        assert_eq!(Condition::parse("bad"), None);
    }

    #[test]
    fn mnemonic_from_str_basic() {
        assert_eq!(Mnemonic::parse("add"), Some(Mnemonic::Add));
        assert_eq!(Mnemonic::parse("ADD"), Some(Mnemonic::Add));
        assert_eq!(Mnemonic::parse("Add"), Some(Mnemonic::Add));
    }

    #[test]
    fn mnemonic_from_str_all_variants() {
        let cases = [
            ("add", Mnemonic::Add),
            ("adds", Mnemonic::Adds),
            ("sub", Mnemonic::Sub),
            ("subs", Mnemonic::Subs),
            ("mov", Mnemonic::Mov),
            ("movz", Mnemonic::Movz),
            ("movn", Mnemonic::Movn),
            ("movk", Mnemonic::Movk),
            ("cmp", Mnemonic::Cmp),
            ("cmn", Mnemonic::Cmn),
            ("tst", Mnemonic::Tst),
            ("and", Mnemonic::And),
            ("ands", Mnemonic::Ands),
            ("orr", Mnemonic::Orr),
            ("eor", Mnemonic::Eor),
            ("b", Mnemonic::B),
            ("bl", Mnemonic::Bl),
            ("br", Mnemonic::Br),
            ("blr", Mnemonic::Blr),
            ("ret", Mnemonic::Ret),
            ("cbz", Mnemonic::Cbz),
            ("cbnz", Mnemonic::Cbnz),
            ("adr", Mnemonic::Adr),
            ("adrp", Mnemonic::Adrp),
            ("ldr", Mnemonic::Ldr),
            ("str", Mnemonic::Str),
            ("ldp", Mnemonic::Ldp),
            ("stp", Mnemonic::Stp),
            ("ldrb", Mnemonic::Ldrb),
            ("ldrh", Mnemonic::Ldrh),
            ("strb", Mnemonic::Strb),
            ("strh", Mnemonic::Strh),
            ("nop", Mnemonic::Nop),
            ("svc", Mnemonic::Svc),
            ("brk", Mnemonic::Brk),
        ];
        for (s, expected) in cases {
            assert_eq!(Mnemonic::parse(s), Some(expected), "failed for {s:?}");
        }
    }

    #[test]
    fn mnemonic_unknown() {
        assert_eq!(Mnemonic::parse("xyz"), None);
        assert_eq!(Mnemonic::parse(""), None);
    }

    #[test]
    fn literal_folds() {
        assert_eq!(Expr::Literal(42).as_literal(), Some(42));
    }

    #[test]
    fn symbol_does_not_fold() {
        assert_eq!(Expr::Symbol("foo".into()).as_literal(), None);
    }

    #[test]
    fn neg_folds() {
        let e = Expr::Unary {
            op: UnaryOp::Neg,
            expr: Box::new(Expr::Literal(5)),
        };
        assert_eq!(e.as_literal(), Some(-5));
    }

    #[test]
    fn binary_folds() {
        let e = Expr::Binary {
            op: BinOp::Add,
            lhs: Box::new(Expr::Literal(10)),
            rhs: Box::new(Expr::Literal(32)),
        };
        assert_eq!(e.as_literal(), Some(42));
    }

    #[test]
    fn div_by_zero_returns_none() {
        let e = Expr::Binary {
            op: BinOp::Div,
            lhs: Box::new(Expr::Literal(10)),
            rhs: Box::new(Expr::Literal(0)),
        };
        assert_eq!(e.as_literal(), None);
    }

    #[test]
    fn nested_binary_folds() {
        // (3 + 4) * 2 = 14
        let e = Expr::Binary {
            op: BinOp::Mul,
            lhs: Box::new(Expr::Binary {
                op: BinOp::Add,
                lhs: Box::new(Expr::Literal(3)),
                rhs: Box::new(Expr::Literal(4)),
            }),
            rhs: Box::new(Expr::Literal(2)),
        };
        assert_eq!(e.as_literal(), Some(14));
    }

    #[test]
    fn symbol_in_binary_blocks_folding() {
        let e = Expr::Binary {
            op: BinOp::Add,
            lhs: Box::new(Expr::Symbol("x".into())),
            rhs: Box::new(Expr::Literal(1)),
        };
        assert_eq!(e.as_literal(), None);
    }

    #[test]
    fn error_display() {
        let e = AsmError::UnknownMnemonic {
            mnemonic: "foobar".into(),
            span: Span::new(0, 6),
        };
        assert_eq!(e.to_string(), "unknown mnemonic `foobar`");
    }

    #[test]
    fn errors_collection() {
        let errs = AsmErrors::new(vec![
            AsmError::UnknownMnemonic {
                mnemonic: "bad1".into(),
                span: Span::new(0, 4),
            },
            AsmError::UndefinedSymbol {
                name: "missing".into(),
                span: Span::new(10, 7),
            },
        ]);
        assert!(!errs.is_empty());
        assert_eq!(errs.errors.len(), 2);
        assert_eq!(errs.to_string(), "assembly failed with 2 error(s)");
    }
