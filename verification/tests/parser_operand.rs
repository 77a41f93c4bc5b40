#![allow(unused_imports)]
use ingot::types::error::{AsmError, AsmErrors};
use ingot::types::expr::{BinOp, Expr, RelocModifier, UnaryOp};
use ingot::types::instruction::{Instruction, Mnemonic};
use ingot::types::operand::{Condition, ExtendOp, MemoryOperand, Operand, ShiftOp};
use ingot::types::register::{FpReg, FpRegWidth, GpReg, RegWidth, Register, SpecialReg, VecArrangement, VecReg};
use ingot::types::reloc::{PendingRelocation, RelocKind};
use ingot::types::span::Span;
use ingot::types::directive::{BuildVersion, Directive, Platform, SectionSpec};
use ingot::types::statement::Statement;
use ingot::lexer::Lexer;
use ingot::lexer::token::Token;
use ingot::parser::parse;
use ingot::parser::state::Parser;

    fn parse_operand(source: &str) -> (Option<Operand>, Vec<AsmError>) {
        let (tokens, errors) = Lexer::collect_all(source);
        let mut parser = Parser::new(source, tokens, errors);
        let result = parser.parse_operand();
        (result, parser.into_errors())
    }

    #[test]
    fn register_operand() {
        let (op, e) = parse_operand("x0");
        assert!(e.is_empty());
        assert_eq!(
            op,
            Some(Operand::Register(Register::Gp(GpReg::new(
                0,
                RegWidth::X64
            ))))
        );
    }

    #[test]
    fn immediate_with_hash() {
        let (op, e) = parse_operand("#42");
        assert!(e.is_empty());
        assert_eq!(op, Some(Operand::Immediate(Expr::Literal(42))));
    }

    #[test]
    fn immediate_negative() {
        let (op, e) = parse_operand("#-5");
        assert!(e.is_empty());
        assert_eq!(
            op,
            Some(Operand::Immediate(Expr::Unary {
                op: UnaryOp::Neg,
                expr: Box::new(Expr::Literal(5)),
            }))
        );
    }

    #[test]
    fn label_operand() {
        let (op, e) = parse_operand("_loop");
        assert!(e.is_empty());
        assert_eq!(op, Some(Operand::Label("_loop".into())));
    }

    #[test]
    fn shift_operand() {
        let (op, e) = parse_operand("lsl #2");
        assert!(e.is_empty());
        assert_eq!(
            op,
            Some(Operand::Shift {
                op: ShiftOp::Lsl,
                amount: Expr::Literal(2),
            })
        );
    }

    #[test]
    fn extend_operand() {
        let (op, e) = parse_operand("sxtw #3");
        assert!(e.is_empty());
        assert_eq!(
            op,
            Some(Operand::Extend {
                op: ExtendOp::Sxtw,
                amount: Some(Expr::Literal(3)),
            })
        );
    }

    #[test]
    fn extend_without_amount() {
        let (op, e) = parse_operand("uxtw");
        assert!(e.is_empty());
        assert_eq!(
            op,
            Some(Operand::Extend {
                op: ExtendOp::Uxtw,
                amount: None,
            })
        );
    }

    #[test]
    fn memory_base() {
        let (op, e) = parse_operand("[x0]");
        assert!(e.is_empty());
        assert_eq!(
            op,
            Some(Operand::Memory(MemoryOperand::Base {
                reg: Register::Gp(GpReg::new(0, RegWidth::X64)),
            }))
        );
    }

    #[test]
    fn memory_base_sp() {
        let (op, e) = parse_operand("[sp]");
        assert!(e.is_empty());
        assert_eq!(
            op,
            Some(Operand::Memory(MemoryOperand::Base {
                reg: Register::Special(SpecialReg::Sp),
            }))
        );
    }

    #[test]
    fn memory_base_offset() {
        let (op, e) = parse_operand("[x1, #8]");
        assert!(e.is_empty());
        assert_eq!(
            op,
            Some(Operand::Memory(MemoryOperand::BaseOffset {
                reg: Register::Gp(GpReg::new(1, RegWidth::X64)),
                offset: Expr::Literal(8),
            }))
        );
    }

    #[test]
    fn memory_pre_index() {
        let (op, e) = parse_operand("[sp, #-16]!");
        assert!(e.is_empty());
        assert_eq!(
            op,
            Some(Operand::Memory(MemoryOperand::PreIndex {
                reg: Register::Special(SpecialReg::Sp),
                offset: Expr::Unary {
                    op: UnaryOp::Neg,
                    expr: Box::new(Expr::Literal(16)),
                },
            }))
        );
    }

    #[test]
    fn memory_post_index() {
        let (op, e) = parse_operand("[sp], #16");
        assert!(e.is_empty());
        assert_eq!(
            op,
            Some(Operand::Memory(MemoryOperand::PostIndex {
                reg: Register::Special(SpecialReg::Sp),
                offset: Expr::Literal(16),
            }))
        );
    }

    #[test]
    fn memory_base_register() {
        let (op, e) = parse_operand("[x0, x1]");
        assert!(e.is_empty());
        assert_eq!(
            op,
            Some(Operand::Memory(MemoryOperand::BaseRegister {
                base: Register::Gp(GpReg::new(0, RegWidth::X64)),
                index: Register::Gp(GpReg::new(1, RegWidth::X64)),
                extend: None,
                amount: None,
            }))
        );
    }

    #[test]
    fn memory_base_register_with_extend() {
        let (op, e) = parse_operand("[x0, w1, sxtw #2]");
        assert!(e.is_empty());
        assert_eq!(
            op,
            Some(Operand::Memory(MemoryOperand::BaseRegister {
                base: Register::Gp(GpReg::new(0, RegWidth::X64)),
                index: Register::Gp(GpReg::new(1, RegWidth::W32)),
                extend: Some(ExtendOp::Sxtw),
                amount: Some(2),
            }))
        );
    }

    #[test]
    fn memory_base_register_lsl() {
        let (op, e) = parse_operand("[x0, x1, lsl #3]");
        assert!(e.is_empty());
        assert_eq!(
            op,
            Some(Operand::Memory(MemoryOperand::BaseRegister {
                base: Register::Gp(GpReg::new(0, RegWidth::X64)),
                index: Register::Gp(GpReg::new(1, RegWidth::X64)),
                extend: Some(ExtendOp::Uxtx),
                amount: Some(3),
            }))
        );
    }

    #[test]
    fn bare_integer_immediate() {
        let (op, e) = parse_operand("42");
        assert!(e.is_empty());
        assert_eq!(op, Some(Operand::Immediate(Expr::Literal(42))));
    }

    #[test]
    fn relocation_operand() {
        let (op, e) = parse_operand(":lo12:msg");
        assert!(e.is_empty());
        assert_eq!(
            op,
            Some(Operand::Immediate(Expr::Relocated {
                modifier: RelocModifier::Lo12,
                symbol: "msg".into(),
                addend: 0,
            }))
        );
    }
