#![allow(unused_imports)]
use ingot::types::error::{AsmError, AsmErrors};
use ingot::types::expr::{BinOp, Expr, RelocModifier, UnaryOp};
use ingot::types::instruction::{Instruction, Mnemonic};
use ingot::types::operand::{Condition, ExtendOp, MemoryOperand, Operand, ShiftOp};
use ingot::types::register::{FpReg, FpRegWidth, GpReg, RegWidth, Register, SpecialReg, VecArrangement, VecReg};
use ingot::types::reloc::{PendingRelocation, RelocKind};
use ingot::types::span::Span;
use ingot::types::directive::{BuildVersion, Directive, Platform, SectionSpec};
use ingot::types::statement::Statement;
use ingot::lexer::Lexer;
use ingot::lexer::token::Token;
use ingot::parser::parse;
use ingot::parser::state::Parser;

    fn parse_expr(source: &str) -> Option<Expr> {
        let (tokens, errors) = Lexer::collect_all(source);
        let mut parser = Parser::new(source, tokens, errors);
        parser.parse_expr()
    }

    #[test]
    fn literal() {
        assert_eq!(parse_expr("42"), Some(Expr::Literal(42)));
    }

    #[test]
    fn hex_literal() {
        assert_eq!(parse_expr("0xff"), Some(Expr::Literal(255)));
    }

    #[test]
    fn symbol() {
        assert_eq!(parse_expr("foo"), Some(Expr::Symbol("foo".into())));
    }

    #[test]
    fn current_address() {
        assert_eq!(parse_expr("."), Some(Expr::CurrentAddress));
    }

    #[test]
    fn unary_neg() {
        assert_eq!(
            parse_expr("-5"),
            Some(Expr::Unary {
                op: UnaryOp::Neg,
                expr: Box::new(Expr::Literal(5)),
            })
        );
    }

    #[test]
    fn unary_not() {
        assert_eq!(
            parse_expr("~0xff"),
            Some(Expr::Unary {
                op: UnaryOp::Not,
                expr: Box::new(Expr::Literal(255)),
            })
        );
    }

    #[test]
    fn binary_add() {
        assert_eq!(
            parse_expr("1 + 2"),
            Some(Expr::Binary {
                op: BinOp::Add,
                lhs: Box::new(Expr::Literal(1)),
                rhs: Box::new(Expr::Literal(2)),
            })
        );
    }

    #[test]
    fn precedence_mul_over_add() {
        // 1 + 2 * 3 => 1 + (2 * 3)
        let expr = parse_expr("1 + 2 * 3").unwrap();
        match expr {
            Expr::Binary {
                op: BinOp::Add,
                lhs,
                rhs,
            } => {
                assert_eq!(*lhs, Expr::Literal(1));
                match *rhs {
                    Expr::Binary {
                        op: BinOp::Mul,
                        lhs,
                        rhs,
                    } => {
                        assert_eq!(*lhs, Expr::Literal(2));
                        assert_eq!(*rhs, Expr::Literal(3));
                    }
                    other => panic!("expected Mul, got {other:?}"),
                }
            }
            other => panic!("expected Add, got {other:?}"),
        }
    }

    #[test]
    fn left_associative() {
        // 1 - 2 - 3 => (1 - 2) - 3
        let expr = parse_expr("1 - 2 - 3").unwrap();
        match expr {
            Expr::Binary {
                op: BinOp::Sub,
                lhs,
                rhs,
            } => {
                assert_eq!(*rhs, Expr::Literal(3));
                match *lhs {
                    Expr::Binary {
                        op: BinOp::Sub,
                        lhs,
                        rhs,
                    } => {
                        assert_eq!(*lhs, Expr::Literal(1));
                        assert_eq!(*rhs, Expr::Literal(2));
                    }
                    other => panic!("expected inner Sub, got {other:?}"),
                }
            }
            other => panic!("expected Sub, got {other:?}"),
        }
    }

    #[test]
    fn parenthesized() {
        // (1 + 2) * 3 => Mul(Add(1, 2), 3)
        let expr = parse_expr("(1 + 2) * 3").unwrap();
        assert_eq!(expr.as_literal(), Some(9));
    }

    #[test]
    fn reloc_lo12() {
        assert_eq!(
            parse_expr(":lo12:msg"),
            Some(Expr::Relocated {
                modifier: RelocModifier::Lo12,
                symbol: "msg".into(),
                addend: 0,
            })
        );
    }

    #[test]
    fn reloc_with_addend() {
        assert_eq!(
            parse_expr(":lo12:msg+4"),
            Some(Expr::Relocated {
                modifier: RelocModifier::Lo12,
                symbol: "msg".into(),
                addend: 4,
            })
        );
    }

    #[test]
    fn reloc_with_negative_addend() {
        assert_eq!(
            parse_expr(":lo12:msg-8"),
            Some(Expr::Relocated {
                modifier: RelocModifier::Lo12,
                symbol: "msg".into(),
                addend: -8,
            })
        );
    }

    #[test]
    fn symbol_plus_offset() {
        // foo + 8
        let expr = parse_expr("foo + 8").unwrap();
        match expr {
            Expr::Binary {
                op: BinOp::Add,
                lhs,
                rhs,
            } => {
                assert_eq!(*lhs, Expr::Symbol("foo".into()));
                assert_eq!(*rhs, Expr::Literal(8));
            }
            other => panic!("expected Binary Add, got {other:?}"),
        }
    }
