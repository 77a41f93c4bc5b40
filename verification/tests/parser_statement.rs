#![allow(unused_imports)]
use ingot::types::error::{AsmError, AsmErrors};
use ingot::types::expr::{BinOp, Expr, RelocModifier, UnaryOp};
use ingot::types::instruction::{Instruction, Mnemonic};
use ingot::types::operand::{Condition, ExtendOp, MemoryOperand, Operand, ShiftOp};
use ingot::types::register::{FpReg, FpRegWidth, GpReg, RegWidth, Register, SpecialReg, VecArrangement, VecReg};
use ingot::types::reloc::{PendingRelocation, RelocKind};
use ingot::types::span::Span;
use ingot::types::directive::{BuildVersion, Directive, Platform, SectionSpec};
use ingot::types::statement::Statement;
use ingot::lexer::Lexer;
use ingot::lexer::token::Token;
use ingot::parser::parse;
use ingot::parser::state::Parser;

    #[test]
    fn empty_source() {
        let (stmts, errors) = parse("");
        assert!(errors.is_empty());
        assert!(stmts.is_empty());
    }

    #[test]
    fn single_instruction() {
        let (stmts, errors) = parse("nop\n");
        assert!(errors.is_empty());
        assert_eq!(stmts.len(), 1);
        match &stmts[0] {
            Statement::Instruction(instr) => {
                assert_eq!(instr.mnemonic, Mnemonic::Nop);
            }
            other => panic!("expected Instruction, got {other:?}"),
        }
    }

    #[test]
    fn label_only() {
        let (stmts, errors) = parse("_main:\n");
        assert!(errors.is_empty());
        assert_eq!(stmts.len(), 1);
        match &stmts[0] {
            Statement::Label { name, .. } => assert_eq!(name, "_main"),
            other => panic!("expected Label, got {other:?}"),
        }
    }

    #[test]
    fn label_with_instruction() {
        let (stmts, errors) = parse("_main: nop\n");
        assert!(errors.is_empty());
        assert_eq!(stmts.len(), 2);
        assert!(matches!(&stmts[0], Statement::Label { name, .. } if name == "_main"));
        assert!(matches!(&stmts[1], Statement::Instruction(i) if i.mnemonic == Mnemonic::Nop));
    }

    #[test]
    fn directive_line() {
        let (stmts, errors) = parse(".global _main\n");
        assert!(errors.is_empty());
        assert_eq!(stmts.len(), 1);
        match &stmts[0] {
            Statement::Directive { directive, .. } => {
                assert_eq!(*directive, Directive::Global("_main".into()));
            }
            other => panic!("expected Directive, got {other:?}"),
        }
    }

    #[test]
    fn multiple_lines() {
        let src = ".global _main\n_main:\n    mov x0, #0\n    ret\n";
        let (stmts, errors) = parse(src);
        assert!(errors.is_empty());
        assert_eq!(stmts.len(), 4); // global, label, mov, ret
    }

    #[test]
    fn error_recovery_continues() {
        let src = "foobar x0\nmov x0, #1\n";
        let (stmts, errors) = parse(src);
        assert_eq!(errors.len(), 1); // foobar is unknown
        assert_eq!(stmts.len(), 1); // mov still parsed
    }

    #[test]
    fn blank_lines_ignored() {
        let src = "\n\nnop\n\n";
        let (stmts, errors) = parse(src);
        assert!(errors.is_empty());
        assert_eq!(stmts.len(), 1);
    }

    #[test]
    fn label_span_includes_colon() {
        let (stmts, _) = parse("foo:\n");
        match &stmts[0] {
            Statement::Label { span, .. } => {
                assert_eq!(*span, Span::new(0, 4)); // "foo:"
            }
            other => panic!("expected Label, got {other:?}"),
        }
    }

    #[test]
    fn full_program() {
        let src = ".global _main\n_main:\n    mov x0, #0\n    mov x16, #1\n    svc #0x80\n";
        let (stmts, errors) = parse(src);
        assert!(errors.is_empty());
        assert_eq!(stmts.len(), 5); // global, label, mov, mov, svc
    }

    #[test]
    fn instruction_with_memory_operand() {
        let (stmts, errors) = parse("ldr x0, [x1, #8]\n");
        assert!(errors.is_empty());
        assert_eq!(stmts.len(), 1);
        match &stmts[0] {
            Statement::Instruction(instr) => {
                assert_eq!(instr.mnemonic, Mnemonic::Ldr);
                assert_eq!(instr.operands.len(), 2);
            }
            other => panic!("expected Instruction, got {other:?}"),
        }
    }

    #[test]
    fn b_cond_statement() {
        let (stmts, errors) = parse("b.eq target\n");
        assert!(errors.is_empty());
        assert_eq!(stmts.len(), 1);
        match &stmts[0] {
            Statement::Instruction(instr) => {
                assert_eq!(instr.mnemonic, Mnemonic::BCond);
            }
            other => panic!("expected Instruction, got {other:?}"),
        }
    }
