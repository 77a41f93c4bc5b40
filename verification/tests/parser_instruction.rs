#![allow(unused_imports)]
use ingot::types::error::{AsmError, AsmErrors};
use ingot::types::expr::{BinOp, Expr, RelocModifier, UnaryOp};
use ingot::types::instruction::{Instruction, Mnemonic};
use ingot::types::operand::{Condition, ExtendOp, MemoryOperand, Operand, ShiftOp};
use ingot::types::register::{FpReg, FpRegWidth, GpReg, RegWidth, Register, SpecialReg, VecArrangement, VecReg};
use ingot::types::reloc::{PendingRelocation, RelocKind};
use ingot::types::span::Span;
use ingot::types::directive::{BuildVersion, Directive, Platform, SectionSpec};
use ingot::types::statement::Statement;
use ingot::lexer::Lexer;
use ingot::lexer::token::Token;
use ingot::parser::parse;
use ingot::parser::state::Parser;

    fn parse_instr(source: &str) -> (Option<Instruction>, Vec<AsmError>) {
        let (tokens, errors) = Lexer::collect_all(source);
        let mut parser = Parser::new(source, tokens, errors);
        // Consume the mnemonic ident
        let (_, mnem_span) = parser.advance().unwrap();
        let name = parser.slice(mnem_span).to_string();
        let result = parser.parse_instruction(&name, mnem_span);
        (result, parser.into_errors())
    }

    #[test]
    fn instruction_nop() {
        let (instr, e) = parse_instr("nop");
        assert!(e.is_empty());
        let instr = instr.unwrap();
        assert_eq!(instr.mnemonic, Mnemonic::Nop);
        assert!(instr.operands.is_empty());
    }

    #[test]
    fn mov_reg_imm() {
        let (instr, e) = parse_instr("mov x0, #0");
        assert!(e.is_empty());
        let instr = instr.unwrap();
        assert_eq!(instr.mnemonic, Mnemonic::Mov);
        assert_eq!(instr.operands.len(), 2);
        assert_eq!(
            instr.operands[0],
            Operand::Register(Register::Gp(GpReg::new(0, RegWidth::X64)))
        );
        assert_eq!(instr.operands[1], Operand::Immediate(Expr::Literal(0)));
    }

    #[test]
    fn add_three_regs() {
        let (instr, e) = parse_instr("add x0, x1, x2");
        assert!(e.is_empty());
        let instr = instr.unwrap();
        assert_eq!(instr.mnemonic, Mnemonic::Add);
        assert_eq!(instr.operands.len(), 3);
    }

    #[test]
    fn b_cond() {
        let (instr, e) = parse_instr("b.eq _loop");
        assert!(e.is_empty());
        let instr = instr.unwrap();
        assert_eq!(instr.mnemonic, Mnemonic::BCond);
        assert_eq!(instr.operands.len(), 2);
        assert_eq!(instr.operands[0], Operand::Condition(Condition::Eq));
        assert_eq!(instr.operands[1], Operand::Label("_loop".into()));
    }

    #[test]
    fn b_cond_ne() {
        let (instr, e) = parse_instr("b.ne target");
        assert!(e.is_empty());
        let instr = instr.unwrap();
        assert_eq!(instr.mnemonic, Mnemonic::BCond);
        assert_eq!(instr.operands[0], Operand::Condition(Condition::Ne));
    }

    #[test]
    fn b_cond_cs_alias() {
        let (instr, e) = parse_instr("b.cs label");
        assert!(e.is_empty());
        let instr = instr.unwrap();
        assert_eq!(instr.mnemonic, Mnemonic::BCond);
        assert_eq!(instr.operands[0], Operand::Condition(Condition::Hs));
    }

    #[test]
    fn plain_branch() {
        let (instr, e) = parse_instr("b _start");
        assert!(e.is_empty());
        let instr = instr.unwrap();
        assert_eq!(instr.mnemonic, Mnemonic::B);
        assert_eq!(instr.operands.len(), 1);
        assert_eq!(instr.operands[0], Operand::Label("_start".into()));
    }

    #[test]
    fn ret_no_operand() {
        let (instr, e) = parse_instr("ret");
        assert!(e.is_empty());
        let instr = instr.unwrap();
        assert_eq!(instr.mnemonic, Mnemonic::Ret);
        assert!(instr.operands.is_empty());
    }

    #[test]
    fn svc_immediate() {
        let (instr, e) = parse_instr("svc #0x80");
        assert!(e.is_empty());
        let instr = instr.unwrap();
        assert_eq!(instr.mnemonic, Mnemonic::Svc);
        assert_eq!(instr.operands[0], Operand::Immediate(Expr::Literal(0x80)));
    }

    #[test]
    fn ldr_memory() {
        let (instr, e) = parse_instr("ldr x0, [x1, #8]");
        assert!(e.is_empty());
        let instr = instr.unwrap();
        assert_eq!(instr.mnemonic, Mnemonic::Ldr);
        assert_eq!(instr.operands.len(), 2);
    }

    #[test]
    fn unknown_mnemonic_error() {
        let (instr, e) = parse_instr("foobar x0");
        assert!(instr.is_none());
        assert_eq!(e.len(), 1);
        match &e[0] {
            AsmError::UnknownMnemonic { mnemonic, .. } => {
                assert_eq!(mnemonic, "foobar");
            }
            other => panic!("expected UnknownMnemonic, got {other:?}"),
        }
    }

    #[test]
    fn add_with_shift() {
        let (instr, e) = parse_instr("add x0, x1, x2, lsl #3");
        assert!(e.is_empty());
        let instr = instr.unwrap();
        assert_eq!(instr.mnemonic, Mnemonic::Add);
        assert_eq!(instr.operands.len(), 4);
    }

    #[test]
    fn stp_pre_index() {
        let (instr, e) = parse_instr("stp x29, x30, [sp, #-16]!");
        assert!(e.is_empty());
        let instr = instr.unwrap();
        assert_eq!(instr.mnemonic, Mnemonic::Stp);
        assert_eq!(instr.operands.len(), 3);
    }

    #[test]
    fn mov_sp() {
        let (instr, e) = parse_instr("mov sp, x0");
        assert!(e.is_empty());
        let instr = instr.unwrap();
        assert_eq!(
            instr.operands[0],
            Operand::Register(Register::Special(SpecialReg::Sp))
        );
    }
