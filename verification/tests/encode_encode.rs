#![allow(unused_imports)]
use ingot::types::error::{AsmError, AsmErrors};
use ingot::types::expr::{BinOp, Expr, RelocModifier, UnaryOp};
use ingot::types::instruction::{Instruction, Mnemonic};
use ingot::types::operand::{Condition, ExtendOp, MemoryOperand, Operand, ShiftOp};
use ingot::types::register::{FpReg, FpRegWidth, GpReg, RegWidth, Register, SpecialReg, VecArrangement, VecReg};
use ingot::types::reloc::{PendingRelocation, RelocKind};
use ingot::types::span::Span;
use ingot::types::directive::{BuildVersion, Directive, Platform, SectionSpec};
use ingot::types::statement::Statement;
use ingot::encode::encode::encode;
    fn make_inst(m: Mnemonic, ops: Vec<Operand>) -> Instruction {
        Instruction {
            mnemonic: m,
            operands: ops,
            span: Span::dummy(),
        }
    }

    fn gp(n: u8, w: RegWidth) -> Operand {
        Operand::Register(Register::Gp(GpReg::new(n, w)))
    }

    fn sp() -> Operand {
        Operand::Register(Register::Special(SpecialReg::Sp))
    }

    fn imm(v: i64) -> Operand {
        Operand::Immediate(Expr::Literal(v))
    }

    fn label(s: &str) -> Operand {
        Operand::Label(s.into())
    }

    // ─── System ───
    #[test]
    fn encode_nop() {
        let enc = encode(&make_inst(Mnemonic::Nop, vec![])).unwrap();
        assert_eq!(enc.bits, 0xD503_201F);
    }

    // ─── Branch ───
    #[test]
    fn encode_ret_default() {
        let enc = encode(&make_inst(Mnemonic::Ret, vec![])).unwrap();
        assert_eq!(enc.bits, 0xD65F_03C0);
    }

    #[test]
    fn b_label() {
        let enc = encode(&make_inst(Mnemonic::B, vec![label("target")])).unwrap();
        assert!(enc.relocation.is_some());
    }

    #[test]
    fn encode_svc_0x80() {
        let enc = encode(&make_inst(Mnemonic::Svc, vec![imm(0x80)])).unwrap();
        assert_eq!(enc.bits, 0xD400_1001);
    }

    // ─── Data Processing Immediate ───
    #[test]
    fn encode_add_x0_x1_42() {
        let enc = encode(&make_inst(
            Mnemonic::Add,
            vec![gp(0, RegWidth::X64), gp(1, RegWidth::X64), imm(42)],
        ))
        .unwrap();
        assert_eq!(enc.bits, 0x9100_A820);
    }

    #[test]
    fn encode_movz_x0_42() {
        let enc = encode(&make_inst(
            Mnemonic::Movz,
            vec![gp(0, RegWidth::X64), imm(42)],
        ))
        .unwrap();
        assert_eq!(enc.bits, 0xD280_0540);
    }

    // ─── Data Processing Register ───
    #[test]
    fn encode_add_x0_x1_x2() {
        let enc = encode(&make_inst(
            Mnemonic::Add,
            vec![
                gp(0, RegWidth::X64),
                gp(1, RegWidth::X64),
                gp(2, RegWidth::X64),
            ],
        ))
        .unwrap();
        assert_eq!(enc.bits, 0x8B02_0020);
    }

    #[test]
    fn encode_add_x0_x1_x2_lsl3() {
        let enc = encode(&make_inst(
            Mnemonic::Add,
            vec![
                gp(0, RegWidth::X64),
                gp(1, RegWidth::X64),
                gp(2, RegWidth::X64),
                Operand::Shift {
                    op: ShiftOp::Lsl,
                    amount: Expr::Literal(3),
                },
            ],
        ))
        .unwrap();
        assert_eq!(enc.bits, 0x8B02_0C20);
    }

    // ─── Aliases ───
    #[test]
    fn cmp_x0_42() {
        // cmp x0, #42 → subs xzr, x0, #42 → 0xF100A81F
        let enc = encode(&make_inst(
            Mnemonic::Cmp,
            vec![gp(0, RegWidth::X64), imm(42)],
        ))
        .unwrap();
        assert_eq!(enc.bits, 0xF100_A81F);
    }

    #[test]
    fn mov_x0_x1() {
        // mov x0, x1 → orr x0, xzr, x1 → 0xAA0103E0
        let enc = encode(&make_inst(
            Mnemonic::Mov,
            vec![gp(0, RegWidth::X64), gp(1, RegWidth::X64)],
        ))
        .unwrap();
        assert_eq!(enc.bits, 0xAA01_03E0);
    }

    #[test]
    fn mov_sp_x0() {
        // mov sp, x0 → add sp, x0, #0 → 0x910003FF
        let enc = encode(&make_inst(Mnemonic::Mov, vec![sp(), gp(0, RegWidth::X64)])).unwrap();
        assert_eq!(enc.bits, 0x9100_001F);
    }

    #[test]
    fn mov_x0_minus1() {
        // mov x0, #-1 → movn x0, #0 → 0x92800000
        let enc = encode(&make_inst(
            Mnemonic::Mov,
            vec![gp(0, RegWidth::X64), imm(-1)],
        ))
        .unwrap();
        assert_eq!(enc.bits, 0x9280_0000);
    }

    #[test]
    fn tst_x0_0xff() {
        // tst x0, #0xff → ands xzr, x0, #0xff
        let enc = encode(&make_inst(
            Mnemonic::Tst,
            vec![gp(0, RegWidth::X64), imm(0xFF)],
        ))
        .unwrap();
        // sf=1 opc=11 100100 N=1 immr=0 imms=000111 Rn=0 Rd=31
        assert_eq!(enc.bits, 0xF240_1C1F);
    }

    // ─── Load/Store ───
    #[test]
    fn encode_ldr_x0_x1_8() {
        let enc = encode(&make_inst(
            Mnemonic::Ldr,
            vec![
                gp(0, RegWidth::X64),
                Operand::Memory(MemoryOperand::BaseOffset {
                    reg: Register::Gp(GpReg::new(1, RegWidth::X64)),
                    offset: Expr::Literal(8),
                }),
            ],
        ))
        .unwrap();
        assert_eq!(enc.bits, 0xF940_0420);
    }

    #[test]
    fn encode_stp_x29_x30_sp_pre_neg16() {
        let enc = encode(&make_inst(
            Mnemonic::Stp,
            vec![
                gp(29, RegWidth::X64),
                gp(30, RegWidth::X64),
                Operand::Memory(MemoryOperand::PreIndex {
                    reg: Register::Special(SpecialReg::Sp),
                    offset: Expr::Literal(-16),
                }),
            ],
        ))
        .unwrap();
        assert_eq!(enc.bits, 0xA9BF_7BFD);
    }

    #[test]
    fn bcond_eq() {
        let enc = encode(&make_inst(
            Mnemonic::BCond,
            vec![Operand::Condition(Condition::Eq), label("target")],
        ))
        .unwrap();
        assert_eq!(enc.bits & 0xFF00_000F, 0x5400_0000);
        assert!(enc.relocation.is_some());
    }
