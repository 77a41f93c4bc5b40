#![allow(unused_imports)]
use ingot::types::error::{AsmError, AsmErrors};
use ingot::types::expr::{BinOp, Expr, RelocModifier, UnaryOp};
use ingot::types::instruction::{Instruction, Mnemonic};
use ingot::types::operand::{Condition, ExtendOp, MemoryOperand, Operand, ShiftOp};
use ingot::types::register::{FpReg, FpRegWidth, GpReg, RegWidth, Register, SpecialReg, VecArrangement, VecReg};
use ingot::types::reloc::{PendingRelocation, RelocKind};
use ingot::types::span::Span;
use ingot::types::directive::{BuildVersion, Directive, Platform, SectionSpec};
use ingot::types::statement::Statement;
use ingot::encode::ldst::{encode_ldp_stp, encode_ldst};
    fn gp_reg(n: u8, w: RegWidth) -> Register {
        Register::Gp(GpReg::new(n, w))
    }

    fn gp(n: u8, w: RegWidth) -> Operand {
        Operand::Register(gp_reg(n, w))
    }

    fn sp() -> Register {
        Register::Special(SpecialReg::Sp)
    }

    fn span() -> Span {
        Span::dummy()
    }

    #[test]
    fn ldst_ldr_x0_x1_8() {
        // ldr x0, [x1, #8] → 0xF9400420
        let ops = vec![
            gp(0, RegWidth::X64),
            Operand::Memory(MemoryOperand::BaseOffset {
                reg: gp_reg(1, RegWidth::X64),
                offset: Expr::Literal(8),
            }),
        ];
        let enc = encode_ldst(Mnemonic::Ldr, &ops, span()).unwrap();
        assert_eq!(enc.bits, 0xF940_0420);
    }

    #[test]
    fn str_x0_x1_0() {
        // str x0, [x1] → 0xF9000020
        let ops = vec![
            gp(0, RegWidth::X64),
            Operand::Memory(MemoryOperand::Base {
                reg: gp_reg(1, RegWidth::X64),
            }),
        ];
        let enc = encode_ldst(Mnemonic::Str, &ops, span()).unwrap();
        assert_eq!(enc.bits, 0xF900_0020);
    }

    #[test]
    fn ldr_w0_x1_4() {
        // ldr w0, [x1, #4] → 0xB9400420
        let ops = vec![
            gp(0, RegWidth::W32),
            Operand::Memory(MemoryOperand::BaseOffset {
                reg: gp_reg(1, RegWidth::X64),
                offset: Expr::Literal(4),
            }),
        ];
        let enc = encode_ldst(Mnemonic::Ldr, &ops, span()).unwrap();
        assert_eq!(enc.bits, 0xB940_0420);
    }

    #[test]
    fn strb_w0_x1_0() {
        // strb w0, [x1] → 0x39000020
        let ops = vec![
            gp(0, RegWidth::W32),
            Operand::Memory(MemoryOperand::Base {
                reg: gp_reg(1, RegWidth::X64),
            }),
        ];
        let enc = encode_ldst(Mnemonic::Strb, &ops, span()).unwrap();
        assert_eq!(enc.bits, 0x3900_0020);
    }

    #[test]
    fn ldr_x0_x1_pre_index() {
        // ldr x0, [x1, #16]! → 0xF8410C20
        let ops = vec![
            gp(0, RegWidth::X64),
            Operand::Memory(MemoryOperand::PreIndex {
                reg: gp_reg(1, RegWidth::X64),
                offset: Expr::Literal(16),
            }),
        ];
        let enc = encode_ldst(Mnemonic::Ldr, &ops, span()).unwrap();
        assert_eq!(enc.bits, 0xF841_0C20);
    }

    #[test]
    fn str_x0_x1_post_index() {
        // str x0, [x1], #-16 → 0xF81F0420
        let ops = vec![
            gp(0, RegWidth::X64),
            Operand::Memory(MemoryOperand::PostIndex {
                reg: gp_reg(1, RegWidth::X64),
                offset: Expr::Literal(-16),
            }),
        ];
        let enc = encode_ldst(Mnemonic::Str, &ops, span()).unwrap();
        assert_eq!(enc.bits, 0xF81F_0420);
    }

    #[test]
    fn ldst_stp_x29_x30_sp_pre_neg16() {
        // stp x29, x30, [sp, #-16]! → 0xA9BF7BFD
        let ops = vec![
            gp(29, RegWidth::X64),
            gp(30, RegWidth::X64),
            Operand::Memory(MemoryOperand::PreIndex {
                reg: sp(),
                offset: Expr::Literal(-16),
            }),
        ];
        let enc = encode_ldp_stp(Mnemonic::Stp, &ops, span()).unwrap();
        assert_eq!(enc.bits, 0xA9BF_7BFD);
    }

    #[test]
    fn ldp_x29_x30_sp_16() {
        // ldp x29, x30, [sp], #16 → 0xA8C17BFD
        let ops = vec![
            gp(29, RegWidth::X64),
            gp(30, RegWidth::X64),
            Operand::Memory(MemoryOperand::PostIndex {
                reg: sp(),
                offset: Expr::Literal(16),
            }),
        ];
        let enc = encode_ldp_stp(Mnemonic::Ldp, &ops, span()).unwrap();
        assert_eq!(enc.bits, 0xA8C1_7BFD);
    }

    #[test]
    fn ldr_x0_label_reloc() {
        let ops = vec![gp(0, RegWidth::X64), Operand::Label("data".into())];
        let enc = encode_ldst(Mnemonic::Ldr, &ops, span()).unwrap();
        let reloc = enc.relocation.unwrap();
        assert_eq!(reloc.kind, RelocKind::Pcrel19);
        assert_eq!(reloc.symbol, "data");
    }

    #[test]
    fn ldr_x0_lo12_reloc() {
        let ops = vec![
            gp(0, RegWidth::X64),
            Operand::Memory(MemoryOperand::BaseOffset {
                reg: gp_reg(1, RegWidth::X64),
                offset: Expr::Relocated {
                    modifier: RelocModifier::Lo12,
                    symbol: "sym".into(),
                    addend: 0,
                },
            }),
        ];
        let enc = encode_ldst(Mnemonic::Ldr, &ops, span()).unwrap();
        let reloc = enc.relocation.unwrap();
        assert_eq!(reloc.kind, RelocKind::PageOff12);
    }
