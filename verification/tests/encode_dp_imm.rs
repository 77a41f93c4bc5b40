#![allow(unused_imports)]
use ingot::types::error::{AsmError, AsmErrors};
use ingot::types::expr::{BinOp, Expr, RelocModifier, UnaryOp};
use ingot::types::instruction::{Instruction, Mnemonic};
use ingot::types::operand::{Condition, ExtendOp, MemoryOperand, Operand, ShiftOp};
use ingot::types::register::{FpReg, FpRegWidth, GpReg, RegWidth, Register, SpecialReg, VecArrangement, VecReg};
use ingot::types::reloc::{PendingRelocation, RelocKind};
use ingot::types::span::Span;
use ingot::types::directive::{BuildVersion, Directive, Platform, SectionSpec};
use ingot::types::statement::Statement;
use ingot::encode::dp_imm::{encode_add_sub_imm, encode_add_sub_imm_with_shift, encode_adr_adrp, encode_logical_imm, encode_mov_wide};
use ingot::encode::bitmask::encode_bitmask_imm;
    fn gp(n: u8, w: RegWidth) -> Register {
        Register::Gp(GpReg::new(n, w))
    }

    fn span() -> Span {
        Span::dummy()
    }

    #[test]
    fn dp_imm_add_x0_x1_42() {
        // add x0, x1, #42 → 0x9100A820
        let enc = encode_add_sub_imm(
            Mnemonic::Add,
            &gp(0, RegWidth::X64),
            &gp(1, RegWidth::X64),
            &Expr::Literal(42),
            span(),
        )
        .unwrap();
        assert_eq!(enc.bits, 0x9100_A820);
    }

    #[test]
    fn sub_w0_w1_1() {
        let enc = encode_add_sub_imm(
            Mnemonic::Sub,
            &gp(0, RegWidth::W32),
            &gp(1, RegWidth::W32),
            &Expr::Literal(1),
            span(),
        )
        .unwrap();
        assert_eq!(enc.bits, 0x5100_0420);
    }

    #[test]
    fn adds_x0_x1_0() {
        let enc = encode_add_sub_imm(
            Mnemonic::Adds,
            &gp(0, RegWidth::X64),
            &gp(1, RegWidth::X64),
            &Expr::Literal(0),
            span(),
        )
        .unwrap();
        assert_eq!(enc.bits, 0xB100_0020);
    }

    #[test]
    fn add_x0_x1_imm12_shifted() {
        // add x0, x1, #4096 → 0x91400420
        let enc = encode_add_sub_imm(
            Mnemonic::Add,
            &gp(0, RegWidth::X64),
            &gp(1, RegWidth::X64),
            &Expr::Literal(4096),
            span(),
        )
        .unwrap();
        assert_eq!(enc.bits, 0x9140_0420);
    }

    #[test]
    fn dp_imm_movz_x0_42() {
        let ops = vec![
            Operand::Register(gp(0, RegWidth::X64)),
            Operand::Immediate(Expr::Literal(42)),
        ];
        let enc = encode_mov_wide(Mnemonic::Movz, &ops, span()).unwrap();
        assert_eq!(enc.bits, 0xD280_0540);
    }

    #[test]
    fn movz_x0_42_lsl16() {
        let ops = vec![
            Operand::Register(gp(0, RegWidth::X64)),
            Operand::Immediate(Expr::Literal(42)),
            Operand::Shift {
                op: ShiftOp::Lsl,
                amount: Expr::Literal(16),
            },
        ];
        let enc = encode_mov_wide(Mnemonic::Movz, &ops, span()).unwrap();
        assert_eq!(enc.bits, 0xD2A0_0540);
    }

    #[test]
    fn movn_w0_0() {
        let ops = vec![
            Operand::Register(gp(0, RegWidth::W32)),
            Operand::Immediate(Expr::Literal(0)),
        ];
        let enc = encode_mov_wide(Mnemonic::Movn, &ops, span()).unwrap();
        assert_eq!(enc.bits, 0x1280_0000);
    }

    #[test]
    fn bitmask_all_ones_invalid() {
        assert!(encode_bitmask_imm(u64::MAX, true).is_none());
        assert!(encode_bitmask_imm(0xFFFF_FFFF, false).is_none());
    }

    #[test]
    fn bitmask_zero_invalid() {
        assert!(encode_bitmask_imm(0, true).is_none());
        assert!(encode_bitmask_imm(0, false).is_none());
    }

    #[test]
    fn bitmask_0xff() {
        let (n, immr, imms) = encode_bitmask_imm(0xFF, true).unwrap();
        assert_eq!(n, 1);
        assert_eq!(immr, 0);
        assert_eq!(imms, 7);
    }

    #[test]
    fn bitmask_0xff_in_32_bits() {
        assert_eq!(encode_bitmask_imm(0xFF, false), Some((0, 0, 7)));
    }

    #[test]
    fn bitmask_rotated_pair_wraps_around() {
        assert_eq!(encode_bitmask_imm(0x8000_0000_0000_0001, true), Some((1, 1, 1)));
    }

    #[test]
    fn bitmask_rotation_counts_right() {
        assert_eq!(encode_bitmask_imm(0xF0, true), Some((1, 60, 3)));
    }

    #[test]
    fn bitmask_replicated_16_bit_elements() {
        assert_eq!(encode_bitmask_imm(0x00FF_00FF, false), Some((0, 0, 0x27)));
        assert_eq!(encode_bitmask_imm(0x5555_5555_5555_5555, true), Some((0, 0, 0x3C)));
    }

    #[test]
    fn bitmask_0x5555_5555_5555_5555() {
        let result = encode_bitmask_imm(0x5555_5555_5555_5555, true);
        assert!(result.is_some());
    }

    #[test]
    fn and_x0_x1_0xff() {
        // and x0, x1, #0xff — N=1, immr=0, imms=7
        let enc = encode_logical_imm(
            Mnemonic::And,
            &gp(0, RegWidth::X64),
            &gp(1, RegWidth::X64),
            &Expr::Literal(0xFF),
            span(),
        )
        .unwrap();
        assert_eq!(enc.bits, 0x9240_1C20);
    }

    #[test]
    fn adrp_x0_label() {
        let ops = vec![
            Operand::Register(gp(0, RegWidth::X64)),
            Operand::Label("sym".into()),
        ];
        let enc = encode_adr_adrp(Mnemonic::Adrp, &ops, span()).unwrap();
        assert_eq!(enc.bits & 0x9F00_0000, 0x9000_0000);
        let reloc = enc.relocation.unwrap();
        assert_eq!(reloc.kind, RelocKind::Page21);
    }

    #[test]
    fn adr_x0_label() {
        let ops = vec![
            Operand::Register(gp(0, RegWidth::X64)),
            Operand::Label("sym".into()),
        ];
        let enc = encode_adr_adrp(Mnemonic::Adr, &ops, span()).unwrap();
        assert_eq!(enc.bits & 0x9F00_0000, 0x1000_0000);
        let reloc = enc.relocation.unwrap();
        assert_eq!(reloc.kind, RelocKind::Adr21);
    }

    #[test]
    fn add_imm_out_of_range() {
        let err = encode_add_sub_imm(
            Mnemonic::Add,
            &gp(0, RegWidth::X64),
            &gp(1, RegWidth::X64),
            &Expr::Literal(0x1_000_001),
            span(),
        )
        .unwrap_err();
        assert!(matches!(err, AsmError::ImmediateOutOfRange { .. }));
    }

    #[test]
    fn movz_wrong_operand_count() {
        let ops = vec![Operand::Register(gp(0, RegWidth::X64))];
        let err = encode_mov_wide(Mnemonic::Movz, &ops, span()).unwrap_err();
        assert!(matches!(
            err,
            AsmError::WrongOperandCount {
                expected: 2,
                got: 1,
                ..
            }
        ));
    }
