#![allow(unused_imports)]
use ingot::types::error::{AsmError, AsmErrors};
use ingot::types::expr::{BinOp, Expr, RelocModifier, UnaryOp};
use ingot::types::instruction::{Instruction, Mnemonic};
use ingot::types::operand::{Condition, ExtendOp, MemoryOperand, Operand, ShiftOp};
use ingot::types::register::{FpReg, FpRegWidth, GpReg, RegWidth, Register, SpecialReg, VecArrangement, VecReg};
use ingot::types::reloc::{PendingRelocation, RelocKind};
use ingot::types::span::Span;
use ingot::types::directive::{BuildVersion, Directive, Platform, SectionSpec};
use ingot::types::statement::Statement;
use ingot::encode::dp_reg::{encode_add_sub_extended, encode_add_sub_shifted, encode_logical_shifted};
    fn gp(n: u8, w: RegWidth) -> Register {
        Register::Gp(GpReg::new(n, w))
    }

    fn span() -> Span {
        Span::dummy()
    }

    #[test]
    fn dp_reg_add_x0_x1_x2() {
        // add x0, x1, x2 → 0x8B020020
        let enc = encode_add_sub_shifted(
            Mnemonic::Add,
            &gp(0, RegWidth::X64),
            &gp(1, RegWidth::X64),
            &gp(2, RegWidth::X64),
            None,
            0,
            span(),
        )
        .unwrap();
        assert_eq!(enc.bits, 0x8B02_0020);
    }

    #[test]
    fn dp_reg_add_x0_x1_x2_lsl3() {
        // add x0, x1, x2, lsl #3 → 0x8B020C20
        let enc = encode_add_sub_shifted(
            Mnemonic::Add,
            &gp(0, RegWidth::X64),
            &gp(1, RegWidth::X64),
            &gp(2, RegWidth::X64),
            Some(ShiftOp::Lsl),
            3,
            span(),
        )
        .unwrap();
        assert_eq!(enc.bits, 0x8B02_0C20);
    }

    #[test]
    fn sub_w0_w1_w2() {
        // sub w0, w1, w2 → 0x4B020020
        let enc = encode_add_sub_shifted(
            Mnemonic::Sub,
            &gp(0, RegWidth::W32),
            &gp(1, RegWidth::W32),
            &gp(2, RegWidth::W32),
            None,
            0,
            span(),
        )
        .unwrap();
        assert_eq!(enc.bits, 0x4B02_0020);
    }

    #[test]
    fn orr_x0_x1_x2() {
        // orr x0, x1, x2 → 0xAA020020
        let enc = encode_logical_shifted(
            Mnemonic::Orr,
            &gp(0, RegWidth::X64),
            &gp(1, RegWidth::X64),
            &gp(2, RegWidth::X64),
            None,
            0,
            span(),
        )
        .unwrap();
        assert_eq!(enc.bits, 0xAA02_0020);
    }

    #[test]
    fn add_x0_x1_w2_sxtw() {
        // add x0, x1, w2, sxtw → 0x8B22C020
        let enc = encode_add_sub_extended(
            Mnemonic::Add,
            &gp(0, RegWidth::X64),
            &gp(1, RegWidth::X64),
            &gp(2, RegWidth::W32),
            ExtendOp::Sxtw,
            0,
            span(),
        )
        .unwrap();
        assert_eq!(enc.bits, 0x8B22_C020);
    }
