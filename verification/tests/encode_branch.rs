#![allow(unused_imports)]
use ingot::types::error::{AsmError, AsmErrors};
use ingot::types::expr::{BinOp, Expr, RelocModifier, UnaryOp};
use ingot::types::instruction::{Instruction, Mnemonic};
use ingot::types::operand::{Condition, ExtendOp, MemoryOperand, Operand, ShiftOp};
use ingot::types::register::{FpReg, FpRegWidth, GpReg, RegWidth, Register, SpecialReg, VecArrangement, VecReg};
use ingot::types::reloc::{PendingRelocation, RelocKind};
use ingot::types::span::Span;
use ingot::types::directive::{BuildVersion, Directive, Platform, SectionSpec};
use ingot::types::statement::Statement;
use ingot::encode::branch::{encode_b_bl, encode_bcond, encode_br_blr_ret, encode_cbz_cbnz, encode_svc_brk};
    fn gp(n: u8, w: RegWidth) -> Operand {
        Operand::Register(Register::Gp(GpReg::new(n, w)))
    }

    fn label(s: &str) -> Operand {
        Operand::Label(s.into())
    }

    fn imm(v: i64) -> Operand {
        Operand::Immediate(Expr::Literal(v))
    }

    fn span() -> Span {
        Span::dummy()
    }

    #[test]
    fn branch_ret_default() {
        // ret (no operand) → 0xD65F03C0
        let enc = encode_br_blr_ret(Mnemonic::Ret, &[], span()).unwrap();
        assert_eq!(enc.bits, 0xD65F_03C0);
    }

    #[test]
    fn ret_x30() {
        let enc = encode_br_blr_ret(Mnemonic::Ret, &[gp(30, RegWidth::X64)], span()).unwrap();
        assert_eq!(enc.bits, 0xD65F_03C0);
    }

    #[test]
    fn br_x0() {
        let enc = encode_br_blr_ret(Mnemonic::Br, &[gp(0, RegWidth::X64)], span()).unwrap();
        assert_eq!(enc.bits, 0xD61F_0000);
    }

    #[test]
    fn blr_x8() {
        let enc = encode_br_blr_ret(Mnemonic::Blr, &[gp(8, RegWidth::X64)], span()).unwrap();
        assert_eq!(enc.bits, 0xD63F_0100);
    }

    #[test]
    fn b_label_reloc() {
        let enc = encode_b_bl(Mnemonic::B, &[label("target")], span()).unwrap();
        assert_eq!(enc.bits & 0xFC00_0000, 0b000101 << 26);
        let reloc = enc.relocation.unwrap();
        assert_eq!(reloc.kind, RelocKind::Branch26);
        assert_eq!(reloc.symbol, "target");
    }

    #[test]
    fn bl_label_reloc() {
        let enc = encode_b_bl(Mnemonic::Bl, &[label("func")], span()).unwrap();
        assert_eq!(enc.bits & 0xFC00_0000, (1 << 31) | (0b00101 << 26));
        let reloc = enc.relocation.unwrap();
        assert_eq!(reloc.kind, RelocKind::Branch26);
        assert_eq!(reloc.symbol, "func");
    }

    #[test]
    fn branch_svc_0x80() {
        // svc #0x80 → 0xD4001001
        let enc = encode_svc_brk(Mnemonic::Svc, &[imm(0x80)], span()).unwrap();
        assert_eq!(enc.bits, 0xD400_1001);
    }

    #[test]
    fn brk_1() {
        // brk #1 → 0xD4200020
        let enc = encode_svc_brk(Mnemonic::Brk, &[imm(1)], span()).unwrap();
        assert_eq!(enc.bits, 0xD420_0020);
    }

    #[test]
    fn bcond_eq_label() {
        let ops = vec![Operand::Condition(Condition::Eq), label("target")];
        let enc = encode_bcond(&ops, span()).unwrap();
        // base: 01010100 << 24 | 0b0000 = 0x54000000
        assert_eq!(enc.bits, 0x5400_0000);
        let reloc = enc.relocation.unwrap();
        assert_eq!(reloc.kind, RelocKind::Pcrel19);
    }

    #[test]
    fn cbz_x0_label() {
        let ops = vec![gp(0, RegWidth::X64), label("target")];
        let enc = encode_cbz_cbnz(Mnemonic::Cbz, &ops, span()).unwrap();
        // sf=1, 0110100, op=0 => 0xB4000000
        assert_eq!(enc.bits & 0xFF00_0000, 0xB400_0000);
        assert!(enc.relocation.is_some());
    }

    #[test]
    fn cbnz_w1_label() {
        let ops = vec![gp(1, RegWidth::W32), label("loop")];
        let enc = encode_cbz_cbnz(Mnemonic::Cbnz, &ops, span()).unwrap();
        // sf=0, 0110101, op=1 => 0x35000001
        assert_eq!(enc.bits & 0xFF00_001F, 0x3500_0001);
        assert!(enc.relocation.is_some());
    }
