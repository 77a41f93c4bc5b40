#![allow(unused_imports)]
use ingot::types::error::{AsmError, AsmErrors};
use ingot::types::expr::{BinOp, Expr, RelocModifier, UnaryOp};
use ingot::types::instruction::{Instruction, Mnemonic};
use ingot::types::operand::{Condition, ExtendOp, MemoryOperand, Operand, ShiftOp};
use ingot::types::register::{FpReg, FpRegWidth, GpReg, RegWidth, Register, SpecialReg, VecArrangement, VecReg};
use ingot::types::reloc::{PendingRelocation, RelocKind};
use ingot::types::span::Span;
use ingot::types::directive::{BuildVersion, Directive, Platform, SectionSpec};
use ingot::types::statement::Statement;
use ingot::encode::fields::{set_field, set_rd, set_rm, set_rn, truncate_imm};
    #[test]
    fn set_field_basic() {
        let inst = set_field(0, 4, 0, 0b11111);
        assert_eq!(inst, 0b11111);
    }

    #[test]
    fn set_field_middle() {
        let inst = set_field(0, 9, 5, 0b11111);
        assert_eq!(inst, 0b11111 << 5);
    }

    #[test]
    fn set_field_preserves_other_bits() {
        let inst = set_field(0xFFFF_FFFF, 4, 0, 0);
        assert_eq!(inst, 0xFFFF_FFE0);
    }

    #[test]
    fn set_rd_rn_rm() {
        let inst = set_rd(0, 5);
        assert_eq!(inst & 0x1F, 5);

        let inst = set_rn(0, 10);
        assert_eq!((inst >> 5) & 0x1F, 10);

        let inst = set_rm(0, 20);
        assert_eq!((inst >> 16) & 0x1F, 20);
    }

    #[test]
    fn truncate_imm_negative() {
        // -1 truncated to 9 bits = 0x1FF
        assert_eq!(truncate_imm(-1, 9), 0x1FF);
        // -16 truncated to 7 bits = 0x70 (112)
        assert_eq!(truncate_imm(-16, 7), (-16i64 as u32) & 0x7F);
    }
