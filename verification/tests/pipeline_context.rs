#![allow(unused_imports)]
use ingot::types::error::{AsmError, AsmErrors};
use ingot::types::expr::{BinOp, Expr, RelocModifier, UnaryOp};
use ingot::types::instruction::{Instruction, Mnemonic};
use ingot::types::operand::{Condition, ExtendOp, MemoryOperand, Operand, ShiftOp};
use ingot::types::register::{FpReg, FpRegWidth, GpReg, RegWidth, Register, SpecialReg, VecArrangement, VecReg};
use ingot::types::reloc::{PendingRelocation, RelocKind};
use ingot::types::span::Span;
use ingot::types::directive::{BuildVersion, Directive, Platform, SectionSpec};
use ingot::types::statement::Statement;
use ingot::macho::{ObjectError, SectionIndex, SymbolIndex, SymbolScope};
use ingot::macho::builder::ObjectBuilder;
use ingot::macho::reloc::{reloc_flags, MachORelocFlags};
use ingot::macho::version::parse_version;
use ingot::pipeline::assemble;
use ingot::pipeline::context::AssemblyContext;
use ingot::pipeline::pass1::pass1;
use ingot::pipeline::pass2::pass2;
use object::{Object as _, ObjectSection as _, ObjectSymbol as _};

    #[test]
    fn new_defaults_to_text_section() {
        let ctx = AssemblyContext::new();
        assert_eq!(
            ctx.current_section,
            ("__TEXT".to_string(), "__text".to_string())
        );
        assert_eq!(ctx.current_offset(), 0);
    }

    #[test]
    fn advance_and_offset() {
        let mut ctx = AssemblyContext::new();
        ctx.advance(4);
        assert_eq!(ctx.current_offset(), 4);
        ctx.advance(4);
        assert_eq!(ctx.current_offset(), 8);
    }

    #[test]
    fn switch_section_preserves_offsets() {
        let mut ctx = AssemblyContext::new();
        ctx.advance(8);
        ctx.switch_section("__DATA", "__data");
        assert_eq!(ctx.current_offset(), 0);
        ctx.advance(4);
        ctx.switch_section("__TEXT", "__text");
        assert_eq!(ctx.current_offset(), 8);
    }

    #[test]
    fn define_symbol_records_position() {
        let mut ctx = AssemblyContext::new();
        ctx.advance(12);
        ctx.define_symbol("_foo", Span::new(0, 4));
        let info = ctx.symbol("_foo").unwrap();
        assert_eq!(info.offset, 12);
        assert_eq!(info.section, ("__TEXT".to_string(), "__text".to_string()));
    }

    #[test]
    fn duplicate_symbol_pushes_error() {
        let mut ctx = AssemblyContext::new();
        ctx.define_symbol("_foo", Span::new(0, 4));
        ctx.define_symbol("_foo", Span::new(10, 4));
        assert_eq!(ctx.errors.len(), 1);
        assert!(matches!(
            &ctx.errors[0],
            AsmError::DuplicateSymbol { name, .. } if name == "_foo"
        ));
    }

    #[test]
    fn mark_global() {
        let mut ctx = AssemblyContext::new();
        ctx.mark_global("_main");
        assert!(ctx.is_global("_main"));
    }

    #[test]
    fn align_to_pads_correctly() {
        let mut ctx = AssemblyContext::new();
        ctx.advance(5);
        ctx.align_to(4);
        assert_eq!(ctx.current_offset(), 8);
    }

    #[test]
    fn align_to_noop_when_already_aligned() {
        let mut ctx = AssemblyContext::new();
        ctx.advance(8);
        ctx.align_to(4);
        assert_eq!(ctx.current_offset(), 8);
    }
