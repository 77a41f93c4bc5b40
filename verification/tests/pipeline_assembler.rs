#![allow(unused_imports)]
use ingot::types::error::{AsmError, AsmErrors};
use ingot::types::expr::{BinOp, Expr, RelocModifier, UnaryOp};
use ingot::types::instruction::{Instruction, Mnemonic};
use ingot::types::operand::{Condition, ExtendOp, MemoryOperand, Operand, ShiftOp};
use ingot::types::register::{FpReg, FpRegWidth, GpReg, RegWidth, Register, SpecialReg, VecArrangement, VecReg};
use ingot::types::reloc::{PendingRelocation, RelocKind};
use ingot::types::span::Span;
use ingot::types::directive::{BuildVersion, Directive, Platform, SectionSpec};
use ingot::types::statement::Statement;
use ingot::macho::{ObjectError, SectionIndex, SymbolIndex, SymbolScope};
use ingot::macho::builder::ObjectBuilder;
use ingot::macho::reloc::{reloc_flags, MachORelocFlags};
use ingot::macho::version::parse_version;
use ingot::pipeline::assemble;
use ingot::pipeline::context::AssemblyContext;
use ingot::pipeline::pass1::pass1;
use ingot::pipeline::pass2::pass2;
use object::{Object as _, ObjectSection as _, ObjectSymbol as _};

    #[test]
    fn minimal_exit_program() {
        let source = "\
.global _main
_main:
    mov x0, #0
    mov x16, #1
    svc #0x80
";
        let bytes = assemble(source).expect("assembly should succeed");


        let file = object::File::parse(&*bytes).unwrap();
        let main_sym = file.symbols().find(|s| s.name() == Ok("_main")).unwrap();
        assert!(main_sym.is_global());

        let text = file.sections().find(|s| s.name() == Ok("__text")).unwrap();
        assert_eq!(text.data().unwrap().len(), 12); // 3 instructions × 4 bytes
    }

    #[test]
    fn data_section_contents() {
        let source = "\
.data
.asciz \"hello\"
";
        let bytes = assemble(source).expect("assembly should succeed");


        let file = object::File::parse(&*bytes).unwrap();
        let data = file.sections().find(|s| s.name() == Ok("__data")).unwrap();
        assert_eq!(data.data().unwrap(), b"hello\0");
    }

    #[test]
    fn external_symbol_relocation() {
        let source = "\
.global _main
_main:
    bl _extern
";
        let bytes = assemble(source).expect("assembly should succeed");


        let file = object::File::parse(&*bytes).unwrap();

        // There should be a relocation referencing _extern
        let text = file.sections().find(|s| s.name() == Ok("__text")).unwrap();
        let relocs: Vec<_> = text.relocations().collect();
        assert_eq!(relocs.len(), 1);
    }

    #[test]
    fn adrp_add_pattern() {
        let source = "\
.global _main
_main:
    adrp x0, :pg_hi21:_foo
    add x0, x0, :lo12:_foo
";
        let bytes = assemble(source).expect("assembly should succeed");


        let file = object::File::parse(&*bytes).unwrap();
        let text = file.sections().find(|s| s.name() == Ok("__text")).unwrap();
        let relocs: Vec<_> = text.relocations().collect();
        assert_eq!(relocs.len(), 2);
    }

    #[test]
    fn forward_branch_same_section() {
        let source = "\
.global _main
_main:
    b _target
    nop
_target:
    nop
";
        let bytes = assemble(source).expect("assembly should succeed");


        let file = object::File::parse(&*bytes).unwrap();
        let text = file.sections().find(|s| s.name() == Ok("__text")).unwrap();
        let data = text.data().unwrap();
        // b _target: offset is +8 (skip nop), imm26 = 8/4 = 2
        let b_inst = u32::from_le_bytes(data[0..4].try_into().unwrap());
        let imm26 = b_inst & 0x03FF_FFFF;
        assert_eq!(imm26, 2); // +8 bytes / 4 = 2
                              // No relocations needed for same-section branch
        let relocs: Vec<_> = text.relocations().collect();
        assert_eq!(relocs.len(), 0);
    }

    #[test]
    fn error_collection() {
        let source = "\
    invalid_instruction_here
";
        let result = assemble(source);
        assert!(result.is_err());
        let errors = result.unwrap_err();
        assert!(!errors.is_empty());
    }

    #[test]
    fn assembler_subsections_via_symbols() {
        let source = "\
.subsections_via_symbols
.global _main
_main:
    nop
";
        let bytes = assemble(source).expect("assembly should succeed");
        let file = object::File::parse(&*bytes).unwrap();
        // Check MH_SUBSECTIONS_VIA_SYMBOLS flag
        if let object::FileFlags::MachO { flags } = file.flags() {
            assert_ne!(flags & 0x2000, 0); // MH_SUBSECTIONS_VIA_SYMBOLS = 0x2000
        } else {
            panic!("expected Mach-O flags");
        }
    }

    #[test]
    fn byte_data_emission() {
        let source = "\
.data
.byte 0x41, 0x42, 0x43
";
        let bytes = assemble(source).expect("assembly should succeed");
        let file = object::File::parse(&*bytes).unwrap();
        let data = file.sections().find(|s| s.name() == Ok("__data")).unwrap();
        assert_eq!(data.data().unwrap(), &[0x41, 0x42, 0x43]);
    }

    #[test]
    fn assembler_space_directive() {
        let source = "\
.data
.space 8, 0xFF
";
        let bytes = assemble(source).expect("assembly should succeed");
        let file = object::File::parse(&*bytes).unwrap();
        let data = file.sections().find(|s| s.name() == Ok("__data")).unwrap();
        assert_eq!(data.data().unwrap(), &[0xFF; 8]);
    }
