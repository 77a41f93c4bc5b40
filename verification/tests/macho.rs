#![allow(unused_imports)]
use ingot::types::error::{AsmError, AsmErrors};
use ingot::types::expr::{BinOp, Expr, RelocModifier, UnaryOp};
use ingot::types::instruction::{Instruction, Mnemonic};
use ingot::types::operand::{Condition, ExtendOp, MemoryOperand, Operand, ShiftOp};
use ingot::types::register::{FpReg, FpRegWidth, GpReg, RegWidth, Register, SpecialReg, VecArrangement, VecReg};
use ingot::types::reloc::{PendingRelocation, RelocKind};
use ingot::types::span::Span;
use ingot::types::directive::{BuildVersion, Directive, Platform, SectionSpec};
use ingot::types::statement::Statement;
use ingot::macho::{ObjectError, SectionIndex, SymbolIndex, SymbolScope};
use ingot::macho::builder::ObjectBuilder;
use ingot::macho::reloc::{reloc_flags, MachORelocFlags};
use ingot::macho::version::parse_version;
use ingot::pipeline::assemble;
use ingot::pipeline::context::AssemblyContext;
use ingot::pipeline::pass1::pass1;
use ingot::pipeline::pass2::pass2;
use object::{Object as _, ObjectSection as _, ObjectSymbol as _};
use object::Architecture;

    #[test]
    fn reloc_mapping() {
        let cases = [
            (
                RelocKind::Branch26,
                object::macho::ARM64_RELOC_BRANCH26,
                true,
            ),
            (RelocKind::Page21, object::macho::ARM64_RELOC_PAGE21, true),
            (
                RelocKind::PageOff12,
                object::macho::ARM64_RELOC_PAGEOFF12,
                false,
            ),
            (
                RelocKind::GotLoadPage21,
                object::macho::ARM64_RELOC_GOT_LOAD_PAGE21,
                true,
            ),
            (
                RelocKind::GotLoadPageOff12,
                object::macho::ARM64_RELOC_GOT_LOAD_PAGEOFF12,
                false,
            ),
        ];
        for (kind, expected_type, expected_pcrel) in cases {
            let flags = reloc_flags(kind).unwrap();
            assert_eq!(
                flags,
                MachORelocFlags {
                    r_type: expected_type,
                    r_pcrel: expected_pcrel,
                    r_length: 2,
                }
            );
        }
    }

    #[test]
    fn unsupported_reloc_kinds() {
        assert!(reloc_flags(RelocKind::Pcrel19).is_err());
        assert!(reloc_flags(RelocKind::Adr21).is_err());
    }

    #[test]
    fn section_dedup() {
        let mut builder = ObjectBuilder::new();
        let id1 = builder.get_or_create_section("__TEXT", "__text");
        let id2 = builder.get_or_create_section("__TEXT", "__text");
        assert_eq!(id1, id2);
    }

    #[test]
    fn symbol_define_and_global() {
        let mut builder = ObjectBuilder::new();
        let section = builder.switch_section("__TEXT", "__text");
        builder.define_symbol("_foo", 0, section).unwrap();
        assert!(builder.symbol_id("_foo").is_some());

        let id = builder.symbol_id("_foo").unwrap();
        assert_eq!(builder.symbol_scope(id).unwrap(), SymbolScope::Compilation);

        assert!(builder.set_global("_foo"));
        assert_eq!(builder.symbol_scope(id).unwrap(), SymbolScope::Dynamic);
    }

    #[test]
    fn set_global_unknown_symbol() {
        let mut builder = ObjectBuilder::new();
        assert!(!builder.set_global("_nonexistent"));
    }

    #[test]
    fn declare_external_dedup() {
        let mut builder = ObjectBuilder::new();
        let id1 = builder.declare_external("_ext");
        let id2 = builder.declare_external("_ext");
        assert_eq!(id1, id2);
    }

    #[test]
    fn version_parsing() {
        assert_eq!(parse_version("14.0"), 0x000E_0000);
        assert_eq!(parse_version("11.3.1"), 0x000B_0301);
        assert_eq!(parse_version("15.2.0"), 0x000F_0200);
        assert_eq!(parse_version("12.0.0"), 0x000C_0000);
    }

    #[test]
    fn version_parsing_overflow() {
        // Components exceeding their field width should be masked
        let v = parse_version("65537.256.256"); // 0x10001, 0x100, 0x100
        assert_eq!(v >> 16, 1); // major masked to 16 bits: 0x10001 & 0xFFFF = 1
        assert_eq!((v >> 8) & 0xFF, 0); // minor masked to 8 bits: 0x100 & 0xFF = 0
        assert_eq!(v & 0xFF, 0); // patch masked to 8 bits: 0x100 & 0xFF = 0
    }

    #[test]
    fn roundtrip_nop() {

        let mut builder = ObjectBuilder::new();
        builder.switch_section("__TEXT", "__text");
        builder.emit_instruction(0xD503201F).unwrap(); // NOP
        let section = builder.current_section().unwrap();
        builder.define_symbol("_main", 0, section).unwrap();
        builder.set_global("_main");

        let bytes = builder.finish().unwrap();

        let file = object::File::parse(&*bytes).unwrap();
        assert_eq!(file.architecture(), Architecture::Aarch64);

        let text_section = file.sections().find(|s| s.name() == Ok("__text")).unwrap();
        assert_eq!(text_section.data().unwrap(), &0xD503201Fu32.to_le_bytes());

        let main_sym = file.symbols().find(|s| s.name() == Ok("_main")).unwrap();
        assert!(main_sym.is_global());
    }

    #[test]
    fn got_load_addend_is_written_into_the_bytes() {
        let mut builder = ObjectBuilder::new();
        let section = builder.switch_section("__TEXT", "__text");
        let offset = builder.emit_instruction(0x9000_0000).unwrap();
        let pending = PendingRelocation { kind: RelocKind::GotLoadPage21, symbol: "_foo".into(), addend: 8 };
        builder.add_relocation(section, offset, &pending).unwrap();
        let bytes = builder.finish().unwrap();
        let file = object::File::parse(&*bytes).unwrap();
        let text_section = file.sections().find(|s| s.name() == Ok("__text")).unwrap();
        assert_eq!(text_section.data().unwrap(), &8u32.to_le_bytes());
        let relocs: Vec<_> = text_section.relocations().collect();
        assert_eq!(relocs.len(), 1);
    }

    #[test]
    fn symbol_name_with_nul_is_refused() {
        let mut builder = ObjectBuilder::new();
        builder.switch_section("__TEXT", "__text");
        builder.declare_external("_bad\0name");
        assert!(matches!(builder.finish(), Err(ObjectError::Write { .. })));
    }

    #[test]
    fn zero_fill_section_keeps_its_size() {
        let mut builder = ObjectBuilder::new();
        builder.switch_section("__DATA", "__bss");
        builder.emit_data(&[0u8; 24], 8).unwrap();
        let bytes = builder.finish().unwrap();
        let file = object::File::parse(&*bytes).unwrap();
        let bss = file.sections().find(|s| s.name() == Ok("__bss")).unwrap();
        assert_eq!(bss.size(), 24);
        assert_eq!(bss.align(), 8);
    }

    #[test]
    fn implicit_addend_in_zero_fill_section_fails() {
        let mut builder = ObjectBuilder::new();
        let section = builder.switch_section("__DATA", "__bss");
        builder.emit_data(&[0u8; 8], 8).unwrap();
        let pending = PendingRelocation { kind: RelocKind::GotLoadPageOff12, symbol: "_foo".into(), addend: 4 };
        builder.add_relocation(section, 0, &pending).unwrap();
        assert!(matches!(builder.finish(), Err(ObjectError::Write { .. })));
    }

    #[test]
    fn roundtrip_with_relocation() {

        let mut builder = ObjectBuilder::new();
        let section = builder.switch_section("__TEXT", "__text");

        // ADRP x0, _foo@PAGE
        let adrp_offset = builder.emit_instruction(0x90000000).unwrap();
        builder
            .add_relocation(
                section,
                adrp_offset,
                &PendingRelocation::simple(RelocKind::Page21, "_foo".into()),
            )
            .unwrap();

        // ADD x0, x0, _foo@PAGEOFF
        let add_offset = builder.emit_instruction(0x91000000).unwrap();
        builder
            .add_relocation(
                section,
                add_offset,
                &PendingRelocation::simple(RelocKind::PageOff12, "_foo".into()),
            )
            .unwrap();

        let bytes = builder.finish().unwrap();

        let file = object::File::parse(&*bytes).unwrap();
        let text_section = file.sections().find(|s| s.name() == Ok("__text")).unwrap();

        let relocs: Vec<_> = text_section.relocations().collect();
        assert_eq!(relocs.len(), 2);
    }
