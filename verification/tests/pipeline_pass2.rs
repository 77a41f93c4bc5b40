#![allow(unused_imports)]
use ingot::types::error::{AsmError, AsmErrors};
use ingot::types::expr::{BinOp, Expr, RelocModifier, UnaryOp};
use ingot::types::instruction::{Instruction, Mnemonic};
use ingot::types::operand::{Condition, ExtendOp, MemoryOperand, Operand, ShiftOp};
use ingot::types::register::{FpReg, FpRegWidth, GpReg, RegWidth, Register, SpecialReg, VecArrangement, VecReg};
use ingot::types::reloc::{PendingRelocation, RelocKind};
use ingot::types::span::Span;
use ingot::types::directive::{BuildVersion, Directive, Platform, SectionSpec};
use ingot::types::statement::Statement;
use ingot::macho::{ObjectError, SectionIndex, SymbolIndex, SymbolScope};
use ingot::macho::builder::ObjectBuilder;
use ingot::macho::reloc::{reloc_flags, MachORelocFlags};
use ingot::macho::version::parse_version;
use ingot::pipeline::assemble;
use ingot::pipeline::context::AssemblyContext;
use ingot::pipeline::pass1::pass1;
use ingot::pipeline::pass2::pass2;
use object::{Object as _, ObjectSection as _, ObjectSymbol as _};

    fn run_passes(stmts: &[Statement]) -> (ObjectBuilder, Vec<AsmError>) {
        let mut ctx = AssemblyContext::new();
        pass1(stmts, &mut ctx);
        let mut builder = ObjectBuilder::new();
        builder.switch_section("__TEXT", "__text");
        let mut errors = Vec::new();
        pass2(stmts, &ctx, &mut builder, &mut errors);
        errors.extend(ctx.errors);
        (builder, errors)
    }

    fn parse_obj(bytes: &[u8]) -> object::File<'_> {
        object::File::parse(bytes).unwrap()
    }

    #[test]
    fn nop_emission() {

        let stmts = vec![Statement::Instruction(Instruction {
            mnemonic: Mnemonic::Nop,
            operands: vec![],
            span: Span::new(0, 3),
        })];
        let (builder, errors) = run_passes(&stmts);
        assert!(errors.is_empty());
        let bytes = builder.finish().unwrap();
        let file = parse_obj(&bytes);
        let text = file.sections().find(|s| s.name() == Ok("__text")).unwrap();
        assert_eq!(text.data().unwrap(), &0xD503201Fu32.to_le_bytes());
    }

    #[test]
    fn label_defined_as_global() {

        let stmts = vec![
            Statement::Directive {
                directive: Directive::Global("_main".to_string()),
                span: Span::new(0, 13),
            },
            Statement::Label {
                name: "_main".to_string(),
                span: Span::new(14, 5),
            },
            Statement::Instruction(Instruction {
                mnemonic: Mnemonic::Nop,
                operands: vec![],
                span: Span::new(20, 3),
            }),
        ];
        let (builder, errors) = run_passes(&stmts);
        assert!(errors.is_empty());
        let bytes = builder.finish().unwrap();
        let file = parse_obj(&bytes);
        let main_sym = file.symbols().find(|s| s.name() == Ok("_main")).unwrap();
        assert!(main_sym.is_global());
    }

    #[test]
    fn data_section_asciz() {

        let stmts = vec![
            Statement::Directive {
                directive: Directive::Data,
                span: Span::new(0, 5),
            },
            Statement::Directive {
                directive: Directive::Asciz("hello".to_string()),
                span: Span::new(6, 13),
            },
        ];
        let (builder, errors) = run_passes(&stmts);
        assert!(errors.is_empty());
        let bytes = builder.finish().unwrap();
        let file = parse_obj(&bytes);
        let data = file.sections().find(|s| s.name() == Ok("__data")).unwrap();
        assert_eq!(data.data().unwrap(), b"hello\0");
    }

    #[test]
    fn encoding_error_emits_nop_placeholder() {

        let stmts = vec![
            Statement::Instruction(Instruction {
                mnemonic: Mnemonic::Add,
                operands: vec![],
                span: Span::new(0, 3),
            }),
            Statement::Instruction(Instruction {
                mnemonic: Mnemonic::Nop,
                operands: vec![],
                span: Span::new(4, 3),
            }),
        ];
        let (builder, errors) = run_passes(&stmts);
        assert!(!errors.is_empty());
        let bytes = builder.finish().unwrap();
        let file = parse_obj(&bytes);
        let text = file.sections().find(|s| s.name() == Ok("__text")).unwrap();
        assert_eq!(text.data().unwrap().len(), 8);
    }

    #[test]
    fn external_branch_emits_relocation() {

        let stmts = vec![Statement::Instruction(Instruction {
            mnemonic: Mnemonic::Bl,
            operands: vec![Operand::Label("_extern".to_string())],
            span: Span::new(0, 10),
        })];
        let (builder, errors) = run_passes(&stmts);
        assert!(errors.is_empty(), "errors: {:?}", errors);
        let bytes = builder.finish().unwrap();
        let file = parse_obj(&bytes);
        let text = file.sections().find(|s| s.name() == Ok("__text")).unwrap();
        let relocs: Vec<_> = text.relocations().collect();
        assert_eq!(relocs.len(), 1);
    }
