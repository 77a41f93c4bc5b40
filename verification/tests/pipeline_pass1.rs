#![allow(unused_imports)]
use ingot::types::error::{AsmError, AsmErrors};
use ingot::types::expr::{BinOp, Expr, RelocModifier, UnaryOp};
use ingot::types::instruction::{Instruction, Mnemonic};
use ingot::types::operand::{Condition, ExtendOp, MemoryOperand, Operand, ShiftOp};
use ingot::types::register::{FpReg, FpRegWidth, GpReg, RegWidth, Register, SpecialReg, VecArrangement, VecReg};
use ingot::types::reloc::{PendingRelocation, RelocKind};
use ingot::types::span::Span;
use ingot::types::directive::{BuildVersion, Directive, Platform, SectionSpec};
use ingot::types::statement::Statement;
use ingot::macho::{ObjectError, SectionIndex, SymbolIndex, SymbolScope};
use ingot::macho::builder::ObjectBuilder;
use ingot::macho::reloc::{reloc_flags, MachORelocFlags};
use ingot::macho::version::parse_version;
use ingot::pipeline::assemble;
use ingot::pipeline::context::AssemblyContext;
use ingot::pipeline::pass1::pass1;
use ingot::pipeline::pass2::pass2;
use object::{Object as _, ObjectSection as _, ObjectSymbol as _};

    fn label(name: &str, offset: u32) -> Statement {
        Statement::Label {
            name: name.to_string(),
            span: Span::new(offset, name.len() as u32),
        }
    }

    fn nop_inst(offset: u32) -> Statement {
        Statement::Instruction(Instruction {
            mnemonic: Mnemonic::Nop,
            operands: vec![],
            span: Span::new(offset, 3),
        })
    }

    fn dir(d: Directive, offset: u32) -> Statement {
        Statement::Directive {
            directive: d,
            span: Span::new(offset, 1),
        }
    }

    #[test]
    fn empty_program() {
        let mut ctx = AssemblyContext::new();
        pass1(&[], &mut ctx);
        assert_eq!(ctx.current_offset(), 0);
        assert!(ctx.symbols.is_empty());
        assert!(ctx.errors.is_empty());
    }

    #[test]
    fn label_at_correct_offsets() {
        let stmts = vec![label("_a", 0), nop_inst(5), nop_inst(10), label("_b", 15)];
        let mut ctx = AssemblyContext::new();
        pass1(&stmts, &mut ctx);
        assert_eq!(ctx.symbol("_a").unwrap().offset, 0);
        assert_eq!(ctx.symbol("_b").unwrap().offset, 8);
    }

    #[test]
    fn data_directive_sizing() {
        let stmts = vec![
            dir(Directive::Byte(vec![Expr::Literal(1), Expr::Literal(2)]), 0),
            dir(Directive::Short(vec![Expr::Literal(1)]), 10),
            dir(Directive::Word(vec![Expr::Literal(1)]), 20),
            dir(Directive::Quad(vec![Expr::Literal(1)]), 30),
        ];
        let mut ctx = AssemblyContext::new();
        pass1(&stmts, &mut ctx);
        // 2 + 2 + 4 + 8 = 16
        assert_eq!(ctx.current_offset(), 16);
    }

    #[test]
    fn asciz_includes_null_terminator() {
        let stmts = vec![dir(Directive::Asciz("hello".to_string()), 0)];
        let mut ctx = AssemblyContext::new();
        pass1(&stmts, &mut ctx);
        assert_eq!(ctx.current_offset(), 6); // "hello" + NUL
    }

    #[test]
    fn section_switch() {
        let stmts = vec![
            nop_inst(0),
            dir(Directive::Data, 10),
            dir(Directive::Byte(vec![Expr::Literal(0); 8]), 20),
            dir(Directive::Text, 30),
            label("_after_text", 40),
        ];
        let mut ctx = AssemblyContext::new();
        pass1(&stmts, &mut ctx);
        assert_eq!(ctx.symbol("_after_text").unwrap().offset, 4);
        assert_eq!(
            ctx.section_offset("__DATA", "__data").unwrap(),
            8
        );
    }

    #[test]
    fn pass1_align_directive() {
        let stmts = vec![
            dir(Directive::Byte(vec![Expr::Literal(0); 3]), 0),
            dir(Directive::Align(Expr::Literal(2)), 10), // 2^2 = 4-byte align
            label("_aligned", 20),
        ];
        let mut ctx = AssemblyContext::new();
        pass1(&stmts, &mut ctx);
        assert_eq!(ctx.symbol("_aligned").unwrap().offset, 4);
    }

    #[test]
    fn pass1_space_directive() {
        let stmts = vec![dir(
            Directive::Space {
                size: Expr::Literal(16),
                fill: None,
            },
            0,
        )];
        let mut ctx = AssemblyContext::new();
        pass1(&stmts, &mut ctx);
        assert_eq!(ctx.current_offset(), 16);
    }

    #[test]
    fn global_marks_name() {
        let stmts = vec![
            dir(Directive::Global("_main".to_string()), 0),
            label("_main", 10),
        ];
        let mut ctx = AssemblyContext::new();
        pass1(&stmts, &mut ctx);
        assert!(ctx.is_global("_main"));
        assert!(ctx.symbol("_main").is_some());
    }
