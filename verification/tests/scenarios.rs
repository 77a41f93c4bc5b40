use ingot::encode::fields::set_field;
use ingot::macho::builder::ObjectBuilder;
use ingot::macho::reloc::reloc_flags;
use ingot::macho::version::parse_version;
use ingot::macho::ObjectError;
use ingot::parser::parse;
use ingot::pipeline::assemble;
use ingot::pipeline::context::AssemblyContext;
use ingot::pipeline::pass1::pass1;
use ingot::types::error::AsmError;
use ingot::types::reloc::RelocKind;
use ingot::types::span::Span;
use object::{Object as _, ObjectSection as _, ObjectSymbol as _};

fn errors_of(source: &str) -> Vec<AsmError> {
    match assemble(source) {
        Ok(_) => panic!("assembly should fail"),
        Err(e) => e.errors,
    }
}

#[test]
fn labels_land_where_pass1_sized_them() {
    let source = ".global _main\n_main:\n    nop\n    nop\n_mid:\n    nop\n.data\n_d0:\n    .byte 1, 2, 3\n    .p2align 2\n_d1:\n    .quad 7\n.text\n_end:\n    ret\n";
    let (stmts, errors) = parse(source);
    assert!(errors.is_empty());
    let mut ctx = AssemblyContext::new();
    pass1(&stmts, &mut ctx);
    assert!(ctx.errors.is_empty());
    let bytes = assemble(source).expect("assembly should succeed");
    let file = object::File::parse(&*bytes).unwrap();
    for name in ["_main", "_mid", "_d0", "_d1", "_end"] {
        let sym = file.symbols().find(|s| s.name() == Ok(name)).unwrap();
        let section = file.section_by_index(sym.section_index().unwrap()).unwrap();
        assert_eq!(sym.address() - section.address(), ctx.symbol(name).unwrap().offset, "symbol {name}");
    }
    assert_eq!(ctx.symbol("_d1").unwrap().offset, 4);
    assert_eq!(ctx.symbol("_end").unwrap().offset, 12);
    let text = file.sections().find(|s| s.name() == Ok("__text")).unwrap();
    assert_eq!(text.data().unwrap().len() as u64, ctx.section_offset("__TEXT", "__text").unwrap());
    let data = file.sections().find(|s| s.name() == Ok("__data")).unwrap();
    assert_eq!(data.data().unwrap(), &[1, 2, 3, 0, 7, 0, 0, 0, 0, 0, 0, 0]);
}

#[test]
fn span_merge_is_commutative() {
    let a = Span::new(3, 4);
    let b = Span::new(10, 2);
    assert_eq!(a.merge(b), b.merge(a));
    assert_eq!(a.merge(b), Span::new(3, 9));
}

#[test]
fn set_field_keeps_other_bits() {
    let inst = set_field(0xFFFF_FFFF, 9, 5, 0b10101);
    assert_eq!((inst >> 5) & 0x1F, 0b10101);
    assert_eq!(inst & !(0x1F << 5), 0xFFFF_FFFF & !(0x1F << 5));
}

#[test]
fn errors_come_in_order_lexer_parser_passes() {
    let errors = errors_of("@\nfoo x0\n_a:\n_a:\nadd x0, x1, #5000\n");
    assert_eq!(errors.len(), 4);
    assert!(matches!(&errors[0], AsmError::LexError { .. }));
    assert!(matches!(&errors[1], AsmError::UnknownMnemonic { mnemonic, .. } if mnemonic == "foo"));
    assert!(matches!(&errors[2], AsmError::DuplicateSymbol { name, .. } if name == "_a"));
    assert!(matches!(&errors[3], AsmError::ImmediateOutOfRange { value: 5000, .. }));
}

#[test]
fn unknown_mnemonic_inline() {
    let errors = errors_of("_main:\n    frobnicate x0, x1\n");
    assert!(errors.iter().any(|e| matches!(e, AsmError::UnknownMnemonic { .. })));
}

#[test]
fn bad_immediate_inline() {
    let errors = errors_of("add x0, x1, #0x1001\n");
    assert!(errors.iter().any(|e| matches!(e, AsmError::ImmediateOutOfRange { .. })));
}

#[test]
fn multiple_errors_inline() {
    let errors = errors_of("bogus1\nbogus2 x0\n");
    assert_eq!(errors.len(), 2);
}

#[test]
fn invalid_operand_error() {
    let errors = errors_of("add x0, x1, _sym\n");
    assert!(matches!(&errors[0], AsmError::InvalidOperand { .. }));
}

#[test]
fn wrong_operand_count_error() {
    let errors = errors_of("movz x0\n");
    assert!(matches!(&errors[0], AsmError::WrongOperandCount { expected: 2, got: 1, .. }));
}

#[test]
fn invalid_directive_error() {
    let errors = errors_of(".frobnicate 1\n");
    match &errors[0] {
        AsmError::InvalidDirective { detail, .. } => assert_eq!(detail, "unknown directive `.frobnicate`"),
        other => panic!("expected InvalidDirective, got {other:?}"),
    }
}

#[test]
fn parse_error_for_stray_token() {
    let errors = errors_of(", x0\n");
    match &errors[0] {
        AsmError::ParseError { detail, span } => {
            assert_eq!(detail, "expected instruction, directive, or label");
            assert_eq!(*span, Span::new(0, 1));
        }
        other => panic!("expected ParseError, got {other:?}"),
    }
}

#[test]
fn invalid_alignment_error() {
    let errors = errors_of(".align 31\n");
    assert!(matches!(&errors[0], AsmError::InvalidAlignment { .. }));
}

#[test]
fn unresolved_expression_error() {
    let errors = errors_of(".space _sym\n");
    assert!(matches!(&errors[0], AsmError::UnresolvedExpression { .. }));
}

#[test]
fn branch_out_of_range_error() {
    let errors = errors_of("_a:\n.space 0x100004\ncbz x0, _a\n");
    assert!(matches!(&errors[0], AsmError::BranchOutOfRange { .. }));
}

#[test]
fn cross_section_pcrel19_goes_to_linker() {
    let errors = errors_of("cbz x0, _d\n.data\n_d:\n.byte 1\n");
    match &errors[0] {
        AsmError::ObjectEmission { detail, .. } => assert_eq!(
            detail,
            "unsupported relocation kind Pcrel19: 19-bit PC-relative references are resolved within their section"
        ),
        other => panic!("expected ObjectEmission, got {other:?}"),
    }
}

#[test]
fn lex_error_message() {
    let errors = errors_of("mov x0, @\n");
    match &errors[0] {
        AsmError::LexError { detail, span } => {
            assert_eq!(detail, "unexpected character `@`");
            assert_eq!(*span, Span::new(8, 1));
        }
        other => panic!("expected LexError, got {other:?}"),
    }
}

#[test]
fn object_error_variants() {
    let mut builder = ObjectBuilder::new();
    match builder.emit_instruction(0xD503_201F) {
        Err(ObjectError::NoCurrentSection) => {}
        other => panic!("expected NoCurrentSection, got {other:?}"),
    }
    match reloc_flags(RelocKind::Pcrel19) {
        Err(e) => assert_eq!(
            e.to_string(),
            "unsupported relocation kind Pcrel19: 19-bit PC-relative references are resolved within their section"
        ),
        Ok(_) => panic!("expected an error"),
    }
}

#[test]
fn build_version_reaches_the_object() {
    let bytes = assemble(".build_version macos, 14.0\nnop\n").expect("assembly should succeed");
    // LC_BUILD_VERSION (0x32) of 24 bytes, platform macOS (1), minos 14.0 (0x000E0000)
    let lc = [0x32u8, 0, 0, 0, 24, 0, 0, 0];
    let pos = bytes.windows(8).position(|w| w == lc).expect("build version command");
    let platform = u32::from_le_bytes(bytes[pos + 8..pos + 12].try_into().unwrap());
    let minos = u32::from_le_bytes(bytes[pos + 12..pos + 16].try_into().unwrap());
    assert_eq!(platform, 1);
    assert_eq!(minos, parse_version("14.0"));
    assert_eq!(minos, 0x000E_0000);
}

#[test]
fn written_object_names_sections_and_symbols() {
    let bytes = assemble(".global _start\n_start:\n    b _start\n").expect("assembly should succeed");
    let file = object::File::parse(&*bytes).unwrap();
    let text = file.sections().find(|s| s.name() == Ok("__text")).unwrap();
    assert_eq!(text.segment_name().unwrap(), Some("__TEXT"));
    // b _start: offset 0, imm26 = 0
    assert_eq!(text.data().unwrap(), &0x1400_0000u32.to_le_bytes());
    let sym = file.symbols().find(|s| s.name() == Ok("_start")).unwrap();
    assert!(sym.is_global());
}

#[test]
fn backward_branch_patched_in_place() {
    let bytes = assemble("_top:\n    nop\n    b _top\n").expect("assembly should succeed");
    let file = object::File::parse(&*bytes).unwrap();
    let text = file.sections().find(|s| s.name() == Ok("__text")).unwrap();
    let data = text.data().unwrap();
    let b = u32::from_le_bytes(data[4..8].try_into().unwrap());
    assert_eq!(b, 0x1400_0000 | 0x03FF_FFFF);
    assert_eq!(text.relocations().count(), 0);
}

fn text_words(source: &str) -> Vec<u32> {
    let bytes = assemble(source).expect("assembly should succeed");
    let file = object::File::parse(&*bytes).unwrap();
    let text = file.sections().find(|s| s.name() == Ok("__text")).unwrap();
    assert_eq!(text.relocations().count(), 0);
    text.data().unwrap().chunks(4).map(|c| u32::from_le_bytes(c.try_into().unwrap())).collect()
}

#[test]
fn conditional_branch_backward_patched_in_place() {
    let words = text_words("_l:\n    nop\n    b.ne _l\n");
    // 19-bit field = -1 (four bytes back), condition NE = 1
    assert_eq!(words[1], 0x5400_0000 | (0x7FFFF << 5) | 1);
}

#[test]
fn adr_forward_patched_in_place() {
    let words = text_words("    adr x0, _t\n    nop\n_t:\n    nop\n");
    // distance 8: immlo = 0, immhi = 2
    assert_eq!(words[0], 0x1000_0000 | (2 << 5));
}

#[test]
fn add_with_two_operands_is_refused_for_its_count() {
    let errors = errors_of("add x0, x1\n");
    assert!(matches!(&errors[0], AsmError::WrongOperandCount { expected: 3, got: 2, .. }));
    let errors = errors_of("sub x0, x1, x2, lsl #1, x3\n");
    assert!(matches!(&errors[0], AsmError::WrongOperandCount { expected: 3, got: 5, .. }));
}

#[test]
fn parse_errors_come_before_pass_errors() {
    let errors = errors_of("mov x0, @\n.align 31\n");
    assert!(matches!(&errors[0], AsmError::LexError { .. }));
    assert!(errors.iter().any(|e| matches!(e, AsmError::InvalidAlignment { .. })));
}

#[test]
fn branch_to_another_section_goes_to_linker() {
    let bytes = assemble("b _d\n.data\n_d:\n.byte 1\n").expect("assembly should succeed");
    let file = object::File::parse(&*bytes).unwrap();
    let text = file.sections().find(|s| s.name() == Ok("__text")).unwrap();
    assert_eq!(text.data().unwrap(), &0x1400_0000u32.to_le_bytes());
    assert_eq!(text.relocations().count(), 1);
}

#[test]
fn backward_branch_is_patched_in_place() {
    let bytes = assemble("_top:\nnop\nnop\nnop\nb _top\n").expect("assembly should succeed");
    let file = object::File::parse(&*bytes).unwrap();
    let text = file.sections().find(|s| s.name() == Ok("__text")).unwrap();
    let data = text.data().unwrap();
    let word = u32::from_le_bytes([data[12], data[13], data[14], data[15]]);
    assert_eq!(word & 0x03FF_FFFF, 0x03FF_FFFD);
    assert_eq!(text.relocations().count(), 0);
}

#[test]
fn failing_instruction_leaves_a_nop() {
    let (stmts, _) = parse("add\nnop\n");
    let mut ctx = AssemblyContext::new();
    pass1(&stmts, &mut ctx);
    let errors = errors_of("add\nnop\n");
    assert!(!errors.is_empty());
    assert_eq!(ctx.section_offset("__TEXT", "__text").unwrap(), 8);
}
