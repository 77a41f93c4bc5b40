//! The assembler: parse, pass 1, pass 2, external symbols, and the object file.

use vstd::prelude::*;
use vstd::utf8::encode_utf8;
use crate::types::error::{AsmError, AsmErrors, ErrorView};
use crate::types::span::Span;
use crate::types::statement::{Statement, StatementView};
use crate::macho::SectionIndex;
use crate::macho::builder::{spec_declare, spec_get_or_create, ObjectBuilder, ObjectView};
use crate::macho::emit::object_image;
use crate::parser::parse;
use crate::parser::statement::spec_parse;
use crate::pipeline::context::{spec_context_new, AssemblyContext, ContextView};
use crate::pipeline::pass1::{pass1, spec_pass1};
use crate::pipeline::pass2::{errors_view, pass2, pass2_start, spec_pass2, statements_wf};

verus! {

/// The object every assembly starts from: empty, with `__TEXT,__text` current.
pub open spec fn text_object() -> ObjectView {
    let empty = ObjectView {
        sections: Seq::empty(),
        symbols: Seq::empty(),
        relocations: Seq::empty(),
        current_section: None,
        subsections_via_symbols: false,
        build_version: None,
    };
    let (v, i) = spec_get_or_create(empty, "__TEXT"@, "__text"@);
    ObjectView { current_section: Some(SectionIndex(i as usize)), ..v }
}

/// Declaring, in order, every global that names no defined symbol as an external symbol.
pub open spec fn declare_undefined(obj: ObjectView, globals: Seq<Seq<char>>, ctx: ContextView) -> ObjectView
    decreases globals.len(),
{
    if globals.len() == 0 {
        obj
    } else {
        let o = declare_undefined(obj, globals.drop_last(), ctx);
        if ctx.symbols.contains_key(globals.last()) { o } else { spec_declare(o, globals.last()).0 }
    }
}

/// The context after pass 1 over the statements.
pub open spec fn pass1_result(stmts: Seq<Statement>) -> ContextView {
    spec_pass1(spec_context_new(), stmts)
}

/// The object after pass 2 and the external declarations, and pass 2's errors.
pub open spec fn pass2_result(stmts: Seq<Statement>) -> (ObjectView, Seq<ErrorView>) {
    let ctx = pass1_result(stmts);
    let st = spec_pass2(pass2_start(text_object(), Seq::empty()), ctx, stmts);
    (declare_undefined(st.obj, ctx.globals, ctx), st.errors)
}

/// All errors of an assembly: the lexer's and parser's, then pass 1's, then pass 2's.
pub open spec fn assembly_errors(parse_errors: Seq<ErrorView>, stmts: Seq<Statement>) -> Seq<ErrorView> {
    parse_errors + pass1_result(stmts).errors + pass2_result(stmts).1
}

/// Whether `stmts` are the statements the parser reads from `text`.
pub open spec fn parsed_from(stmts: Seq<Statement>, text: Seq<char>) -> bool {
    stmts.map_values(|s: Statement| s@) == spec_parse(text).0 && statements_wf(stmts)
}

/// A builder whose object is `text_object()`.
fn text_builder() -> (r: ObjectBuilder)
    ensures
        r@ == text_object(),
        r@.wf(),
{
    let mut builder = ObjectBuilder::new();
    assert(builder@.sections =~= Seq::empty());
    assert(builder@.symbols =~= Seq::empty());
    assert(builder@.relocations =~= Seq::empty());
    builder.switch_section("__TEXT", "__text");
    builder
}

/// Declare every global that names no defined symbol as an external symbol.
fn declare_undefined_globals(ctx: &AssemblyContext, builder: &mut ObjectBuilder)
    requires
        ctx.wf(),
        old(builder)@.wf(),
    ensures
        final(builder)@.wf(),
        final(builder)@ == declare_undefined(old(builder)@, ctx@.globals, ctx@),
{
    let mut i: usize = 0;
    while i < ctx.globals.len()
        invariant
            ctx.wf(),
            i <= ctx@.globals.len(),
            builder@.wf(),
            builder@ == declare_undefined(old(builder)@, ctx@.globals.take(i as int), ctx@),
        decreases ctx.globals.len() - i,
    {
        assert(ctx@.globals.take(i + 1).drop_last() == ctx@.globals.take(i as int));
        let name = ctx.globals[i].as_str();
        assert(name@ == ctx@.globals[i as int]);
        if ctx.symbol(name).is_none() {
            builder.declare_external(name);
        }
        i += 1;
    }
    assert(ctx@.globals.take(ctx@.globals.len() as int) == ctx@.globals);
}

/// Run both passes over parsed statements: the object to emit, or every error found.
pub fn build_object(statements: &Vec<Statement>, parse_errors: Vec<AsmError>) -> (r: Result<ObjectBuilder, AsmErrors>)
    requires
        statements_wf(statements@),
    ensures
        ({
            let errs = assembly_errors(errors_view(parse_errors@), statements@);
            match r {
                Ok(b) => errs.len() == 0 && b@ == pass2_result(statements@).0 && b@.wf(),
                Err(e) => errs.len() > 0 && errors_view(e.errors@) == errs,
            }
        }),
{
    let mut ctx = AssemblyContext::new();
    pass1(statements.as_slice(), &mut ctx);
    let mut builder = text_builder();
    let mut pass2_errors: Vec<AsmError> = Vec::new();
    assert(errors_view(pass2_errors@) =~= Seq::<ErrorView>::empty());
    pass2(statements.as_slice(), &ctx, &mut builder, &mut pass2_errors);
    declare_undefined_globals(&ctx, &mut builder);
    let ghost ctx_view = ctx@;
    let ghost p2 = errors_view(pass2_errors@);
    let mut all_errors = parse_errors;
    let ghost e0 = errors_view(all_errors@);
    let mut ctx_errors = ctx.errors;
    assert(errors_view(ctx_errors@) == ctx_view.errors);
    all_errors.append(&mut ctx_errors);
    let ghost e1 = errors_view(all_errors@);
    assert(e1 =~= e0 + ctx_view.errors);
    all_errors.append(&mut pass2_errors);
    assert(errors_view(all_errors@) =~= e1 + p2);
    if all_errors.len() > 0 {
        return Err(AsmErrors::new(all_errors));
    }
    Ok(builder)
}

/// Assemble ARM64 source text into Mach-O object file bytes.
///
/// Any error of the lexer, the parser or either pass fails the assembly with all of them,
/// in that order; otherwise the object is written: the bytes are the file `object_image`
/// names for the object of pass 2, and a failure of the writer comes back as a single
/// `ObjectEmission` error. The source's UTF-8 form must fit the 32-bit spans.
pub fn assemble(source: &str) -> (r: Result<Vec<u8>, AsmErrors>)
    requires
        encode_utf8(source@).len() <= u32::MAX,
    ensures
        exists|stmts: Seq<Statement>| #[trigger] parsed_from(stmts, source@) && {
            let errs = assembly_errors(spec_parse(source@).1, stmts);
            let image = object_image(pass2_result(stmts).0);
            match r {
                Ok(bytes) => errs.len() == 0 && image == Some(Ok::<Seq<u8>, Seq<char>>(bytes@)),
                Err(e) => if errs.len() > 0 {
                    errors_view(e.errors@) == errs
                } else {
                    &&& e.errors@.len() == 1
                    &&& e.errors@[0] matches AsmError::ObjectEmission { detail, span }
                    &&& span == Span { offset: 0, len: 0 }
                    &&& match image {
                        Some(Ok(_)) => false,
                        Some(Err(t)) => detail@ == "object write error: "@ + t,
                        None => true,
                    }
                },
            }
        },
{
    let (statements, parse_errors) = parse(source);
    assert(parsed_from(statements@, source@));
    let builder = match build_object(&statements, parse_errors) {
        Ok(b) => b,
        Err(e) => {
            return Err(e);
        },
    };
    match builder.finish() {
        Ok(bytes) => Ok(bytes),
        Err(e) => {
            let mut errors: Vec<AsmError> = Vec::new();
            errors.push(AsmError::ObjectEmission { detail: e.to_string(), span: Span::dummy() });
            Err(AsmErrors::new(errors))
        },
    }
}

/// The lexer's and parser's errors come first among all errors of an assembly, so any of
/// them fails it.
pub proof fn law_parse_errors_first(parse_errors: Seq<ErrorView>, stmts: Seq<Statement>)
    ensures
        assembly_errors(parse_errors, stmts).subrange(0, parse_errors.len() as int) == parse_errors,
        parse_errors.len() > 0 ==> assembly_errors(parse_errors, stmts).len() > 0,
{
    assert(assembly_errors(parse_errors, stmts).subrange(0, parse_errors.len() as int) =~= parse_errors);
}

} // verus!
