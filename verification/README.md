# Ingot

An ARM64 (AArch64) assembler for macOS: it reads `.s` assembly source and writes Mach-O
relocatable object files (`.o`) for Apple Silicon. The library is written in Verus; every
function in `src/` is verified against its contract, except the trusted wrappers around
outside code listed below.

```
ingot <input> [-o <output>]
```

## Layout

| Path | Contents |
|------|----------|
| `src/types/` | Spans, registers, operands, expressions, instructions, directives, statements, errors |
| `src/text.rs` | Character and decimal-text helpers |
| `src/lexer/` | The tokenizer: `lex_step`/`lex_from` state what each token is, `Lexer` computes it |
| `src/parser/` | Recursive-descent parser; each `parse_*` method is proved equal to a `p_*` spec function |
| `src/encode/` | Instruction encoding by group, with the exact instruction word of every form |
| `src/macho/` | The object under construction (`ObjectBuilder`), relocation flags, versions, and the writer through the `object` crate |
| `src/pipeline/` | Pass 1 (sizes and symbols), pass 2 (encoding, emission, relocations), `assemble`, and the proof that both passes agree on the layout (`layout.rs`) |
| `app/main.rs` | The command-line program: arguments, files, and `miette` diagnostics |
| `tests/` | Unit and scenario tests |

Trusted, not verified: the wrappers in `src/macho/emit.rs` around the writer of the `object`
crate, and `push_char` in `src/text.rs` around `String::push`. `src/macho/emit.rs` names what the
writer holds (`writer_sections`, `writer_symbols`, `writer_header`) and the file it writes
(`macho_image`), and states how each call changes what it holds. `ObjectBuilder::finish` and
`assemble` are proved to return the file named for the object that pass 2 built.
