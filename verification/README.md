# raion

A compiler for the rin language and its assembly, rasm, and a small register
machine with its own assembler, written in Verus: each function states what it
computes in a contract, and Verus proves the code against it.

## Layout

- `src/lexer.rs`, `src/lexer/`: the lexers of rin and rasm, specified byte by
  byte over the source text.
- `src/compiler/`: the rin parser (`rin_compiler.rs`), the code generator that
  turns a rin syntax tree into rasm (`rin_compiler/generator*`), and the rasm
  assembler (`asm_compiler.rs`, `argument_parser.rs`).
- `src/manager.rs`: compiling a package of rin files, or a single file.
- `src/error.rs`: the coloured error messages that quote the source line.
- `src/vm/`: the register machine: its tokens, lexer and assembler, memory,
  register file, instruction decoding and execution.
- `src/hash.rs`: procedure names hashed with xxh3, the one call into
  `xxhash-rust`.
- `app/`: the `raion` command: reading packages and files, writing output and
  running the machine.
- `tests/`: tests of the library on concrete inputs.

The laws that span several functions are the public proof functions whose
names start with `law_`.
