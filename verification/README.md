# sattlec

The front end of `sattlec`, the compiler for the sattle SAT DSL (`.satl`
sources), written in Verus. Lexing, parsing, the tree dump and type checking
are executable functions whose results are proved equal to mathematical
definitions of those stages. Code generation is proved to make exactly the
requests of LLVM that a definition prescribes (`lower_module`); what LLVM
prints for them and whether its verifier accepts them are named, not defined.

- `src/lexer.rs`: longest-match lexing of UTF-8 bytes (`spec_lex`).
- `src/parser_spec.rs`, `src/parser.rs`: the grammar as recursive spec
  functions, and the recursive-descent parser proved to follow it.
- `src/ast.rs`: the syntax tree, its view, and the tree dump (`format_ast`).
- `src/typeck_spec.rs`, `src/typeck.rs`: the typing rules and the checker.
- `src/ir.rs`: the LLVM module under construction (inkwell's module and
  builder), seen as the sequence of requests made of it.
- `src/codegen.rs`: which modules the LLVM generator supports
  (`codegen_check`), the requests that generation makes (`lower_module`), and
  the generator itself.
- `src/span.rs`: byte offsets to 1-based line and column.
- `src/report.rs`: which dump the program prints, and the text of an error
  report.
- `src/laws.rs`: properties across stages (token order, character boundaries
  of reported positions, keyword and punctuation tokens lexing back from their
  text, structs with fields, unique names and well-formed declarations after
  type checking, no struct holding itself by value and no const reading
  itself, what code generation accepts).
- `app/`: the command-line program: reading files, printing, writing object
  files and linking with `cc`.
