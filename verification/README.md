# gobject_lint

A linter for GObject/C code, written in Verus: the library states in
`requires`/`ensures` what each part computes, and Verus proves it.

## Layout

- `src/` — the verified library.
  - `syntax.rs`: syntax trees as plain values, built from tree-sitter's C
    grammar (the only calls into tree-sitter stand here).
  - `parse.rs`, `declarations.rs`, `class_structs.rs`, `export_macros.rs`:
    the model of a C file (functions, calls, statements, includes, structs,
    typedefs, enums, GObject type declarations, class vfuncs, export macros).
  - `model/`: the model's types and their views.
  - `context.rs`: the project (files and their models) and queries over it.
  - `rules/`: one module per rule, each stating what it reports. The rules
    that work on the file models state it exactly; those that parse each
    function definition on its own state it for the syntax tree that the
    parse gives, which tree-sitter decides and the library does not name.
  - `scanner.rs`: runs the rules that the configuration switches on over a
    project, dropping what their ignore patterns match.
  - `ignore.rs`: ignore patterns, matched with globset.
  - `config.rs`: where the configuration file is looked for, and which rules
    and ignore patterns it gives.
  - `diagnostics.rs`: what an editor is told about a file.
  - `laws.rs`: properties that span several functions.
- `tests/` — tests of the library, run against the compiled crate.
- `app/` — the command line program and the language server: file walking,
  printing, and the LSP protocol, around the library.
