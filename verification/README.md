# bicep_docs

A documentation generator for Azure Bicep files: it parses a Bicep template
with the tree-sitter Bicep grammar into a document model (parameters, types,
functions, variables, resources, modules, outputs, imports, metadata) and
writes that model as Markdown, AsciiDoc, YAML or JSON.

## Layout

- `src/` — the library, verified with Verus.
  - `parsing/` — the syntax tree read from tree-sitter (`syntax.rs`), the
    checks that decide whether a tree can be read (`checks.rs`), and the
    parsers for each kind of declaration, each with a model of what it reads.
  - `exports/` — the Markdown and AsciiDoc writers, stated against spec
    functions that give the exact text of each section; shared formatting,
    escaping and the YAML post-processing of multiline strings.
  - `localization/` — languages, locales and translators with English
    fallback.
  - `ast.rs` — the syntax tree as the AST export tool presents it: filters,
    limits, paths, searches and counts.
  - `diff.rs` — the report of the `--check` mode.
  - `ordered_map.rs`, `text.rs` — an insertion-ordered map and text helpers.
    The map is the crate's own rather than `indexmap::IndexMap`: a Bicep
    value holds a map of values, and Verus refuses a type that recurses
    through a type declared from another crate ("recursively uses type ...
    in a non-positive position"), both for the declared `IndexMap` and for a
    struct of the crate that holds one.
- `app/` — the command line programs (`bicep-docs`, and the AST export tool
  when started as `export_ast`): arguments, files, logging, and the serde
  forms of the document for YAML and JSON.
- `tests/` — tests of the library.
