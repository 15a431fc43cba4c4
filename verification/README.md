# techxt

Pieces of a converter from a LaTeX-like language to plain unicode text: the layout
engine, the template language, the definition tables and the index they are read back
through, and the arithmetic the definitions rely on. The library's own functions in `src/` carry
contracts that Verus proves; the few calls into std and into the `techy` and
`unicode-width` crates sit behind small trusted wrappers, each with a doc comment that
says what its contract claims. Two of them promise nothing about their result —
writing to a caller's writer and reading the system clock — and the writer-generic
layout entry that relays the first promises nothing of the writer either. The parse, and
the dispatch that walks a parse tree and hands each construct's rendered arguments to
its handler, are not part of this crate; what the handlers compute from those arguments
is, and so is the converter builder, with the checks it makes of its overrides.

## Layout

- `src/flow.rs`, `src/layout.rs`, `src/layout_shape.rs` — the typed token flow that
  handlers produce, and the single layout pass that turns a flow into lines: blank
  lines normalized, glue collapsed, verbatim kept byte for byte, wrapping decided once.
- `src/template.rs`, `src/template_source.rs` — the template mini-language definitions
  are written in: its parser, its validation against declared arguments, and the proof
  that parsing is stable under writing a parse back out.
- `src/def.rs` — definitions (macros, environments, specials), categories and
  definition sets.
- `src/symbols.rs` — the sorted index a definition set is read back through, with the
  shadowing rule (the last declaration of a name wins).
- `src/defs/` — the shipped categories (`defs::standard` stacks them) and what their
  handlers compute once their arguments are rendered: list markers, items and list
  blocks, heading numbers, table columns and rows, theorem, caption and title blocks,
  footnote markers, line breaks and alignment markers by context, and placeholders.
- `src/convert.rs` — the rendering options and their defaults, and the merge of a
  conversion's diagnostics.
- `src/converter.rs` — the converter builder: the definitions (the shipped ones unless
  others are given), the overrides and the parse policies a converter is built with, and
  the check of every override template when it is built.
- `src/today.rs` — the civil calendar behind `\today`, proved to be the proleptic
  Gregorian calendar.
- `src/resolve.rs` — the containment rule behind `--input-dir`.
- `src/cli.rs`, `src/diag.rs` — what the command line chooses and what a conversion
  reports.
- `app/` — the command-line program's argument parsing, file and stream I/O, and the
  filesystem half of `--input-dir`.
- `tests/` — the test suite.
