# nme_core

The core of NME (NeedMoreEasy), a language for people who find even Python
hard: every valid Python program is already an NME program, and NME adds a
small set of easier statements, in English and Korean, that lower to one line
of Python each.

The library is written in Verus. Its functions carry `requires`/`ensures`
contracts over mathematical models (`Seq`, `Set`, spec functions), and the
properties that span functions are stated and proved as `law_*` proof
functions.

## Layout

- `src/syntax.rs` — the NME statement tree and the bundled modules.
- `src/lower.rs` — lowering statements to Python, and applying source edits.
- `src/lexer.rs` — logical lines, read with Python's own tokenizer.
- `src/convert.rs` — rewriting safe Python lines as NME, at a chosen level and
  language.
- `src/transpile.rs` — assembling the Python program from parsed NME lines, and
  taking a shared left margin off.
- `src/diagnostics.rs` — error codes, their explanations, and caret rendering.
- `src/cli.rs` — the decisions of the `nme` command line: message language,
  program names, options, and the pages it prints.
- `src/text.rs` — character, byte-offset and number helpers shared by the rest.
- `tests/` — executable tests of the library.
- `app/` — the `nme` command line: arguments, files and printing.

## Trusted code

The library calls `rustpython_parser` (its lexer and parser) and
`unicode_width`, and a few functions of `std` that Verus has no specification
for. Each such call sits in a small `#[verifier::external_body]` function
whose doc comment says what its contract claims.
