# Vitamins

Vitamins is a Ruby-like document language that compiles to LaTeX. This crate
is its compiler, written and proved with Verus: every function of the library
states its result exactly, over mathematical models of the text it reads and
writes. The readers of blocks also state where they stop, on success and on
error.

```vitamins
paper "A Tiny Note" do
  author "Ada Lovelace"
  use math
  define norm(x) "\\left\\lVert #1 \\right\\rVert"
  section "A theorem" do
    equation do
      norm(exp(i * pi) + 1) == 0
    end
  end
end
```

## Layout

- `src/text.rs`, `src/scan.rs`: characters, trimming, searching, and the
  scanners for brackets, commas, identifiers and words.
- `src/lex.rs`, `src/inline.rs`: string literals, statement headers, options,
  macro definitions and inline content.
- `src/parser.rs`: the line-oriented parser; `parse` is exact against
  `spec_parse`.
- `src/math.rs`: math rendering (block operators, calls, macros, tokens).
- `src/features.rs`, `src/emit.rs`: which packages a document needs, and the
  LaTeX it becomes; `compile_to_latex` in `src/lib.rs` ties the two halves.
- `src/diagnostic.rs`, `src/located.rs`: errors, and the proof that each one
  names a line of the source.
- `src/shape.rs`: the proof that a parsed document is well formed (macro
  names and parameters, section levels, table rules).
- `src/laws.rs`: properties of the compiler as a whole.
- `src/cli.rs`: what the command-line arguments ask for.
- `app/main.rs`: the `vitamins` program, which reads and writes the files.
