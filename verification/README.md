# unitrait

The logic of the `unitrait!` procedural macro, verified with Verus: a trait with a single,
link-time global implementation. The macro reads a trait, its dispatch type and the name of
its implementation macro, and generates the trait, the dispatch type calling the
implementation through `extern "Rust"` symbols, the opaque structs standing for opaque
associated types, and the implementation macro exporting every symbol.

Layout:

- `src/tokens.rs`, `src/syntax.rs`: token trees and what `syn` says of their text.
- `src/attrs.rs`, `src/bounds.rs`, `src/input.rs`: the input grammar. Each parser is
  specified by a function of the input tokens giving what it reads or its first error.
- `src/shape.rs`: how each method parameter and return type uses opaque associated types.
- `src/render.rs`, `src/bridge.rs`, `src/template.rs`, `src/expand.rs`: the generated items,
  specified token tree by token tree.
- `src/laws.rs`: properties of every parsed input and every expansion, such as the symbols the
  defining side links to being exactly those the implementation macro exports.
- `app/`: the procedural macro entry point, converting between `proc_macro2` token streams and
  the library's token trees.
