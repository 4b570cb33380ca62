# dook

Definition lookup in source code: find where a name is defined with
tree-sitter queries over the files that ripgrep lists, and print each
definition with the context that explains it (decorators, comments, the
headers of the enclosing class or function).

The library in `src/` is written in Verus and its logic is verified against
its contracts. The small wrappers around tree-sitter, regex, heck,
hyperpolyglot, the hashing crates and a few std functions are trusted: their
contracts state what those crates document and are assumed, not proved.
`app/` holds the command-line program:
argument parsing, file and process I/O, the pager and bat, and the loops that
perform what the library's state machines ask for.

Layout of `src/`:

- `range_union.rs`: sets of line ranges, merged and walked in order.
- `config.rs`: per-language query configs, their file formats, and how an
  extending config is rebased on the one it extends.
- `query_compiler.rs`: compiling a language's queries, with its cache and its
  fall-back to a parent language, as a state machine.
- `searches.rs`, `main_search.rs`: finding definitions, names and embedded
  fragments in a parsed file, and searching a file fragment by fragment.
- `loader.rs`: the steps of fetching and building a grammar (git checkouts,
  tarballs, `tree-sitter generate`), as state machines.
- `cli.rs`: the decisions a run makes from its options, including the
  patterns of each round of a recursive lookup.
- `syntax.rs`, `pattern.rs`: the calls into tree-sitter and regex, with what
  is assumed of them.
