# tokenpress

A token-minimizing source formatter for Python, JavaScript/TypeScript, Go,
Java and C#, written as a Verus library with a thin command-line program
around it.

- `src/` — the verified library.
  - `engine/` — the grammar-independent core of the tree-sitter backends:
    the flattened syntax tree, the comment policy that marks what must be
    kept, the whitespace rewriter, and the re-parse and equivalence checks.
  - `go/`, `java/`, `csharp/` — each language's comment policy, path set and
    external check; `js/` — the oxc-based JavaScript/TypeScript backend;
    `python/` — the token passes, the renderer and the token comparison of
    the Python backend.
  - `cli.rs`, `config.rs` — what the command line decides: configuration
    merging, dispatch, warnings, reports and exit codes.
  - What a tree-sitter grammar or oxc makes of a source is a named function
    of the source (`go_syntax`, `java_syntax`, `csharp_syntax`, `oxc_parse`,
    `oxc_codegen`), so each backend's contract speaks of the parser's own
    result: when formatting succeeds, and what it produces.
  - The external checks (`gofmt`, `javac`, `tsc`/`node`, `csc`) reach the
    machine through the `Tools` and `CscTools` seams. Each seam method's
    result is one of the answers its implementation may give, so a check's
    contract says which files it asked about, with which program and
    arguments, and what it concluded from the answers.
- `tests/` — the library's tests.
- `app/` — the program: argument parsing, the configuration file, file and
  process I/O, and the Python parser.
