# cgrep

Local code search: BM25 ranking over a tantivy index, tree-sitter symbols,
and optional embedding reranking.

- `src/` is the verified library. Each module states its rules as Verus
  contracts: text handling and chunking, path filters and globs, scan-mode
  search, index documents and incremental-index decisions, symbol
  extraction, lookups (callers, references, dependents, definitions),
  search settings and routing, the result cache, embedding plans and the
  watch state machine.
- `tests/` exercises the library on concrete inputs.
- `app/` is the `cgrep` binary (also usable as `cg`): argument parsing,
  file and index I/O, the SQLite vector store, floating-point scoring and
  printing.
