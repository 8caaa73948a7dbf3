# total_analyzer

Taint analysis of Python web handlers, with machine-checked proofs of its
contracts.

Route handlers (`@app.route`, `@app.get`, ...) take untrusted parameters;
the analysis follows that data through `+`, `%`, f-strings, calls and
assignments, stops it at sanitizers (`int`, `float`, `bindparam`), and
reports every database sink (`.execute()`, `.executemany()`, `.raw()`,
`.run_sql()`, `execute()`, `run_sql()`) that receives it; awaited calls
are not sinks. Sentinel Guard also reports every call of `encrypt`, `sign`,
`PBKDF2` or `hash`, advising hardware offload.

Layout:

- `src/syntax.rs` – a mirror of the parser's syntax tree and its verified
  reduction to the model of `src/pyast.rs` (operators, f-string parts,
  function headers).
- `src/pyast.rs` – the model of parsed Python the analysis reads.
- `src/project.rs` – the project index: modules and the function map;
  which paths are Python files.
- `src/call_graph.rs` – the call graph and its builder.
- `src/taint.rs`, `src/rules.rs` – when an expression is tainted; sources,
  sinks and sanitizers.
- `src/summary.rs`, `src/engine.rs` – function summaries and the
  fixed-point engine.
- `src/sinks.rs`, `src/lines.rs` – sink detection and line numbers.
- `src/sarif.rs` – the SARIF report.
- `src/analysis.rs` – the whole analysis of a project.
- `app/` – the command-line program: walks the project, reads files,
  parses them with ruff into the mirror, prints JSON or SARIF.
