# vertex_stage0

The front end of the Vertex compiler's first stage: source spans and files,
diagnostics and their rendering, `--explain` texts, the literal scanner, and a
recursive-descent parser with error recovery for expressions, types,
statements and items.

The library under `src/` is verified with Verus. Its contracts are stated over
ghost models:

- `span`: line starts, line/column and snippets over the file's bytes;
- `error`: the accumulator (deduplicated by code, file and start; capped at
  `MAX_ERRORS`) and the exact text `render` produces;
- `lexer::scan`: what each scanning function reads at the cursor, byte by byte;
- `parser`: one spec function per grammar rule (`sp_*`), from the tokens and a
  parse state (cursor, next node id, recorded diagnostics) to the outcome and
  the next state. Each parsing method is proved to give exactly that outcome,
  with `ast::model` mapping the syntax tree to its model.

`app/` holds the command-line entry (`run`) and the conversion of scanned
float text to `f64`.
