# senbonzakura

A compiler for Senbonzakura, a small indentation-sensitive language with data
types, typeclasses and generics, to Python.

- `src/` is the verified library: source handling (`source`, `text`), the
  lexer (`token`, `lexer`), the parser (`ast`, `ast_clone`, `parser`, `expr_parser`,
  `stmt_parser`, `block_parser`, with its specification in `stmt_spec` and
  `parsed_imports`), the
  type checker (`types`, `environment`, `check_spec`, `checker`, `synth`,
  `check_stmts`, `check_defs`, `imports`), the Python emitter (`emit_spec`,
  `emitter`, with `round_trip` relating its string literals to the lexer), multi-file compilation (`paths`, `compiler`) and the logic of the
  editor server (`ide`). Each stage's result is stated by a specification
  function over the views of its inputs.
- `app/` is the command line (`compile`, `check`, `run`, `lsp`): reading
  files, resolving imports on disk, running Python and the language server.
- `tests/` runs the library on concrete programs.
