# pathos

An interactive narrative engine whose core is verified with Verus.

## Layout

- `src/` — the verified library.
  - `value.rs`, `state.rs` — values, dotted paths, the story state and its
    scopes; laws on what a read gives back of a write.
  - `expression.rs`, `expr_parser.rs` — the condition language: its meaning
    (`eval_spec`), its evaluator, its tokenizer and parser.
  - `inline.rs`, `pathos_parser.rs`, `toml_parser.rs`, `format.rs` — the
    story formats: the inline grammar of passage bodies, the `.pathos` and
    `.toml` files, and the registry that picks a parser by extension.
  - `checks.rs` — the `.pathos` checks of the functions that conditions
    call and of the languages of scripts and hooks.
  - `passage.rs`, `hook.rs`, `macros.rs`, `runtime.rs` — the passage graph,
    hooks, macros and the narrative runtime (rendering a passage, choices,
    the navigation state machine that hands out hook and passage scripts,
    and the drivers that run them, follow `game_goto`, start the story and
    act on the player's choice).
  - `script.rs` — script languages, the script engine (the language check,
    the mapping from how a run ended to its value or signal, the metadata
    kept out of a script's reach) and the state operations that scripts
    call, which refuse to write the metadata.
  - `render.rs`, `tui.rs`, `report.rs` — render backends' shared model, the
    terminal screen's state and decisions, and the `check` report.
  - `text.rs` — character-level string utilities and the few calls into std
    that the proofs take on trust.
- `tests/` — tests of the library.
- `app/` — the command line: reading files, decoding YAML and TOML with
  serde, the Rhai language engine behind `ScriptRunner`, drawing with
  Ratatui.

Floating-point arithmetic is not done in the library: values hold the bit
patterns of `f64`s, and the caller supplies the arithmetic (`FloatArith`).
