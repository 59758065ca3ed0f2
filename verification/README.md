# dnf_autofire

The rules of a key assistant for DNF: auto-fire keys, one-key combos and auto-run,
per-class and custom profiles, and the configuration files that hold them.

- `src/` is the verified library. Every function states its behaviour in `requires` /
  `ensures` over models of the data (`Seq`, `Map`-like keyed sequences, spec
  functions), and Verus proves it.
  - `config/`: the file schema, defaults, validation (first error, and per-field combo
    issues), normalization, and what loading or saving a file decides.
  - `domain/`: the class table, effective keys and combos of the active profile, and
    what the profile views show.
  - `engines/`: the auto-fire state and fire schedule, combos as step lists, auto-run.
  - `runtime/`: edits of the profiles, the assistant that switches the engines, and the
    steps of a settings save that rolls back when its side effects fail.
  - `platform.rs`, `vision.rs`: hook events, the game window's class, hotkeys, and the
    pixel tests of class detection.
  - `app_config.rs`: the older single-file format and its validation.
- `app/` is the program around it: file I/O with serde, logging, a command line, and
  on Windows the keyboard hook and the loops that send keys.
- `tests/` run the library on concrete values.
