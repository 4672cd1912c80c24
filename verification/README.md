# tmux-session-switcher

A tmux window switcher: it lists the running windows, the previous window
and saved favorites, lets the user pick one in a native terminal picker (or
in fzf), and switches to it or opens a new window named after the query.

The logic is a Verus-verified library; a thin program drives it.

- `src/` — the verified library.
  - `args.rs` — the command-line grammar and its parser.
  - `tmux/` — windows, favorites and the previous window: how each is shown,
    its sort priority, the tmux command lines, and reading `list-windows`.
  - `picker/` — the native picker: query editing and selection
    (`state.rs`), key bindings (`input.rs`), fuzzy filtering with nucleo
    (`filter.rs`), themes (`theme.rs`), what each frame shows (`ui.rs`), and
    the step function that applies one key action (`mod.rs`).
  - `fzf.rs` — the command lines of the popup and of fzf, and what their
    output means.
  - `commands.rs` — favorites (add, remove, list) and the choices between
    command line and config file.
  - `text.rs`, `utils.rs` — character-level helpers and paths.
- `app/` — `main`, clap's help text, the config and JSON files, running tmux
  and fzf, and the terminal (crossterm and ratatui).
- `tests/` — tests of the library on concrete values.
