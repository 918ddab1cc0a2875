# Codex Switcher

The rules behind a desktop application that keeps several Codex accounts and switches
between them: the account store and its imports and exports, the login file of the
Codex command line, tokens and their renewal, limits and statistics, the processes that
stand in the way of a switch, and the tray menu.

- `src/` is the library. Every function there has a contract, and Verus proves it. Laws
  that span several functions are public proof functions whose names begin with `law_`.
  Calls into other crates stand behind small wrappers, in `clock.rs`, `crypto.rs`,
  `encoding.rs`, `headers.rs`, `json.rs` and `text.rs`, whose contracts are not proved.
- `tests/` runs the library.
- `app/` is the application around it: files, network, processes and the desktop shell.
