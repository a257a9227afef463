# ReviewBox

A keyboard-first terminal inbox for reviewing the commits of one day, with its logic written in
Verus and proved against its contracts.

## Layout

- `src/` — the verified library:
  - `app.rs`, `app_laws.rs`, `navigation.rs`, `pane.rs`: the modal state machine of the four panes
    (repositories, commits, files, diff), search, help, resizing, and the laws that every
    reachable state is normal and that modes isolate their keys.
  - `live.rs`, `loading.rs`, `keyed.rs`: the live loading state and how loader events change it.
  - `inbox.rs`, `fixture.rs`: the inbox data and the fictional demo inbox.
  - `review_state.rs`, `ordered.rs`: review marks, their state file (written and read back
    exactly), and its location.
  - `terminal.rs`: the terminal guard that acquires and restores the terminal in reverse order,
    exactly once.
  - `external_editor.rs`: choosing and splitting the editor command, and the edit workflow.
  - `day.rs`, `cli.rs`: the selected day and the command line.
  - `event.rs`, `display.rs`, `text.rs`: key translation, the texts shown, and text helpers.
- `tests/` — tests of the library.
- `app/` — the program: terminal I/O with crossterm, drawing with ratatui, files, processes and the
  event loop.

## Building and checking

The library verifies with Verus; the tests run with `cargo test`; the program is `app/main.rs`.
