# cmux-beads

The Beads (`bd` CLI) board for the cmux right sidebar, with its logic
verified by Verus.

- `src/` is the verified library: the bead model and every `bd` argv, the
  board (filter, sort, kanban columns, status choices), the TUI as a state
  machine (`app`, `keys`, `form`), the text of every screen (`ui`), the
  projection of issues into cmux `bead:<id>` status pills (`project`,
  `sync`), argument parsing (`cli`), live panes and assignees (`sessions`),
  and the JSON model (`json`, `text`). Each public function states its
  result in `ensures`; the laws of the library are public proof functions
  named `law_*`.
- `app/` is the program around it: the terminal, drawing with ratatui, the
  `bd` and `cmux` processes, the cmux socket, and the serde copies of the
  library's types. It performs the effects that the library's state
  machine asks for and hands back what came of them.
- `tests/` runs the library on concrete values.

A sync or clear pass reaches `cmux` and `bd` only through a `HostLink`
(`host.rs`), which holds the host and the issue loader privately and logs
every call it makes or prints, and when the loader ran. The contracts of
`apply_plan`, `sync_beads`, `sync_once` and `clear_once` speak of that log:
the argv sent or printed, in order, the replies, and when `bd` was loaded.
