# upmd

Verified logic of a runner for Markdown runbooks: documents are shown in the
terminal, and their code blocks run in dependency order.

- `src/scheduler/` plans blocks by their dependencies and drives a plan.
- `src/cli/` and `src/tui/app/` are the states of the two front ends: they take
  events and messages of running blocks, and say what has to be done next.
- `src/tui/markdown/` turns a document into lines, `src/tui/preview/` lays the
  lines out, scrolls, searches and selects.
- `src/tui/` holds the dialogs, the menu and the output pane.
- `src/theme.rs`, `src/theme_library.rs` and `src/highlight.rs` give themes their
  colors and highlight code with syntect.
- `app/` is ordinary Rust around the library: settings on disk, key bindings,
  drawing, images, and the loops of both front ends.

Contracts are stated over sequences, maps and views of the types. Functions whose
names start with `law_` state properties that relate several functions.
