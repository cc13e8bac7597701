# vedit

A small modal (vi-like) terminal text editor. The library under `src/` holds
the editor's logic, with machine-checked contracts and proofs: the buffer of lines and the cursor,
character and word motions, edits, undo and redo, search with wrap-around,
the key handling of each mode, and the layout of the screen. `app/` is the
terminal program around it: it reads and writes files, draws the screen with
crossterm, and feeds key presses to the library, doing what each key's
outcome asks (go on, quit, save).

- `src/text.rs`: character columns and UTF-8 byte positions, substring search.
- `src/editor.rs`: the editor state, its abstract view and invariant; reading
  a file's text into lines and joining them back.
- `src/motion.rs`, `src/buffer_ops.rs`: motions and edits.
- `src/history.rs`: undo and redo.
- `src/search.rs`: forward and backward search.
- `src/handlers.rs`: keys in each mode.
- `src/render.rs`: the screen rows, status line and cursor place.
- `src/laws.rs`: properties that relate the operations.
