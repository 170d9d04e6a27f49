# held

A terminal text editor for DragonOS and Linux, with its editing core verified by Verus.

- `src/` is the library. Verus proves each of its functions against its contract, but for one
  that counts grapheme clusters with `unicode-segmentation` (`view/render/render_buffer.rs`),
  whose contract is taken on trust:
  - `utils/buffer.rs`: the text as lines with markers (flagged, locked), and the edits on it.
  - `utils/cursor.rs`: the cursor and the terminal commands each move issues.
  - `utils/ui/`: the screen (`uicore.rs`), the keys shared by the modes (`event.rs`), the
    modes themselves (`mode/`), and a history of edits (`undotree.rs`).
  - `utils/undotree.rs`, `utils/reg.rs`, `utils/input.rs`: an edit history, the yank
    register, and the decoding of key bytes.
  - `view/`: scrolling, line numbers, colors, and the grid of cells drawn on the screen.
- The prefix column left of the text holds a `~` marker per line, in the color of its flags
  (cyan when flagged, dark red when locked); `CursorCrtl::update_line_prefix` can widen it to
  hold line numbers too.
- `app/main.rs` runs the editor on a terminal: it reads the file, hands each key to the mode
  the editor is in, carries out the terminal commands the library answers with, and writes the
  file back on `:wq`.
- `tests/` runs the library on concrete screens and texts.

The library does no input or output itself: every drawing step is returned as a
`CursorAction`, so its contracts can say exactly what is drawn. A redraw is first asked for as
`Render` or `Highlight`; `UiCore::render_actions` and `UiCore::highlight_actions` then give the
moves and bytes that draw it from the buffer as it stands.
