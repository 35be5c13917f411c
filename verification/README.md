# kanban_desktop

The decisions of a desktop kanban board, verified with Verus, and a thin
application around them.

- `src/` decides. It has no I/O: where the outside world is needed, a value of
  the library waits for the answer to one request at a time (`save`, `external`,
  `keep`), or a function takes what was seen and gives back what to do
  (`window`).
  - `text`, `location`: names and paths.
  - `board`: what a board's JSON says about its size (read by `serde_json`).
  - `history`: the list of snapshots, at most fifty, oldest first. A file goes
    with the last snapshot that has it.
  - `files`: requests and replies, and the replacement of a file.
  - `save`, `load`: saving a snapshot and reading boards back.
  - `external`, `keep`: a file that the user chose, and the window's place.
  - `geometry`, `window`: the window in its two modes.
  - `disk`, `save_laws`, `history_laws`, `window_laws`: what holds of all that,
    over a model of the disk, over many snapshots, and from one decision to the
    next.
- `app/` acts: Tauri commands, the file system, the window, and the JSON forms
  of the library's types.
- `tests/` runs the library on a disk in memory.
