# felix

A terminal file manager with vim-like key mapping. The library under `src/`
holds its logic, verified with Verus; `app/` is the `fx` program around it
(terminal, file system, processes).

- `keymap`: key chords, the default bindings, user bindings, how the keys
  pressed so far resolve to an action, and the key loop's state (pending keys,
  the register key after `"`).
- `cursor`: moving the cursor and scrolling the list.
- `state`: items, registers (unnamed, yank, numbered, named), the footer and
  headline texts, directory changes with remembered cursor positions, search.
- `arrange`: the order of the listing (directories first, by name or time,
  hidden items left out).
- `op`: the undo/redo history.
- `dispatch`: what each action does to the state, and the outside work
  (files, processes, prompts) it leaves to the program.
- `line_edit`: the line editor of the prompts (cursor, typing, deleting).
- `command`: what a line typed after `:` asks for.
- `preview`: items from directory entries, and what preview an item gets.
- `functions`: sizes, times, permissions, renaming put items, wrapping text.
- `layout`, `jumplist`, `magic_image`, `magicbytes`, `magic_packed`, `term`,
  `errors`, `config`, `session`: the screen layout, the jump list, file
  signatures and unpacking, terminal positions, errors and settings.
