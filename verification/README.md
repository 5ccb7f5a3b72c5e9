# limux_host

The decision core of a tabbed terminal workspace host: settings, split panes,
terminal surfaces, workspaces, notifications and the control commands that other
programs send to the window. It is written in Verus: every function states what it
returns or changes, and Verus proves that it does.

- `src/` is the library. It does no input or output and holds no widgets: it takes
  what was read or happened, and says what to write or do.
  - `app_config`, `settings_editor`: the settings document and the settings dialog.
  - `split_tree`: the panes of a workspace and their splits.
  - `terminal`: surfaces, keys, the clipboard, cursors, menus and actions.
  - `window`: workspaces, sidebar, focus, sessions, shortcuts, notifications and
    control commands.
  - `text`, `paths`, `json`, `float_bits`, `float_ops`: what the others share.
    Fractional numbers are carried as their IEEE 754 patterns, and computed with in
    integers.
- `tests/` runs the library.
- `app/` is the settings window around it, on GTK and libadwaita.

Laws that relate several functions are public proof functions named `lemma_...`,
next to what they speak of.
