# duzzy

A terminal browser of PostgreSQL databases with a modal text editor, whose core is
verified with Verus.

- `src/` is the library. Its functions are verified, but for the few that call `ropey`,
  `regex` and std string conversions, whose contracts state what those calls do:
  - `transaction`, `history`: recorded edits, their inverse, undo and redo;
  - `buffer`, `document`, `editor`, `movement`, `selection`, `search`, `keymap`,
    `command/`: the editor, its motions, commands and key bindings;
  - `renderer`: what the editor's text area shows;
  - `db/`, `config`, `conn_config`, `widgets`: connection settings, the tree of
    databases, schemas and tables, and the panes of the browser;
  - `rope`, `chars`, `text`: the text model and the calls into the `ropey` crate.
- `tests/` runs the library on concrete values.
- `app/` is the program: terminal, configuration file, database connections and the
  system clipboard.
