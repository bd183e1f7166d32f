# mote

A lightweight workspace for documents, notes, tasks and projects, stored as
markdown files beside an SQLite index.

- `src/` — the library, verified with Verus: the item model and its stored
  names, file layout and slugs, titles of imported files, updates and
  reordering of siblings, the database row format and search quoting, path
  containment, backup and restore decisions, markdown rendering, and the
  rules behind the views (tree order and drop zones, task lists, counts
  and when progress shows, editor toolbar, slash-command palette and view
  modes, browser tabs and history, file tabs).
- `tests/` — tests of the library on concrete values.
- `app/` — the desktop program: Dioxus views, SQLite, the file system, zip
  archives, JSON export and git, calling the library for its decisions.
