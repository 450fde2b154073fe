# maccy_kde

A keyboard-first clipboard history manager for KDE Plasma on Wayland, with its
core written in Verus and proved against its contracts.

## Layout

- `src/` — the verified library.
  - `database.rs`, `database_laws.rs` — the history store: rows, de-duplication
    of copied text, rotation to 200 rows (pinned rows are never dropped),
    pinning, deletion, the listing order, and the laws that hold across them.
  - `domain/` — clipboard items, categories (URL, e-mail, account, picture,
    other), hashing for de-duplication, the rotation rule, and the repository
    interface.
  - `application/` — item management, the clipboard watcher's decisions, the
    daemon service, category filters, fuzzy search with `@category` tags, and
    what the popup lists.
  - `presentation/` — view models, the popup's state and its service.
  - `cli/` — the command-line interface.
  - `integration/`, `infrastructure/` — the store served through the
    repository interface.
  - `clipboard.rs`, `gui_model.rs`, `ipc.rs`, `paths.rs`, `bootstrap.rs`, `hotkey.rs` —
    classification of copied bytes (images decoded and stored as PNG), the menu's entries and filter, the daemon's
    request handling, file locations and start-up modes, and the hotkey's one-time registration.
- `tests/` — tests of the library.
- `app/` — the program: SQLite persistence, the Wayland clipboard listener,
  the Unix-socket server, pasting, autostart entries and a terminal menu.

The history is modelled in the library as an ordered list of rows with the
rules that decide it: which rows the listing shows and in what order (pinned
rows by pin order, then the most recently used; rows used at the same moment
in the order they were added), which rows rotation drops, and how identifiers are
handed out. SQLite only keeps that list between runs: the program loads the
rows at start and writes them back after each change, and refuses a stored
history that breaks those rules instead of overwriting it.

Outside crates (regex, fuzzy-matcher, chrono, image, rusqlite, std) are reached from
`src/` through small trusted wrappers whose contracts say what the library
relies on.
