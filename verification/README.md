# memora

The verified core of a clipboard manager, written in Verus.

- `src/text.rs`: character-level operations (trimming, splitting on white
  space, lines, joining, searching, replacing), each proved against a spec
  function over `Seq<char>`.
- `src/search.rs`: search query parsing, device name normalisation, and the
  URL and source-code heuristics.
- `src/clipboard.rs`: classification of captured text and content hashing
  (SHA-256 via `sha2`, hex via `hex`).
- `src/sync/auth.rs`: sessions built from auth replies, their expiry, and the
  settings writes that store and forget them.
- `src/sync/config.rs`: the backend endpoints derived from a project URL.
- `src/macos_popover.rs`, `src/macos_quick_paste.rs`: the window flags of the
  menubar popover and the decisions of the quick-paste panel setup.
- `app/`: the desktop shell (SQLite settings table, serde, environment,
  Tauri windows).
- `tests/`: runtime tests of the library.
