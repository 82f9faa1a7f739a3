# fm_core

The core of a two-panel file manager, written in Verus. The functions in
`src/` carry contracts that Verus proves, with one exception: the small
wrappers marked `#[verifier::external_body]` that make a single call into
the standard library (path operations, case mapping, lossy UTF-8 and UTF-16
decoding, string appends, sending on a channel). Their contracts restate
what the standard library documents and are trusted, not proved; the
uninterpreted spec functions beside them name what those calls return.

## Layout

- `src/` — the verified library.
  - `types` — the shared data shapes (panels, entries, listings, prompts,
    preferences).
  - `text`, `paths` — character-level helpers and the path operations the
    rest is stated over.
  - `fs` — sorting and assembling listings, names for new and renamed
    entries; `fs::watch` classifies what happened to a panel's directory and
    where the panel goes; `fs::service` decides when a watched panel is due,
    what to watch and how a re-read lands.
  - `nav`, `nav::search` — the cursor and selection state machine and quick
    search.
  - `intents` — what a navigation, copy, move or delete request comes to.
  - `ops` — destination resolution and the bookkeeping of a copy or move;
    `registry` — the table of running operations.
  - `open`, `filetype` — how an entry is opened and how it is classified.
  - `view` — sniffing (`probe`), text codecs (`codec`), the editor's line
    endings and saves (`edit`), the viewer's page layout, hex dump and
    search (`page`, `hex`, `find`), and the paging and search-window
    decisions of a viewer session (`session`).
  - `terminal` — the command line, its scrollback, its history and how
    recall walks it.
  - `keys`, `actions`, `config`, `help` — key chords, the action catalog,
    the default keymap and the help book.
  - `state` — the application state, preferences and the folder-size cache.
- `tests/` — tests against the library's public interface.
- `app/` — the host around the library: configuration and history files,
  directory reads, the copy and move walk, viewer and editor sessions over
  open files, directory watching, running commands, and the command
  handlers. It asks the library for every decision and performs the I/O.
