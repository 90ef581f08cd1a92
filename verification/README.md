# clipdeck

A Linux clipboard history manager. A daemon watches the clipboard (X11, or
Wayland through `wlr-data-control`), stores every capture in SQLite with
full-text search, pastes old clips back into the focused window, and answers
a small JSON protocol over a Unix socket.

The project is written in Verus: the library under `src/` is verified
against its `requires`/`ensures` contracts, and `app/` is the ordinary Rust
daemon around it.

## Layout

- `src/` — the verified library
  - `text`, `json`: character-level helpers and the JSON values the library
    inspects
  - `models`, `errors`, `mime`, `hashing`, `config`, `search`: the data model,
    MIME normalization, content hashing and dedup keys, settings and their
    key/value storage form, query parsing
  - `ingest`: normalize, rule-filter, dedup and persist a capture
  - `commands`: the IPC command handler, the capture pause switch, the
    retention pass and startup hotkey registration
  - `fts`, `retention`, `store`: search filtering, pruning bounds, store errors
  - `x11`, `wayland`, `focus`, `paste`, `clipboard`, `diagnostics`, `daemon`:
    the display-server adapters over narrow connection traits; `keymap`:
    key bindings to X11 keycodes
  - `hotkeys`, `gsettings_hotkey`: binding parsing, key codes, GNOME custom
    keybinding registration
  - `protocol`, `server`, `client`, `auth`, `ui`: the wire model, per-line
    server decisions, client errors, the peer check, tray decisions
  - `services`: the store/backend/event seams the daemon logic runs against
- `tests/` — tests of the library, with in-memory stand-ins for the store,
  the connections and the hotkey mechanisms
- `app/` — the daemon: SQLite store, real X11/Wayland connections, global
  hotkeys, the socket server, and the JSON wire format

Each seam trait (`Store`, `Backend`, `EventPublisher`, `X11Connection`,
`WaylandConnection`, `GSettingsRunner`, `HotkeyBackend`, `ClipIndex`, `BlobSink`) has a
ghost record of the calls made on it with what each handed back (`calls`,
`published`, `attempts`, `writes`), and every method's `ensures` appends its own call.
A paste's blob reads (`BlobSource`) go into its X11 connection's record.
The daemon functions state the whole protocol over those records
(`ingested`, `handled`, `pasted`, `registered`, `searched`, ...), so their
contracts bind the calls they actually make. The store also models its
active clips by content key (`active`), and the search index the clips it
holds (`held`), so that dedup on re-copy and the blank-query listing are
stated over state and not only over calls. Implementations written outside
the verified library (the tests' stand-ins, the daemon's SQLite store and
real connections) cannot keep a ghost record; they are trusted to behave as
the trait contracts say.

## Running

```sh
clipdeck                   # start the daemon
clipdeck --trigger-hotkey  # ask a running daemon to open the popup
```

`CLIPDECK_TEST_HOME` relocates the config, data and cache directories.
