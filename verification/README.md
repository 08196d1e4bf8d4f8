# Flow Notes

The verified core of Flow Notes, a local-first notes utility: notes and
settings kept in SQLite, reminders, JSON backups and the decisions of the
desktop shell. Each function states its behaviour in a Verus contract.

## Layout

- `src/` — the library, verified with Verus.
  - `text.rs`: Unicode trimming, text order, string helpers.
  - `settings.rs`: setting keys, defaults, flags, validation, reading and
    filling in settings.
  - `clock.rs`: RFC 3339 times through chrono, the system clock (an error,
    not a panic, when it cannot be read), reminder normalization, when
    an automatic backup is due.
  - `notes.rs`: note, backup note and row types, backup validation, the
    import merge and its laws.
  - `db.rs`: the SQLite statements through rusqlite and the model of what the
    store holds.
  - `store.rs`: schema setup and migration, settings, note operations, due
    reminders, imports.
  - `backup.rs`: backup file names, the backup folder, pruning, automatic
    backup snapshots.
  - `reminders.rs`: the pending-clear set of reminder rounds.
  - `desktop.rs`: window, menu, autostart, shortcut and folder decisions.
- `tests/` — tests of the library on concrete values.
- `app/` — the Tauri shell: windows, tray, notifications, timers, files and
  JSON, calling the library.

## Errors

Functions that reach SQLite return rusqlite's message for a failed call. The
library's own messages (such as `Note not found`) are listed in
`store::is_own_message`; a SQLite message that happens to read like one of
them is given with `sqlite: ` in front, so that the contracts can say which
errors valid input never meets.

## Outside crates

`chrono` parses and writes RFC 3339 times and gives local time; `rusqlite`
is the store; `uuid` builds note ids. Their random bytes come from
`getrandom` directly: `uuid::Uuid::new_v4` draws them from `getrandom` too,
but panics when the operating system's random source fails, while
`getrandom::fill` reports the failure, which the library turns into an error.
`serde` and `serde_json` serve `app/`, which reads and writes the JSON files.
