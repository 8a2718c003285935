# playlist_sync

Keeps a local copy of a YouTube Music playlist: a folder with a SQLite
database, the tracks' audio files and thumbnails, and an `.m3a` export.

- `src/` is the verified library (Verus): the folder layout, the database
  ownership check, the sync plan and the rows a sync stores, the `.m3a`
  text, the error type and the colour theme.
- `app/` is the command-line program around it (`init`, `sync`,
  `write-to-m3a`): SQLite, HTTP downloads and the file system.
- `tests/` runs the library on concrete values.
