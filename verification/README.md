# siamesedb

The verified core of a key-value file database.

- `src/filedb/dbmap/` — the key types `DbInt` and `DbString` (byte strings with
  an eight-byte signature, their conversions and their text), the
  lexicographic order of byte keys with its laws, and the map handles.
- `src/filedb/histogram.rs` — the sorted `(value, count)` histograms behind
  `RecordSizeStats` and `KeysCountStats`, with the laws of counting.
- `src/filedb/inner.rs` — `FileDb`, the registry of named maps of each kind;
  making a new map runs a creation step given by the caller, whose error is
  passed on.
- `src/text.rs` — decimal and quoted text.
- `app/` — the file-system side: making the database directory, making room
  for new maps, and syncing it.
