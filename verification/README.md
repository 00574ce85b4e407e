# simsync

The verified core of a set of desktop tools for managing game mods:

- a peer-to-peer sync tool (`src/simsync/`): sessions and peers, sync plans,
  conflict resolution, running a plan step by step, mod profiles, scanning rules;
- a multi-game mod manager (`src/synccrate/`): the game registry, game folders and
  the user's library, add-on pack lists and detection, mod compatibility, backups
  (labels, pruning, restoring);
- mod installation decisions shared by both (`src/install.rs`, `src/simshare.rs`).

`src/` is checked by Verus: each public function states its result in its
contract, and the properties that span functions are proved as lemmas. Shared
helpers live in `src/text.rs` (strings), `src/paths.rs` (paths),
`src/digest.rs` (content hashes), `src/order.rs` (newest-first ordering) and
`src/unique.rs` (one record per key).

Paths are read as on Windows, the tools' main platform: `/` and `\` both separate
components, and a path is absolute when it starts with a drive and a separator
(`C:\`) or with two separators (`\\server\share`); one that starts with a single
separator is rooted but not absolute.
The library writes `/` when it joins paths, which Windows accepts as well.

`app/` is ordinary Rust around the library: file-system work, JSON files, the
clock, the folder watcher and the command entry points. It hands plain values to
the library and acts on what comes back; what it decides itself is how to reach
the file system (walking folders, copying, deleting).

`tests/` runs the library on concrete values.
