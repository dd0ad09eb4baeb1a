# meteorite_core

The accounts of a Matrix client: which ones there are, how they are kept on disk, and how a session
is opened, renewed and given up.

- `src/` is the library, verified with Verus. Its operations ask for what has to be done on disk,
  in the keyring and at the homeserver, one request at a time, and go on with the answers. The
  modules that end in `_laws` state and prove what holds however the requests turn out, over the
  model in `world.rs`: that an account is created whole or not at all, that a login restores what
  was saved, that a sweep spares whole accounts, that renewed tokens are in the file before the
  client is sent, and so on.
- `app/` performs the requests: files, keyring, TOML and `matrix-sdk`. The last is not named in
  `Cargo.toml`, since the library does without it and it brings hundreds of packages.
- `tests/` runs the library against a folder and a keyring in memory, with real encryption.

What is trusted, and not proved, stands in `src/vault.rs` (encryption by `age`, random text by
`rand`) and in `src/files.rs` (UTF-8 by the standard library).
