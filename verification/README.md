# ipams_client

The desktop client of the IPAMS asset store. It takes files from a user's machine to the backend: it begins an upload for each file, sends the file in chunks, has the backend complete the upload, and keeps the tasks over restarts.

## Layout

- `src/` is the library. It decides, and keeps the state on which it decides; Verus proves every item of it.
  - `transfer/manager.rs`, `store.rs`, `registry.rs`: the tasks, which of them are paused, and which uploads can be stopped.
  - `transfer/control.rs`: pausing, resuming and cancelling, one task at a time or all at once.
  - `transfer/lifecycle.rs`, `worker.rs`, `permits.rs`, `batch.rs`, `session.rs`: one upload from start to end, the worker that carries it, the permit under which its file is sent, the batch it belongs to, and the tally of the batch.
  - `transfer/init.rs`, `reinit.rs`, `folders.rs`: beginning an upload, beginning it again, and making the folders it goes to.
  - `transfer/chunks.rs`, `upload.rs`: which chunks are sent, how many at a time, and what the answers mean.
  - `transfer/message.rs`: what is told to the clients of the local socket and to the window.
  - `transfer/laws.rs`, `folder_laws.rs`, `walk_laws.rs`: what holds of the transfers whatever is done to them, which folders are made, and which files of a folder are taken.
  - `auth.rs`, `base64.rs`, `deep_link.rs`, `ws_server.rs`, `shell.rs`, `config.rs`, `clock.rs`, `checksum.rs`, `api.rs`, `json.rs`: the rest of the client.
  - `text.rs`, `pairs.rs`, `path.rs`: texts.
- `tests/` runs the library.
- `app/` is the program round it: the window, the keyring, the disk, the network and the tasks that wait on them.

A decision changes the state at once and lists what is to be done outside as `Effect`s. `app/` does it, in order, and hands back what came of it.

## What is not proved

What the library has from other crates and from the standard library stands behind items whose contracts are believed: `serde_json` in `json.rs`, `sha2` in `checksum.rs`, `url` in `deep_link.rs`, and `String::push` and `str::from_utf8` in `text.rs` and `ws_server.rs`.
