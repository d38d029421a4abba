# file_transfer

A command-line tool to move files through a server: `send --file PATH` uploads
a file and prints a secret code, `get --secret CODE` downloads it into
`~/Downloads` under the sent file's own name (the last component of the
path given to `--file`), and `server` runs the server, which
keeps every stored file encrypted (XChaCha20-Poly1305 under a key derived with
Argon2i from the file's secret) and its records in MongoDB.

Layout:

- `src/` — the verified library (Verus):
  - `crypto.rs` — at-rest encryption of stored files, chunk by chunk, and the
    proof that decrypting an encrypted file gives it back;
  - `stream.rs` — the chunk plan in which files travel over the wire;
  - `messages.rs` — the protocol messages and their newline framing;
  - `server.rs` — the server's per-connection decisions, the order of what a
    download sends, and secret generation;
  - `client.rs` — the decisions of the sending and the fetching client;
  - `protocol.rs` — properties that span the server and the clients.
- `app/` — the program around it: command line, sockets (tokio), JSON (serde),
  MongoDB, and the file system.
- `tests/` — tests of the library.
