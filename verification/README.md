# johnbox

The rules of a self-hosted server for party games, written in Rust and proved
with Verus.

- `src/` is the library. Every function there has a contract that is proved, or,
  where it calls another crate, states what is relied on.
  - `serve` answers requests that no other route takes; `query` takes the `s`
    parameters out of a query, and `target` reads paths and queries.
  - `token` writes and reads the secrets of clients.
  - `client` decides what is sent to a client and when its socket is given up.
  - `room` copies what is announced of a room and closes its sockets.
  - `code` and `entropy` make room codes and random bytes.
  - `config` checks TLS against the ports and lists what is listened on.
  - `text` has what the others need of strings.
- `tests/` runs the library.
- `app/` is the server around it: sockets, files and configuration.
