# zscheme (verified core)

The command-line front end of zscheme, the Scheme dialect of the ma actor
network, with its decision logic written in Verus and proved against its
contracts.

- `src/` — the verified library:
  - `text` — Unicode whitespace, trimming, searching, decimal rendering;
  - `executor`, `scheme` — shebang stripping and whole-line dot commands;
  - `value`, `cbor`, `context` — Scheme values and CBOR terms, actor
    messages and replies, dot-path lookups, actor strings, the Kubo URL;
  - `message` — signed inbox messages: sender URL, content framing,
    signature, reply routing;
  - `ipc`, `daemon`, `client` — the daemon protocol: messages, framing,
    request handling, claiming the socket, reaching (and spawning) the
    daemon, the client's session;
  - `repl` — multi-line input handling;
  - `publish`, `bundle` — the daily DID pin name and the canonical
    creation time of a secret bundle.
- `app/` — the program around it: sockets, processes, the terminal, the
  evaluator and the actor transport.
- `tests/` — tests of the library on concrete values.
