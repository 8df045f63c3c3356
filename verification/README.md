# miogenes

The verified core of Miogenes, a self-hosted music server with desktop, mobile
and web clients. The library holds the rules of the server and the clients:
where a user's files may go and how folders are listed, the errors each request
is answered with, how uploaded metadata is merged and catalogued, the queues and
decoders of the players, the replay buffer behind seekable streams, the
fill-once scrollback buffer, token and header handling, and the playlist
scraper's filtering. Every function in `src/` carries a contract that Verus
proves; the few calls into `uuid`, `base64`, `sha2`, `path-absolutize` and
`sanitize-filename` stand behind small trusted wrappers whose contracts say
what those crates' sources show.

Layout:

- `src/` — the library, one module per concern; `src/laws.rs` states the
  properties that span several functions.
- `tests/` — tests on concrete values, run against the compiled library.
- `app/` — the file system, environment and JSON edges around the library.
