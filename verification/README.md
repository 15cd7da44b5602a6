# saldowsd

Word-sense disambiguation with sense and context vectors, with its core
logic verified by Verus.

- `src/` — the verified library:
  - `w2v.rs`: the word2vec binary format (header, words, little-endian
    vectors), read from bytes into a `hashbrown` table; the exact outcome of a
    read is stated over a model of the format, and a file written in the
    format is proved to read back as its table.
  - `text.rs`: decimal numerals, UTF-8 decoding, number parsing and
    white-space trimming, with the specifications they are held to.
  - `wsd.rs`: the context window of a token and the senses that receive the
    first-sense prior.
  - `options.rs`: output formats and log verbosity.
  - `protocol.rs`: the initialize handshake data.
  - `server.rs`: the decisions of the server loop (next step, end-of-turn
    actions, progress reports).
- `app/` — the command-line program: argument parsing, logging, file
  reading and the floating-point scoring.
- `tests/` — tests of the library on concrete values.
