# musicbrainz-feeder

MusicBrainz identity cards (album / artist) for a MetaMesh gateway, as a
verified library and a thin binary around it.

- `src/` is the library, verified with [Verus](https://github.com/verus-lang/verus).
  It holds the card model, the projection of a card to a wire record, the
  reading of MusicBrainz and ListenBrainz answers, ranking and genre picking,
  and the decisions of the plugin: what to ask upstream for a query, and what
  to answer. Every public function says in its contract what it returns, but
  for `Resolver::new`, whose result holds nothing to tell of; the public proof
  functions state what holds across them (`record_laws.rs`, `client_laws.rs`,
  and the last section of most modules).
- `app/` is the binary: HTTP, the request budgets, the cache, and the gateway's
  plugin trait, through `meta-feeder-sdk`.
- `tests/` runs the library on concrete values.

What is believed and not proved is small, and each item says so where it
stands: `String::push` in `text.rs`, `char::to_uppercase` and
`char::is_alphanumeric` in `genres.rs`, and reading JSON text with `serde_json`
in `json.rs`.
