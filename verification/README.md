# lcars

The core of a media-collection server (movies, TV shows, music): parsing
release names, naming files, merging and scoring indexer results, reading
indexer pages, Soulseek search and share bookkeeping, storage rules, and
the checks and answers of the HTTP API. The library in `src/` is verified
with Verus: its functions carry contracts that Verus proves, except the
small trusted wrappers around outside crates, whose contracts are taken
on trust and say so in their doc comments.

- `src/` — the verified library.
  - `text.rs`, `number.rs`: character and number handling with exact specs.
  - `regexes.rs`, `net.rs`, `scrape.rs`, `tmdb.rs`, `providers.rs`,
    `indexer.rs`, `auth.rs`: the calls into `regex`, `url`, `scraper`,
    `reqwest`, `sha2`, `hex`, `urlencoding` and `argon2`, each behind a small
    trusted wrapper, and the logic around them.
  - `parser.rs`, `naming.rs`, `storage.rs`, `soulseek.rs`, `models.rs`,
    `config.rs`, `error.rs`, `auth.rs`, `views.rs`, `api/`: the domain.
- `tests/` — tests of the library, run against the real outside crates.
- `app/` — the server binary: configuration, database, the health,
  login and user-administration routes, signing and checking tokens, file
  operations, HTTP requests to indexers and TMDB, and the few computations
  that use floating point. The other endpoints' checks and decisions are in
  the library; their handlers are not wired into the binary.
