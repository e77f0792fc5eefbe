# hagitori

The core of Hagitori, a manga downloader whose sources are extension
scripts: the rules of the download engine, the extension catalog and
registry, the settings and stores, the Web APIs extension scripts call
(URL, URLSearchParams, fetch planning, TextEncoder/TextDecoder, base64,
crypto digests, HTML selection, dates) and the decisions taken while
driving Chrome through a Cloudflare challenge or a network interception.

## Layout

- `src/` — the library, written in Verus. Every function carries a
  `requires`/`ensures` contract over mathematical models (`Seq`, `Map`,
  `int`) and is proved against it. Laws that relate several functions
  are stated either in the `ensures` of the functions they are about (for
  example, what a `URLSearchParams` holds after `set`, `append` or
  `delete`, and what a stored list reads back as) or as public proof
  functions named `lemma_*` (idempotence, invariants of the state
  machines, read-after-write on the pairs). Calls into outside crates (chrono,
  base64, sha2, hmac, md-5, getrandom, url, scraper, serde_json, image)
  go through small trusted wrappers whose doc comments say what is
  claimed of them.
- `app/` — ordinary Rust around the library: the SQLite stores, reading
  extension directories, finding and driving Chrome over the DevTools
  protocol, writing pages to disk, and the serde forms of the library's
  values. The loops there perform what the library's step functions
  decide.
- `tests/` — tests of the library on concrete values.

The extension registry in `src/registry.rs` is a verified in-memory model
of the registry's rules; the registry the application runs is the SQLite
store in `app/store.rs`, which uses the same merge and catalog-record
functions.

Two parts of the application are not here. The script runtime that runs
extensions (QuickJS bindings) and the HTTP client the runtime and the
engine's HTTP path use are not available to this build: the engine takes
its HTTP client through the `PageFetcher` trait in `app/engine.rs`, and
the Web-API functions of the library (URLSearchParams, fetch planning,
HTML selection, crypto, dates) have no caller in `app/`. Chrome detection
covers Linux only.
