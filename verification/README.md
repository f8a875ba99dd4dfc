# ryu_core

The decision logic of the Ryu node's core server, written in Verus: every
function in `src/` carries a `requires`/`ensures` contract over a mathematical
model (`Seq`, `Map`, `Multiset`, `int`). Verus proves every function but the
small trusted wrappers around outside calls (marked
`#[verifier::external_body]`), whose contracts are taken as given.

- `src/` — the verified library, one module per area of the server:
  self-API route catalogue, call resolution and loopback reply (`self_api`), conversations and their
  version trees, tenancy and visibility (`conversations`, `append`), the
  store's migration, search-backfill and listing decisions (`store`), titles and
  chat suggestions (`titles`), harness runs and their event streams
  (`harness`, `runnable`), git and workspace requests (`git`, `workspace`),
  hardware devices and their links (`hardware`), clips, canvases, dashboards,
  GIF search results, language packs, data administration, fine-tuning and the
  smaller APIs. `text`, `numbers`, `sorting` and `ids` hold the shared string,
  number, ordering and identifier helpers.
- Calls into outside crates (`serde_json`, `url`, `base64`, `uuid`, `chrono`) and
  into `std` where vstd gives no specification stand behind small trusted
  wrappers, each marked `#[verifier::external_body]` and documented with what its
  contract claims of the outside function.
- `tests/` — the library's tests, run against the compiled crate.
- `app/` — the ordinary Rust around the library: the serde shapes requests and
  replies travel in, readers from JSON documents, the loopback request plan
  of a self-API tool call, the file-system and
  environment reads (folder listing, legacy board import), and the loop that
  follows a harness run's chat stream.

Verify with Verus on `src/lib.rs`; the tests run with `cargo test`.
