# rust_engineering_domain

The domain model of a Rust engineering service: analyzer positions and edits,
jobs and their budgets, tool options (check, clippy, nextest, coverage, miri,
mutation testing, bloat), quality gates and artifacts, security policy and
advisory audits, benchmark datasets and their comparison, and the crate
catalog. Every type validates its own invariants and every public function
states what it returns in a Verus contract.

Layout:

- `src/` — the library, verified by Verus. Each module states its model as
  spec functions and proves the properties the domain promises as `law_*`
  proof functions. Three trusted wrappers make the outside calls: `semver`'s
  parsing and matching in `security.rs`, `std::str::from_utf8` in
  `line_index.rs`, and collecting characters into a `String` in `text.rs`.
- `app/` — the parts that hold floating point (benchmark statistics, retrieval
  scores, embeddings) and the serde wire types; every decision they need is
  taken by the library.
- `tests/` — executable tests of the library on concrete values.
