# context-runtime

A verified library for assembling governed context bundles for a code fix,
plus the HTTP service around it.

For a target file in a repository, the library decides which sources make up
the bundle (the target, an adjacent file, the canonical repo-truth doc, and
the validation rule), derives the repository facts (toolchain, entry points,
primary directories, validation commands), builds the code-native payload
behind each source, and serves admitted payloads from an in-process store that
fails closed on unknown bundles and on refs outside a bundle's admitted
inventory.

Layout:

- `src/` — the library, verified with Verus:
  - `text` — character-level string helpers (ordering, sorting, trimming,
    line splitting, decimal and hex rendering, `u64` parsing);
  - `clock` — instants and source ages;
  - `error` — the fail-closed error type and its HTTP statuses;
  - `config` — runtime configuration;
  - `gather` — repository discovery from the caller's file-system observations;
  - `payload` — content hashes and the code-native payload contracts;
  - `assemble` — the governed assembly request and the assembled bundle;
  - `store` — the bundle store;
  - `http` — request defaults and override posture.
- `app/` — the service: file-system access, the governed envelope and
  contract validation of `precomputed_context_core`, and the axum routes.
- `tests/` — tests of the library.
