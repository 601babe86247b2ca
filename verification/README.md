# holochain_nixpkgs

Tooling for the holochain Nix package repository: it pins holochain, lair,
scaffolding and launcher sources for Nix, keeps `update_config.toml` and the
CI build matrix in step with upstream holochain tags, and drives nvfetcher.

The decisions are made by a library whose behaviour is stated in `requires` /
`ensures` contracts and proved with Verus:

- `src/` — the verified library (see the module overview in `src/lib.rs`):
  text operations, semantic versions and requirements, git source
  specifiers and config entries, nvfetcher keys and the edits of
  `nvfetcher.toml`, the Nix-to-JSON5 rewriting, the reading of git's output,
  the lair revision, the choice of companion tool versions, and the tag
  updater's bookkeeping. Calls into `semver`, `regex`, `url`, `toml_edit`,
  `json5`, `serde_json`, `cargo-lock`, `linked-hash-map` and
  `linked_hash_set` go through small trusted wrappers whose contracts name
  what those crates compute.
- `tests/` — tests of the library on concrete values.
- `app/` — the command line program around the library: argument parsing,
  file and process I/O (git, nvfetcher, cargo), serde copies of the
  library's types, and rendering of the generated Nix file.
