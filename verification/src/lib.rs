//! Verified core of the holochain-nixpkgs tooling.
//!
//! - [`text`]: string operations specified on character sequences.
//! - [`version`], [`pattern`], [`source_url`], [`toml_doc`]: semantic
//!   versions, regular expressions, URLs and TOML documents, over the crates
//!   that implement them.
//! - [`update_config`]: the entries of `update_config.toml` and their git
//!   source specifiers.
//! - [`nvfetcher`]: nvfetcher entries, keys and the edits of `nvfetcher.toml`.
//! - [`nix_json`]: reading generated Nix expressions back as JSON.
//! - [`git_helper`]: what the git helpers make of git's output.
//! - [`index_helper`]: whether a crate version is published.
//! - [`holochain_version`]: lair revision, companion tool choice and the
//!   content of a generated holochain version file.
//! - [`holochain_tags`]: turning upstream tags into config entries and CI
//!   build matrix entries.

pub mod text;
pub mod version;
pub mod pattern;
pub mod source_url;
pub mod toml_doc;
pub mod update_config;
pub mod nvfetcher;
pub mod nix_json;
pub mod git_helper;
pub mod index_helper;
pub mod holochain_version;
pub mod holochain_tags;
