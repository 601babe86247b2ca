use std::collections::HashMap;

use holochain_nixpkgs::nvfetcher::{
    join_path, resolve_nvfetcher_dir, BinCrateSource, FetchgitSrcPartial,
    NvfetcherConfigError, NvfetcherCrateSrcEntry, NvfetcherWrapper, SrcEntryVersionError,
};
use holochain_nixpkgs::update_config::GitSrc;
use holochain_nixpkgs::version::SemVersion;

fn source(git_src: GitSrc) -> BinCrateSource<'static> {
    BinCrateSource {
        name: "holochain",
        git_repo: "https://github.com/holochain/holochain",
        git_src,
        bins_filter: vec!["holochain".to_string()],
    }
}

#[test]
fn crate_toml_key_replaces_colons_and_dots() {
    assert_eq!(
        source(GitSrc::Revision("holochain-0.0.122".to_string())).crate_toml_key(),
        "holochain_revision_holochain-0_0_122"
    );
    assert_eq!(
        source(GitSrc::Branch("develop".to_string())).crate_toml_key(),
        "holochain_branch_develop"
    );
}

#[test]
fn wrapper_new() {
    let w = NvfetcherWrapper::new(
        source(GitSrc::Branch("main".to_string())),
        "nv",
        "/home/u",
        None,
    );
    assert_eq!(w.nvfetcher_dir, "/home/u/nv");
    assert_eq!(w.crate_toml_key, "holochain_branch_main");
    let w = NvfetcherWrapper::new(
        source(GitSrc::Branch("main".to_string())),
        "/abs",
        "/home/u",
        Some("custom".to_string()),
    );
    assert_eq!(w.nvfetcher_dir, "/abs");
    assert_eq!(w.crate_toml_key, "custom");
}

#[test]
fn paths() {
    assert_eq!(join_path("/a/", "b"), "/a/b");
    assert_eq!(join_path("", "b"), "b");
    assert_eq!(join_path("/a", "/b"), "/b");
    assert_eq!(resolve_nvfetcher_dir("x/y", "/cwd"), "/cwd/x/y");
}

fn entry(version: &str) -> NvfetcherCrateSrcEntry {
    NvfetcherCrateSrcEntry {
        name: "holochain".to_string(),
        version: version.to_string(),
        src: FetchgitSrcPartial {
            url: "u".to_string(),
            rev: "r".to_string(),
            sha256: "s".to_string(),
        },
        cargo_lock: "Cargo.lock".to_string(),
        rust_git_deps: HashMap::new(),
    }
}

#[test]
fn entry_semver() {
    assert_eq!(entry("holochain-0.0.122").semver().unwrap().to_string(), "0.0.122");
    assert_eq!(
        entry("holochain-0.1.0-beta-rc.1").semver().unwrap().to_string(),
        "0.1.0-beta-rc.1"
    );
    assert_eq!(
        entry("0.0.122").semver(),
        Err::<SemVersion, _>(SrcEntryVersionError::NoSeparator { version: "0.0.122".to_string() })
    );
    assert_eq!(
        entry("holochain-main").semver(),
        Err::<SemVersion, _>(SrcEntryVersionError::NotSemver { text: "main".to_string() })
    );
}

#[test]
fn regenerate_config_for_an_empty_file() {
    let w = NvfetcherWrapper::new(
        source(GitSrc::Revision("holochain-0.0.122".to_string())),
        "/nv",
        "/",
        None,
    );
    let text = w.regenerate_nvfetcher_toml("").unwrap();
    let doc: toml_edit::Document = text.parse().unwrap();
    assert_eq!(doc["nixpkgs"]["src"]["branch"].as_str(), Some("release-22.11"));
    let e = &doc["holochain_revision_holochain-0_0_122"];
    assert_eq!(e["src"]["manual"].as_str(), Some("holochain-0.0.122"));
    assert_eq!(e["fetch"]["git"].as_str(), Some("https://github.com/holochain/holochain"));
    assert_eq!(e["cargo_lock"].as_str(), Some("Cargo.lock"));
    assert!(e["src"].get("git").is_none());
}

#[test]
fn regenerate_config_keeps_nixpkgs_and_follows_branches() {
    let w = NvfetcherWrapper::new(source(GitSrc::Branch("develop".to_string())), "/nv", "/", None);
    let existing = "[nixpkgs]\nsrc.git = \"x\"\n";
    let text = w.regenerate_nvfetcher_toml(existing).unwrap();
    let doc: toml_edit::Document = text.parse().unwrap();
    assert_eq!(doc["nixpkgs"]["src"]["git"].as_str(), Some("x"));
    let e = &doc["holochain_branch_develop"];
    assert_eq!(e["src"]["branch"].as_str(), Some("develop"));
    assert_eq!(e["src"]["git"].as_str(), Some("https://github.com/holochain/holochain"));
}

#[test]
fn regenerate_config_rejects_bad_toml() {
    let w = NvfetcherWrapper::new(source(GitSrc::Branch("develop".to_string())), "/nv", "/", None);
    assert_eq!(
        w.regenerate_nvfetcher_toml("[[[").unwrap_err(),
        NvfetcherConfigError::NotToml
    );
}

#[test]
fn regenerate_config_twice_changes_nothing() {
    let w = NvfetcherWrapper::new(source(GitSrc::Branch("develop".to_string())), "/nv", "/", None);
    let first = w.regenerate_nvfetcher_toml("[other]\nx = 1\n").unwrap();
    let second = w.regenerate_nvfetcher_toml(&first).unwrap();
    let a: toml_edit::Document = first.parse().unwrap();
    let b: toml_edit::Document = second.parse().unwrap();
    assert_eq!(a.to_string(), b.to_string());
    assert_eq!(b["other"]["x"].as_integer(), Some(1));
}
