use std::collections::HashMap;

use holochain_nixpkgs::holochain_version::{
    args_for_comment, holochain_version_from, is_star_or_matches, lair_repo, lair_revision,
    lair_revision_from_lockfile,
    parse_hashmap, tooling_applies, DependencySpec, LairRevisionError, LockPackage, LockSource,
    ToolingError, ToolingSelection, WorkspaceMember,
};
use holochain_nixpkgs::nvfetcher::{FetchgitSrcPartial, NvfetcherCrateSrcEntry};
use holochain_nixpkgs::source_url::SourceUrl;
use holochain_nixpkgs::update_config::default_scaffolding_holochain_compatibility_version_req;
use holochain_nixpkgs::version::{SemVersion, SemVersionReq};

#[test]
fn hashmap_from_pairs() {
    let m = parse_hashmap("\"A\":1, b : 2,nocolon,a:3:x");
    assert_eq!(m.get("a").map(|v| v.as_str()), Some("3:x"));
    assert_eq!(m.get("b ").map(|v| v.as_str()), Some(" 2"));
    assert!(!m.contains_key("nocolon"));
    assert_eq!(m.len(), 2);
}

fn package(name: &str, version: &str, source: Option<LockSource>) -> LockPackage {
    LockPackage {
        name: name.to_string(),
        version: SemVersion::parse(version).unwrap(),
        source,
    }
}

#[test]
fn lair_revision_from_registry_packages() {
    let packages = vec![
        package("lair_keystore_api", "0.0.9", None),
        package("other", "0.1.3", None),
        package("lair_keystore_api", "0.1.3", None),
    ];
    let req = SemVersionReq::parse("~0.1").unwrap();
    assert_eq!(
        lair_revision(&packages, &req),
        Ok((None, "lair_keystore_api-v0.1.3".to_string()))
    );
    let req = SemVersionReq::parse("~0.0").unwrap();
    assert_eq!(lair_revision(&packages, &req), Ok((None, "v0.0.9".to_string())));
    let req = SemVersionReq::parse("~0.2").unwrap();
    assert_eq!(
        lair_revision(&packages, &req),
        Err(LairRevisionError::NotFound { version_req: "~0.2".to_string() })
    );
}

#[test]
fn lair_revision_from_git_sources() {
    // `git+https` cannot become `https`: `url` refuses to turn a
    // non-special scheme into a special one.
    let packages = vec![package(
        "lair_keystore_api",
        "0.1.3",
        Some(LockSource {
            url: SourceUrl::parse("git+https://github.com/holochain/lair").unwrap(),
            is_git: true,
        }),
    )];
    let req = SemVersionReq::parse("*").unwrap();
    assert_eq!(lair_revision(&packages, &req), Err(LairRevisionError::SchemeNotChanged));
    let packages = vec![package(
        "lair_keystore_api",
        "0.1.3",
        Some(LockSource { url: SourceUrl::parse("git+ssh://git@host/lair").unwrap(), is_git: true }),
    )];
    assert_eq!(
        lair_revision(&packages, &req),
        Ok((Some("ssh://git@host/lair".to_string()), "lair_keystore_api-v0.1.3".to_string()))
    );
}

#[test]
fn lair_repo_fallback() {
    assert_eq!(lair_repo(None, "d".to_string()), "d");
    assert_eq!(lair_repo(Some("u".to_string()), "d".to_string()), "u");
}

fn member(name: &str, version: &str, holochain_req: Option<&str>, normal: bool) -> WorkspaceMember {
    WorkspaceMember {
        name: name.to_string(),
        version: SemVersion::parse(version).unwrap(),
        dependencies: holochain_req
            .map(|r| {
                vec![DependencySpec {
                    package_name: "holochain".to_string(),
                    is_normal: normal,
                    version_req: r.to_string(),
                }]
            })
            .unwrap_or_default(),
    }
}

#[test]
fn tooling_selection_picks_the_newest_fitting_version() {
    let compat = default_scaffolding_holochain_compatibility_version_req().unwrap();
    let holochain = SemVersion::parse("0.1.3").unwrap();
    assert!(tooling_applies(&compat, &holochain));
    let mut sel = ToolingSelection::new();
    let tool = "holochain_scaffolding_cli";
    sel.consider(0, &vec![member(tool, "0.1.0", Some("0.1.3"), true)], tool, &holochain, &compat)
        .unwrap();
    sel.consider(1, &vec![member(tool, "0.1.5", Some("0.1.3"), true)], tool, &holochain, &compat)
        .unwrap();
    sel.consider(2, &vec![member(tool, "0.1.2", Some("0.1.3"), true)], tool, &holochain, &compat)
        .unwrap();
    // a tool for another holochain version is not a candidate
    sel.consider(3, &vec![member(tool, "0.2.0", Some("0.2.0"), true)], tool, &holochain, &compat)
        .unwrap();
    assert_eq!(sel.chosen(), Some(1));
    assert_eq!(sel.chosen_version().unwrap().to_string(), "0.1.5");
}

#[test]
fn tooling_selection_errors() {
    let compat = default_scaffolding_holochain_compatibility_version_req().unwrap();
    let holochain = SemVersion::parse("0.1.3").unwrap();
    let tool = "t";
    let mut sel = ToolingSelection::new();
    assert_eq!(
        sel.consider(0, &vec![member("other", "0.1.0", None, true)], tool, &holochain, &compat),
        Err(ToolingError::MemberMissing { name: "t".to_string() })
    );
    assert_eq!(
        sel.consider(0, &vec![member(tool, "0.1.0", Some("0.1"), false)], tool, &holochain, &compat),
        Err(ToolingError::NoHolochainDependency { name: "t".to_string() })
    );
    assert_eq!(
        sel.consider(0, &vec![member(tool, "0.1.0", Some("@@"), true)], tool, &holochain, &compat),
        Err(ToolingError::InvalidRequirement { text: "@@".to_string() })
    );
    assert_eq!(sel.chosen(), None);
}

#[test]
fn star_or_matches() {
    let v = SemVersion::parse("1.0.0-rc.1").unwrap();
    assert!(is_star_or_matches(&v, &SemVersionReq::star()));
    assert!(!is_star_or_matches(&v, &SemVersionReq::parse(">=0.1").unwrap()));
}

#[test]
fn comment_args() {
    let args = vec![
        "/work/target/debug/update-holochain-versions".to_string(),
        "--output-file=/work/out.nix".to_string(),
    ];
    assert_eq!(
        args_for_comment(&args, "/work"),
        vec!["update-holochain-versions", "--output-file=out.nix"]
    );
    assert!(args_for_comment(&vec![], "/work").is_empty());
}

fn info(url: &str, lock: &str) -> NvfetcherCrateSrcEntry {
    let mut deps = HashMap::new();
    deps.insert("dep-0.1.0".to_string(), "sha".to_string());
    NvfetcherCrateSrcEntry {
        name: "n".to_string(),
        version: "n-0.1.0".to_string(),
        src: FetchgitSrcPartial { url: url.to_string(), rev: "r".to_string(), sha256: "s".to_string() },
        cargo_lock: lock.to_string(),
        rust_git_deps: deps,
    }
}

#[test]
fn holochain_version_content() {
    let v = holochain_version_from(
        info("h", "h.lock"),
        vec!["hc".to_string()],
        None,
        info("l", "l.lock"),
        Some(info("s", "s.lock")),
        Some(info("la", "la.lock")),
        vec!["cmd".to_string()],
    );
    assert_eq!(v.url, "h");
    assert_eq!(v.cargo_lock.lock_file, None);
    assert_eq!(v.lair.url, "l");
    assert_eq!(v.scaffolding.as_ref().unwrap().cargo_lock.lock_file, None);
    assert_eq!(v.launcher.as_ref().unwrap().cargo_lock.lock_file, Some("la.lock".to_string()));
    assert_eq!(v.launcher.as_ref().unwrap().cargo_lock.output_hashes.len(), 1);
    assert_eq!(v.args, vec!["cmd"]);
}

#[test]
fn lair_revision_from_lockfile_text() {
    let lock = r#"version = 3

[[package]]
name = "holochain"
version = "0.1.3"

[[package]]
name = "lair_keystore_api"
version = "0.2.1"
source = "registry+https://github.com/rust-lang/crates.io-index"
checksum = "3f4bd3f1f0bbbd5e8f7b2c9b7f8f5e1a5a8c6f1a2d3e4b5c6d7e8f9a0b1c2d3e"
"#;
    let req = SemVersionReq::parse("~0.2").unwrap();
    assert_eq!(
        lair_revision_from_lockfile(lock, &req),
        Ok((None, "lair_keystore_api-v0.2.1".to_string()))
    );
    let old = SemVersionReq::parse("~0.1").unwrap();
    assert_eq!(
        lair_revision_from_lockfile(lock, &old),
        Err(LairRevisionError::NotFound { version_req: "~0.1".to_string() })
    );
    let git_lock = r#"version = 3

[[package]]
name = "lair_keystore_api"
version = "0.1.0"
source = "git+https://github.com/holochain/lair?branch=main#0123456789abcdef0123456789abcdef01234567"
"#;
    let any = SemVersionReq::parse("*").unwrap();
    assert_eq!(
        lair_revision_from_lockfile(git_lock, &any),
        Ok((Some("https://github.com/holochain/lair".to_string()), "v0.1.0".to_string()))
    );
    assert_eq!(
        lair_revision_from_lockfile("[[package]]\nname = 1", &req),
        Err(LairRevisionError::NotALockfile)
    );
}
