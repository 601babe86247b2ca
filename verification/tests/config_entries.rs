use holochain_nixpkgs::update_config::{
    default_bins_filter, default_lair_version_req, default_launcher_holochain_compatibility_version_req,
    default_scaffolding_holochain_compatibility_version_req, GitSrc, GitSrcError, UpdateConfigEntry,
};

#[test]
fn default_bins_filter_lists_the_holochain_binaries() {
    assert_eq!(
        default_bins_filter(),
        vec!["holochain", "hc", "kitsune-p2p-proxy", "kitsune-p2p-tx2-proxy"]
    );
}

#[test]
fn default_requirements() {
    assert_eq!(default_lair_version_req().unwrap().to_string(), "~0.2");
    let s = default_scaffolding_holochain_compatibility_version_req().unwrap();
    assert_eq!(s.holochain_version_req.to_string(), ">0.1.0-alpha, <2");
    assert!(s.tool_version_req.is_star());
    let l = default_launcher_holochain_compatibility_version_req().unwrap();
    assert_eq!(l.holochain_version_req.to_string(), ">0.1.0-alpha, <2");
    assert!(l.tool_version_req.is_star());
}

#[test]
fn git_src_from_str() {
    assert_eq!(GitSrc::from_str("branch:develop"), Ok(GitSrc::Branch("develop".to_string())));
    assert_eq!(
        GitSrc::from_str("revision:holochain-0.0.115"),
        Ok(GitSrc::Revision("holochain-0.0.115".to_string()))
    );
    // keys and values are trimmed and stripped of double quotes; only the
    // key is lowercased
    assert_eq!(
        GitSrc::from_str(" Branch : \"Main\" "),
        Ok(GitSrc::Branch("Main".to_string()))
    );
    assert_eq!(GitSrc::from_str("branch:Feature-X"), Ok(GitSrc::Branch("Feature-X".to_string())));
    // everything after the first colon is the value
    assert_eq!(GitSrc::from_str("branch:a:b"), Ok(GitSrc::Branch("a:b".to_string())));
}

#[test]
fn git_src_from_str_rejects() {
    assert_eq!(
        GitSrc::from_str("tag:v1"),
        Err(GitSrcError { input: "tag:v1".to_string() })
    );
    assert_eq!(
        GitSrc::from_str("develop"),
        Err(GitSrcError { input: "develop".to_string() })
    );
}

#[test]
fn git_src_text_roundtrip() {
    for g in [
        GitSrc::Branch("develop".to_string()),
        GitSrc::Revision("holochain-0.1.3".to_string()),
        GitSrc::Branch("Feature-Ä".to_string()),
    ] {
        assert_eq!(GitSrc::from_str(&g.to_string()), Ok(g));
    }
}

#[test]
fn git_src_to_string() {
    assert_eq!(GitSrc::Branch("main".to_string()).to_string(), "branch:main");
    assert_eq!(GitSrc::Revision("abc".to_string()).to_string(), "revision:abc");
    assert_eq!(GitSrc::default(), GitSrc::Branch("main".to_string()));
}

#[test]
fn toml_src_value_and_is_rev() {
    let b = GitSrc::Branch("develop".to_string());
    assert_eq!(b.toml_src_value(), (["src", "branch"], "develop"));
    assert!(!b.is_rev());
    let r = GitSrc::Revision("holochain-0.0.1".to_string());
    assert_eq!(r.toml_src_value(), (["src", "manual"], "holochain-0.0.1"));
    assert!(r.is_rev());
}

#[test]
fn default_entry() {
    let e = UpdateConfigEntry::default_entry().unwrap();
    assert_eq!(e.lair_version_req.to_string(), "~0.2");
    assert_eq!(e.bins_filter, default_bins_filter());
    assert_eq!(e.git_src, GitSrc::Branch("main".to_string()));
    assert_eq!(e.broken, None);
    assert!(e.rust_version.is_none());
}
