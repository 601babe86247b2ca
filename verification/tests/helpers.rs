use holochain_nixpkgs::git_helper::{diff_status, tags_from_ls_remote, DiffStatusError};
use holochain_nixpkgs::nix_json::{nix_to_json5, nix_to_json_partial};

#[test]
fn ls_remote_output() {
    let out = b"6535292238dc1fbd2b60433a2054f7787e4f060e\trefs/tags/holochain-0.0.102\nc77901e614e653adaa17e80b41db67f8a4fa5b88\trefs/tags/holochain-0.0.127\r\n";
    assert_eq!(
        tags_from_ls_remote(out),
        vec!["holochain-0.0.102", "holochain-0.0.127"]
    );
}

#[test]
fn ls_remote_output_edge_cases() {
    assert!(tags_from_ls_remote(b"").is_empty());
    // a last line without a newline is kept, a line that is not UTF-8 is skipped
    assert_eq!(
        tags_from_ls_remote(b"x\trefs/tags/a\n\xff\xfe\trefs/tags/b\ny\trefs/tags/c"),
        vec!["a", "c"]
    );
    // a line without a tab is taken whole
    assert_eq!(tags_from_ls_remote(b"refs/tags/v1\n"), vec!["v1"]);
}

#[test]
fn git_diff_status() {
    assert_eq!(diff_status(Some(0)), Ok(false));
    assert_eq!(diff_status(Some(1)), Ok(true));
    assert_eq!(diff_status(Some(128)), Err(DiffStatusError::Failed { code: 128 }));
    assert_eq!(diff_status(None), Err(DiffStatusError::NoStatusCode));
}

#[test]
fn nix_to_json5_rewrites() {
    let json5 = nix_to_json5("{\n    url = \"u\";\n    rev = \"r\";\n}\n").unwrap();
    assert_eq!(json5, "{\n    \"url\": \"u\",\n    \"rev\": \"r\",\n}\n");
}

#[test]
fn nix_to_json_reads_values() {
    let v = nix_to_json_partial("{\n    url = \"u\";\n    list = [\n        \"a\"\n        \"b\"\n    ];\n}\n").unwrap();
    assert_eq!(v["url"], "u");
    assert_eq!(v["list"][1], "b");
}

#[test]
fn nix_to_json_rejects_garbage() {
    assert!(nix_to_json_partial("{ url = ").is_err());
}
