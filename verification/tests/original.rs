use holochain_nixpkgs::nix_json::nix_to_json_partial;
use holochain_nixpkgs::nvfetcher::{crate_entry_json, SrcInfoError};

#[test]
fn nix_to_json_partial_bug0() {
    let input = r#"
# This file was generated with the following command:
# /Users/stefan/src/holo/holochain-nixpkgs/target/debug/deps/update_holochain_versions-1d3ec227374761bd
# For usage instructions please visit https://github.com/holochain/holochain-nixpkgs/#readme

{
    url = "https://github.com/holochain/holochain";
    rev = "holochain-0.0.121";
    sha256 = "sha256-nZEySolvpXnTz9XlR+34rn6GJM/sj3y3snqhNGvmMkM&#x3D;";
    cargoLock = {
        outputHashes = {
            "cargo-test-macro-0.1.0" = "sha256-hIGpT0n41CA24vss4itXS3O2XrznsBce/60PUVrwwfs&#x3D;";
        };
    };

    binsFilter = [
        "holochain"
        "hc"
        "kitsune-p2p-proxy"
    ];
}
        "#;

    let _ = nix_to_json_partial(input).unwrap().as_object().unwrap();
}

const NVFETCHER_EXAMPLE_GENERATED: &str = r#"
{
    "holochain": {
        "pinned": true,
        "cargoLock": "./holochain_revision_holochain-0_0_122-holochain-0.0.122/Cargo.lock",
        "name": "holochain_revision_holochain-0_0_122",
        "version": "holochain-0.0.122",
        "passthru": null,
        "src": {
            "deepClone": false,
            "url": "https://github.com/holochain/holochain",
            "leaveDotGit": false,
            "fetchSubmodules": false,
            "name": null,
            "type": "git",
            "sha256": "sha256-ptTOz1CVWBPMawoYdJJKlOQqweuSrCmjcgCw7sA9VyA=",
            "rev": "holochain-0.0.122"
        },
        "extract": null,
        "rustGitDeps": {
            "cargo-test-macro-0.1.0": "sha256-hIGpT0n41CA24vss4itXS3O2XrznsBce/60PUVrwwfs="
        }
    }
}"#;

#[test]
fn generated_json_entry_lookup() {
    let entry = crate_entry_json(NVFETCHER_EXAMPLE_GENERATED, "holochain").unwrap();
    assert_eq!(entry["name"], "holochain_revision_holochain-0_0_122");
    assert_eq!(entry["version"], "holochain-0.0.122");
    assert_eq!(entry["src"]["url"], "https://github.com/holochain/holochain");
    assert_eq!(entry["src"]["rev"], "holochain-0.0.122");
    assert_eq!(
        entry["src"]["sha256"],
        "sha256-ptTOz1CVWBPMawoYdJJKlOQqweuSrCmjcgCw7sA9VyA="
    );
    assert_eq!(
        entry["cargoLock"],
        "./holochain_revision_holochain-0_0_122-holochain-0.0.122/Cargo.lock"
    );
    assert_eq!(
        entry["rustGitDeps"]["cargo-test-macro-0.1.0"],
        "sha256-hIGpT0n41CA24vss4itXS3O2XrznsBce/60PUVrwwfs="
    );
    assert_eq!(
        crate_entry_json(NVFETCHER_EXAMPLE_GENERATED, "lair"),
        Err(SrcInfoError::MissingEntry { key: "lair".to_string() })
    );
    assert_eq!(crate_entry_json("{", "holochain"), Err(SrcInfoError::NotJson));
}
