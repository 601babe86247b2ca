use linked_hash_map::LinkedHashMap;

use holochain_nixpkgs::holochain_tags::{
    add_upstream_tags, commit_needed, difference, intact_revision_entries, refill_nix_attributes,
    retain_pinned_attributes, same_members, tag_entry_key,
};
use holochain_nixpkgs::update_config::{GitSrc, UpdateConfigEntry};
use holochain_nixpkgs::version::SemVersionReq;

#[test]
fn entry_keys_for_tags() {
    assert_eq!(tag_entry_key("holochain-0.1.3"), "v0_1_3");
    assert_eq!(tag_entry_key("holochain-0.1.3-beta.1"), "v0_1_3-beta_1");
    assert_eq!(tag_entry_key("holochain-0.1.0-beta-rc.1"), "v0_1_0-beta-rc_1");
    assert_eq!(tag_entry_key("other"), "vother");
}

fn strings(v: &[&str]) -> Vec<String> {
    v.iter().map(|s| s.to_string()).collect()
}

#[test]
fn upstream_tags_become_entries() {
    let template = UpdateConfigEntry::default_entry().unwrap();
    let req = SemVersionReq::parse("~0.0").unwrap();
    let mut entries: LinkedHashMap<String, UpdateConfigEntry> = LinkedHashMap::new();
    let mut main = template.clone();
    main.git_src = GitSrc::Branch("main".to_string());
    entries.insert("main".to_string(), main);
    let mut existing = template.clone();
    existing.git_src = GitSrc::Revision("holochain-0.1.0".to_string());
    existing.broken = Some(true);
    entries.insert("v0_1_0".to_string(), existing);

    let added = add_upstream_tags(
        &mut entries,
        &strings(&["holochain-0.1.0", "holochain-0.1.1", "holochain-0.1.2", "holochain-0.1.1"]),
        &req,
        &template,
    );
    assert_eq!(added.iter().cloned().collect::<Vec<_>>(), strings(&["v0_1_1", "v0_1_2"]));
    assert_eq!(
        entries.keys().cloned().collect::<Vec<_>>(),
        strings(&["main", "v0_1_0", "v0_1_1", "v0_1_2"])
    );
    let new = &entries["v0_1_1"];
    assert_eq!(new.git_src, GitSrc::Revision("holochain-0.1.1".to_string()));
    assert_eq!(new.lair_version_req.to_string(), "~0.0");
    // the broken entry and the branch are left out
    assert_eq!(intact_revision_entries(&entries), strings(&["v0_1_1", "v0_1_2"]));
}

#[test]
fn build_matrix_update() {
    let attrs = strings(&["main", "v0_0_1", "develop", "v0_0_2"]);
    let kept = retain_pinned_attributes(&attrs).unwrap();
    assert_eq!(kept, strings(&["main", "develop"]));
    let intact = strings(&["v0_0_1", "v0_0_2", "v0_0_3", "v0_0_4"]);
    let refilled = refill_nix_attributes(kept, &intact, 4);
    assert_eq!(refilled, strings(&["main", "develop", "v0_0_3", "v0_0_4"]));
    assert_eq!(difference(&attrs, &refilled), strings(&["v0_0_1", "v0_0_2"]));
    assert_eq!(difference(&refilled, &attrs), strings(&["v0_0_3", "v0_0_4"]));
    assert_eq!(difference(&strings(&["a", "a"]), &vec![]), strings(&["a"]));
}

#[test]
fn change_detection() {
    let set: linked_hash_set::LinkedHashSet<String> = ["a", "b"].iter().map(|s| s.to_string()).collect();
    assert!(same_members(&strings(&["b", "a"]), &set));
    assert!(!same_members(&strings(&["a"]), &set));
    let empty = linked_hash_set::LinkedHashSet::new();
    assert!(!commit_needed(&vec![], &vec![], &empty, false));
    assert!(commit_needed(&vec![], &vec![], &empty, true));
    assert!(commit_needed(&strings(&["x"]), &vec![], &empty, false));
    assert!(commit_needed(&vec![], &vec![], &set, false));
}

#[test]
fn upstream_tags_added_twice_add_nothing() {
    let template = UpdateConfigEntry::default_entry().unwrap();
    let req = SemVersionReq::parse("~0.0").unwrap();
    let tags = strings(&["holochain-0.2.0", "holochain-0.2.1"]);
    let mut entries: LinkedHashMap<String, UpdateConfigEntry> = LinkedHashMap::new();
    let first = add_upstream_tags(&mut entries, &tags, &req, &template);
    assert_eq!(first.len(), 2);
    let keys_before: Vec<String> = entries.keys().cloned().collect();
    let second = add_upstream_tags(&mut entries, &tags, &req, &template);
    assert!(second.is_empty());
    assert_eq!(entries.keys().cloned().collect::<Vec<_>>(), keys_before);
}
