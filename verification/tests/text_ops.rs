use holochain_nixpkgs::text::{join, last_piece, replace, split, split_once, trim};
use holochain_nixpkgs::update_config::GitSrc;

#[test]
fn replace_replaces_every_occurrence() {
    assert_eq!(replace("a:b:c", ":", "_"), "a_b_c");
    assert_eq!(replace("aaaa", "aa", "b"), "bb");
    assert_eq!(replace("no match", "x", "y"), "no match");
    assert_eq!(replace("refs/tags/v1", "refs/tags/", ""), "v1");
}

#[test]
fn replace_with_an_empty_pattern() {
    assert_eq!(replace("abc", "", "-"), "abc".replace("", "-"));
    assert_eq!(replace("abc", "", "-"), "-a-b-c-");
    assert_eq!(replace("", "", "x"), "x");
}

#[test]
fn split_keeps_empty_pieces() {
    assert_eq!(split("a,b,,c", ','), vec!["a", "b", "", "c"]);
    assert_eq!(split("", ','), vec![""]);
    assert_eq!(split("a,", ','), vec!["a", ""]);
}

#[test]
fn join_undoes_split() {
    for s in ["a,b,,c", "", ",", "holochain,hc"] {
        assert_eq!(join(&split(s, ','), ','), s);
    }
}

#[test]
fn split_once_at_the_first_separator() {
    assert_eq!(
        split_once("branch:feat:x", ':'),
        Some(("branch".to_string(), "feat:x".to_string()))
    );
    assert_eq!(split_once("nothing", ':'), None);
    assert_eq!(split_once(":x", ':'), Some(("".to_string(), "x".to_string())));
}

#[test]
fn last_piece_after_the_last_tab() {
    assert_eq!(last_piece("abc\tdef\tghi", '\t'), "ghi");
    assert_eq!(last_piece("abc", '\t'), "abc");
    assert_eq!(last_piece("abc\t", '\t'), "");
}

#[test]
fn trim_removes_unicode_white_space() {
    assert_eq!(trim("  a b \t\n"), "a b");
    assert_eq!(trim("\u{3000}x\u{a0}"), "x");
    assert_eq!(trim(""), "");
    assert_eq!(trim("   "), "");
}

#[test]
fn lowercase() {
    // the key is compared without regard to case; the value keeps its case
    assert_eq!(GitSrc::from_str("BrAnCh:Develop"), Ok(GitSrc::Branch("Develop".to_string())));
    assert_eq!(GitSrc::from_str("REVISION:ÄÖÜ"), Ok(GitSrc::Revision("ÄÖÜ".to_string())));
}
