use holochain_nixpkgs::index_helper::is_version_published;
use holochain_nixpkgs::version::{SemVersion, SemVersionReq, VersionError};

#[test]
fn version_parse_and_display() {
    let v = SemVersion::parse("1.2.3-alpha.1+build.5").unwrap();
    assert_eq!((v.major(), v.minor(), v.patch()), (1, 2, 3));
    assert_eq!(v.pre(), "alpha.1");
    assert_eq!(v.build(), "build.5");
    assert_eq!(v.to_string(), "1.2.3-alpha.1+build.5");
    assert_eq!(SemVersion::new(0, 1, 12).to_string(), "0.1.12");
    assert_eq!(
        SemVersion::parse("1.0"),
        Err(VersionError::InvalidVersion { text: "1.0".to_string() })
    );
}

#[test]
fn version_order() {
    let a = SemVersion::parse("0.1.2").unwrap();
    let b = SemVersion::parse("0.1.10").unwrap();
    let pre = SemVersion::parse("0.1.2-rc.1").unwrap();
    assert!(a.precedes(&b));
    assert!(!b.precedes(&a));
    assert!(pre.precedes(&a));
    assert!(!a.precedes(&a));
    assert!(a.same_as(&SemVersion::new(0, 1, 2)));
    assert!(!a.same_as(&pre));
}

#[test]
fn requirement_matching() {
    let r = SemVersionReq::parse("~0.2").unwrap();
    assert!(r.matches(&SemVersion::parse("0.2.5").unwrap()));
    assert!(!r.matches(&SemVersion::parse("0.3.0").unwrap()));
    assert!(!r.is_star());
    assert!(SemVersionReq::parse("*").unwrap().is_star());
    assert!(SemVersionReq::star().is_star());
    assert_eq!(
        SemVersionReq::parse("@1"),
        Err(VersionError::InvalidRequirement { text: "@1".to_string() })
    );
}

#[test]
fn version_published() {
    let v = SemVersion::parse("0.1.3").unwrap();
    let listed = vec!["0.1.1".to_string(), "0.1.3".to_string()];
    assert_eq!(is_version_published(Some(&listed), &v), Ok(true));
    let other = vec!["0.1.1".to_string()];
    assert_eq!(is_version_published(Some(&other), &v), Ok(false));
    assert_eq!(is_version_published(None, &v), Ok(false));
    let bad = vec!["0.1.3".to_string(), "x".to_string()];
    assert_eq!(
        is_version_published(Some(&bad), &v),
        Err(VersionError::InvalidVersion { text: "x".to_string() })
    );
}
