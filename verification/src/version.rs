//! Semantic versions and version requirements, backed by the `semver` crate.
//!
//! A [`SemVersion`] carries its numeric components and its pre-release and build
//! texts as plain values next to the `semver::Version` they were read from; a
//! [`SemVersionReq`] carries its canonical text next to the `semver::VersionReq`.
//! Both are only built by the trusted functions of this crate that read
//! them from `semver` (and by the lock file reader, which copies the fields
//! of the versions it reads), which keep the two sides in step.

use vstd::prelude::*;
use crate::text::{chars_of, copy_of, same_text, string_of};

verus! {

#[verifier::external_type_specification]
#[verifier::external_body]
pub struct ExSemverVersion(semver::Version);

#[verifier::external_type_specification]
#[verifier::external_body]
pub struct ExSemverVersionReq(semver::VersionReq);

#[verifier::external_type_specification]
#[verifier::external_body]
pub struct ExSemverError(semver::Error);

/// The plain content of a [`SemVersion`].
pub struct VersionView {
    pub major: u64,
    pub minor: u64,
    pub patch: u64,
    pub pre: Seq<char>,
    pub build: Seq<char>,
}

/// A semantic version such as `1.2.3-alpha.1+build.5`.
///
/// The plain fields are the view; `inner` is the `semver::Version` they were
/// read from. Nothing verified ties the two: they are kept in step because
/// only trusted functions that read both from the same `semver::Version`
/// build one (`semver_parse`, `semver_new`, and the lock file reader), and
/// its clone copies both.
#[derive(Debug, PartialEq, Eq)]
pub struct SemVersion {
    pub(crate) major: u64,
    pub(crate) minor: u64,
    pub(crate) patch: u64,
    pub(crate) pre: String,
    pub(crate) build: String,
    pub(crate) inner: semver::Version,
}

impl View for SemVersion {
    type V = VersionView;

    closed spec fn view(&self) -> VersionView {
        VersionView {
            major: self.major,
            minor: self.minor,
            patch: self.patch,
            pre: self.pre@,
            build: self.build@,
        }
    }
}

/// What `semver::Version::parse` reads from a text: `None` where it fails.
pub uninterp spec fn parsed_version(text: Seq<char>) -> Option<VersionView>;

/// Whether `a` orders strictly before `b` in `semver::Version`'s total order.
pub uninterp spec fn version_precedes(a: VersionView, b: VersionView) -> bool;

/// The canonical text (its `Display` form) of the requirement that
/// `semver::VersionReq::parse` reads from a text: `None` where it fails.
pub uninterp spec fn parsed_requirement(text: Seq<char>) -> Option<Seq<char>>;

/// Whether the requirement with canonical text `req` matches version `v`
/// (`semver::VersionReq::matches`).
pub uninterp spec fn requirement_matches(req: Seq<char>, v: VersionView) -> bool;

/// A version with the given numbers and no pre-release or build text.
pub open spec fn release(major: u64, minor: u64, patch: u64) -> VersionView {
    VersionView { major, minor, patch, pre: Seq::empty(), build: Seq::empty() }
}

/// Parses a version text.
///
/// Wraps `semver::Version::parse`: `Ok` exactly where [`parsed_version`] is
/// `Some`, and then the version that it names, its pre-release and build
/// identifiers taken as text.
#[verifier::external_body]
fn semver_parse(text: &str) -> (res: Result<SemVersion, semver::Error>)
    ensures
        res is Ok <==> parsed_version(text@) is Some,
        res matches Ok(v) ==> parsed_version(text@) == Some(v@),
{
    match semver::Version::parse(text) {
        Ok(v) => Ok(SemVersion {
            major: v.major,
            minor: v.minor,
            patch: v.patch,
            pre: v.pre.as_str().to_string(),
            build: v.build.as_str().to_string(),
            inner: v,
        }),
        Err(e) => Err(e),
    }
}

/// Builds `major.minor.patch`.
///
/// Wraps `semver::Version::new`, which its documentation defines as the
/// version with these numbers and empty pre-release and build metadata.
#[verifier::external_body]
fn semver_new(major: u64, minor: u64, patch: u64) -> (res: SemVersion)
    ensures
        res@ == release(major, minor, patch),
{
    let v = semver::Version::new(major, minor, patch);
    SemVersion {
        major: v.major,
        minor: v.minor,
        patch: v.patch,
        pre: v.pre.as_str().to_string(),
        build: v.build.as_str().to_string(),
        inner: v,
    }
}

/// Compares two versions.
///
/// Wraps `<` on `semver::Version`, whose `Ord` is derived over the fields
/// `major`, `minor`, `patch`, `pre`, `build` in that order: the result is named
/// [`version_precedes`]; where the numeric fields differ, the first of them
/// that differs decides, which the last clauses state; a version never
/// precedes itself.
#[verifier::external_body]
fn semver_lt(a: &SemVersion, b: &SemVersion) -> (res: bool)
    ensures
        res == version_precedes(a@, b@),
        a@.major != b@.major ==> res == (a@.major < b@.major),
        a@.major == b@.major && a@.minor != b@.minor ==> res == (a@.minor < b@.minor),
        a@.major == b@.major && a@.minor == b@.minor && a@.patch != b@.patch ==> res == (a@.patch
            < b@.patch),
        a@ == b@ ==> !res,
{
    a.inner < b.inner
}

/// Copies a `semver::Version`.
///
/// Wraps its derived `Clone`; nothing is stated of the copy, which the
/// callers pair with the plain fields they copy themselves.
#[verifier::external_body]
fn semver_version_clone(v: &semver::Version) -> semver::Version {
    v.clone()
}

/// Copies a `semver::VersionReq`.
///
/// Wraps its derived `Clone`; nothing is stated of the copy, which the
/// callers pair with the text they copy themselves.
#[verifier::external_body]
fn semver_req_clone(r: &semver::VersionReq) -> semver::VersionReq {
    r.clone()
}

impl Clone for SemVersion {
    fn clone(&self) -> (res: Self)
        ensures
            res@ == self@,
    {
        SemVersion {
            major: self.major,
            minor: self.minor,
            patch: self.patch,
            pre: copy_of(self.pre.as_str()),
            build: copy_of(self.build.as_str()),
            inner: semver_version_clone(&self.inner),
        }
    }
}

/// An error reading a version or a version requirement.
#[derive(Debug, PartialEq, Eq)]
pub enum VersionError {
    /// The text is not a semantic version.
    InvalidVersion { text: String },
    /// The text is not a version requirement.
    InvalidRequirement { text: String },
}

/// The decimal digit for `d`.
pub open spec fn digit_char(d: nat) -> char {
    (('0' as u32) + d) as char
}

/// The decimal representation of `n`, without leading zeros.
pub open spec fn decimal(n: nat) -> Seq<char>
    decreases n,
{
    if n < 10 {
        seq![digit_char(n)]
    } else {
        decimal(n / 10).push(digit_char(n % 10))
    }
}

/// Appends the decimal representation of `n` to `out`.
fn push_decimal(n: u64, out: &mut Vec<char>)
    ensures
        final(out)@ == old(out)@ + decimal(n as nat),
    decreases n,
{
    if n >= 10 {
        push_decimal(n / 10, out);
    }
    let d: u64 = n % 10;
    let c: char = match d {
        0 => '0',
        1 => '1',
        2 => '2',
        3 => '3',
        4 => '4',
        5 => '5',
        6 => '6',
        7 => '7',
        8 => '8',
        _ => '9',
    };
    assert(c == digit_char(d as nat));
    out.push(c);
    assert(old(out)@ + decimal(n as nat) =~= final(out)@) by {
        if n >= 10 {
            assert(old(out)@ + decimal((n / 10) as nat) + seq![c] =~= final(out)@);
        }
    }
}

/// The text of a version, as `semver::Version` displays it:
/// `major.minor.patch`, then `-pre` if there is a pre-release, then `+build`
/// if there is build metadata.
pub open spec fn version_text(v: VersionView) -> Seq<char> {
    decimal(v.major as nat) + seq!['.'] + decimal(v.minor as nat) + seq!['.'] + decimal(
        v.patch as nat,
    ) + (if v.pre.len() > 0 {
        seq!['-'] + v.pre
    } else {
        Seq::empty()
    }) + (if v.build.len() > 0 {
        seq!['+'] + v.build
    } else {
        Seq::empty()
    })
}

fn push_all(out: &mut Vec<char>, s: &Vec<char>)
    ensures
        final(out)@ == old(out)@ + s@,
{
    let mut i: usize = 0;
    while i < s.len()
        invariant
            i <= s.len(),
            out@ == old(out)@ + s@.take(i as int),
        decreases s.len() - i,
    {
        out.push(s[i]);
        assert(old(out)@ + s@.take(i + 1) =~= old(out)@ + s@.take(i as int) + seq![s@[i as int]]);
        i = i + 1;
    }
    assert(s@.take(s.len() as int) =~= s@);
}

impl SemVersion {
    /// Parses a semantic version such as `0.1.2` or `1.0.0-beta.2`.
    pub fn parse(text: &str) -> (res: Result<SemVersion, VersionError>)
        ensures
            match res {
                Ok(v) => parsed_version(text@) == Some(v@),
                Err(e) => parsed_version(text@) is None && e == (VersionError::InvalidVersion {
                    text: e->InvalidVersion_text,
                }) && e->InvalidVersion_text@ == text@,
            },
    {
        match semver_parse(text) {
            Ok(v) => Ok(v),
            Err(_) => Err(VersionError::InvalidVersion { text: copy_of(text) }),
        }
    }

    /// The version `major.minor.patch`, with no pre-release or build metadata.
    pub fn new(major: u64, minor: u64, patch: u64) -> (res: SemVersion)
        ensures
            res@ == release(major, minor, patch),
    {
        semver_new(major, minor, patch)
    }

    /// Whether `self` orders strictly before `other`.
    pub fn precedes(&self, other: &SemVersion) -> (res: bool)
        ensures
            res == version_precedes(self@, other@),
            self@.major != other@.major ==> res == (self@.major < other@.major),
            self@.major == other@.major && self@.minor != other@.minor ==> res == (self@.minor
                < other@.minor),
            self@.major == other@.major && self@.minor == other@.minor && self@.patch
                != other@.patch ==> res == (self@.patch < other@.patch),
            self@ == other@ ==> !res,
    {
        semver_lt(self, other)
    }

    /// Whether the two versions are equal, field by field (as
    /// `semver::Version`'s derived `==` compares them).
    pub fn same_as(&self, other: &SemVersion) -> (res: bool)
        ensures
            res == (self@ == other@),
    {
        self.major == other.major && self.minor == other.minor && self.patch == other.patch
            && same_text(self.pre.as_str(), other.pre.as_str()) && same_text(
            self.build.as_str(),
            other.build.as_str(),
        )
    }

    /// The major number.
    pub fn major(&self) -> (res: u64)
        ensures
            res == self@.major,
    {
        self.major
    }

    /// The minor number.
    pub fn minor(&self) -> (res: u64)
        ensures
            res == self@.minor,
    {
        self.minor
    }

    /// The patch number.
    pub fn patch(&self) -> (res: u64)
        ensures
            res == self@.patch,
    {
        self.patch
    }

    /// The pre-release identifiers, empty if there are none.
    pub fn pre(&self) -> (res: String)
        ensures
            res@ == self@.pre,
    {
        copy_of(self.pre.as_str())
    }

    /// The build metadata, empty if there is none.
    pub fn build(&self) -> (res: String)
        ensures
            res@ == self@.build,
    {
        copy_of(self.build.as_str())
    }

    /// The version's text, as `semver` displays it.
    pub fn to_string(&self) -> (res: String)
        ensures
            res@ == version_text(self@),
    {
        let mut out: Vec<char> = Vec::new();
        push_decimal(self.major, &mut out);
        out.push('.');
        push_decimal(self.minor, &mut out);
        out.push('.');
        push_decimal(self.patch, &mut out);
        let pre = chars_of(self.pre.as_str());
        if pre.len() > 0 {
            out.push('-');
            push_all(&mut out, &pre);
        }
        let build = chars_of(self.build.as_str());
        if build.len() > 0 {
            out.push('+');
            push_all(&mut out, &build);
        }
        let ghost v = self@;
        assert(out@ =~= version_text(v));
        string_of(&out)
    }
}


/// A version requirement such as `~0.2` or `>0.1.0-alpha, <2`.
///
/// The canonical text is the view; `inner` is the `semver::VersionReq` it is
/// the text of. Nothing verified ties the two: they are kept in step because
/// only the trusted functions of this module build one from the same
/// requirement, and its clone copies both.
#[derive(Debug, PartialEq, Eq)]
pub struct SemVersionReq {
    text: String,
    inner: semver::VersionReq,
}

impl View for SemVersionReq {
    type V = Seq<char>;

    /// The requirement's canonical text, as `semver` displays it.
    closed spec fn view(&self) -> Seq<char> {
        self.text@
    }
}

impl Clone for SemVersionReq {
    fn clone(&self) -> (res: Self)
        ensures
            res@ == self@,
    {
        SemVersionReq { text: copy_of(self.text.as_str()), inner: semver_req_clone(&self.inner) }
    }
}

/// Parses a version requirement.
///
/// Wraps `semver::VersionReq::parse`: `Ok` exactly where
/// [`parsed_requirement`] is `Some`, and then the requirement whose `Display`
/// text it names.
#[verifier::external_body]
fn semver_req_parse(text: &str) -> (res: Result<SemVersionReq, semver::Error>)
    ensures
        res is Ok <==> parsed_requirement(text@) is Some,
        res matches Ok(r) ==> parsed_requirement(text@) == Some(r@),
{
    match semver::VersionReq::parse(text) {
        Ok(r) => Ok(SemVersionReq { text: r.to_string(), inner: r }),
        Err(e) => Err(e),
    }
}

/// Whether a requirement matches a version.
///
/// Wraps `semver::VersionReq::matches`; the result is named
/// [`requirement_matches`].
#[verifier::external_body]
fn semver_req_matches(req: &SemVersionReq, version: &SemVersion) -> (res: bool)
    ensures
        res == requirement_matches(req@, version@),
{
    req.inner.matches(&version.inner)
}

/// The canonical text of the requirement that matches any release,
/// `semver::VersionReq::STAR`.
pub open spec fn star_text() -> Seq<char> {
    seq!['*']
}

/// The requirement `*`.
///
/// Wraps `semver::VersionReq::STAR`, the requirement with no comparators,
/// which `semver`'s `Display` writes as `*`.
#[verifier::external_body]
fn semver_star() -> (res: SemVersionReq)
    ensures
        res@ == star_text(),
{
    SemVersionReq { text: semver::VersionReq::STAR.to_string(), inner: semver::VersionReq::STAR }
}

impl SemVersionReq {
    /// Parses a version requirement such as `~0.2`.
    pub fn parse(text: &str) -> (res: Result<SemVersionReq, VersionError>)
        ensures
            match res {
                Ok(r) => parsed_requirement(text@) == Some(r@),
                Err(e) => parsed_requirement(text@) is None && e == (VersionError::InvalidRequirement {
                    text: e->InvalidRequirement_text,
                }) && e->InvalidRequirement_text@ == text@,
            },
    {
        match semver_req_parse(text) {
            Ok(r) => Ok(r),
            Err(_) => Err(VersionError::InvalidRequirement { text: copy_of(text) }),
        }
    }

    /// The requirement `*` (`semver::VersionReq::STAR`).
    pub fn star() -> (res: SemVersionReq)
        ensures
            res@ == star_text(),
    {
        semver_star()
    }

    /// Whether `version` satisfies this requirement.
    pub fn matches(&self, version: &SemVersion) -> (res: bool)
        ensures
            res == requirement_matches(self@, version@),
    {
        semver_req_matches(self, version)
    }

    /// Whether this is the requirement `*`, which `semver` displays as `*`
    /// and no other requirement displays so.
    pub fn is_star(&self) -> (res: bool)
        ensures
            res == (self@ == star_text()),
    {
        let v = chars_of(self.text.as_str());
        let r = v.len() == 1 && v[0] == '*';
        assert(r ==> v@ =~= star_text());
        r
    }

    /// The requirement's canonical text.
    pub fn to_string(&self) -> (res: String)
        ensures
            res@ == self@,
    {
        copy_of(self.text.as_str())
    }
}

} // verus!
