//! The decisions of the holochain version updater: which lair revision goes
//! with a holochain checkout, which companion tool version to pick, and how
//! the generated file describes itself.

use std::collections::HashMap;
use vstd::prelude::*;
use vstd::hash_map::StringHashMap;
use crate::source_url::{url_scheme, url_with_scheme, SourceUrl};
use crate::text::{
    concat, copy_of, lowercase_text, replace, replaced, same_text, split, split_on, split_once,
    split_once_at, string_views, to_lowercase, trim, trimmed,
};
use crate::nvfetcher::NvfetcherCrateSrcEntry;
use crate::update_config::ToolingCompatibilitySpecV1;
use crate::version::{
    parsed_requirement, star_text, release, requirement_matches, version_precedes, version_text, SemVersion, SemVersionReq,
    VersionView,
};

verus! {

/// The holochain repository used unless told otherwise.
pub const DEFAULT_HOLOCHAIN_GIT_REPO: &'static str = "https://github.com/holochain/holochain";

/// The lair repository used when the lock file names no git source for lair.
pub const DEFAULT_LAIR_GIT_REPO: &'static str = "https://github.com/holochain/lair";

/// The scaffolding repository used unless told otherwise.
pub const DEFAULT_SCAFFOLDING_GIT_REPO: &'static str = "https://github.com/holochain/scaffolding";

/// The crate of the scaffolding tool.
pub const DEFAULT_SCAFFOLDING_CRATE_NAME: &'static str = "holochain_scaffolding_cli";

/// The launcher repository used unless told otherwise.
pub const DEFAULT_LAUNCHER_GIT_REPO: &'static str = "https://github.com/holochain/launcher";

/// The crate of the launcher tool.
pub const DEFAULT_LAUNCHER_CRATE_NAME: &'static str = "holochain_cli_launch";

/// The package of holochain's lock file whose version decides the lair
/// revision.
pub const LAIR_PACKAGE: &'static str = "lair_keystore_api";

// ---------------------------------------------------------------------------
// key:value lists

/// The key and value of one `key:value` item: trimmed, then lowercased, then
/// split at its first `:`; `None` for an item without a `:`.
pub open spec fn hashmap_item(piece: Seq<char>) -> Option<(Seq<char>, Seq<char>)> {
    split_once_at(lowercase_text(trimmed(piece)), ':')
}

/// The map built from `key:value` items, a later item overriding an earlier
/// one with the same key.
pub open spec fn hashmap_of_items(pieces: Seq<Seq<char>>) -> Map<Seq<char>, Seq<char>>
    decreases pieces.len(),
{
    if pieces.len() == 0 {
        Map::empty()
    } else {
        let m = hashmap_of_items(pieces.drop_last());
        match hashmap_item(pieces.last()) {
            Some((k, v)) => m.insert(k, v),
            None => m,
        }
    }
}

/// The map read from a comma separated list of `key:value` items, after all
/// double quotes are removed.
pub open spec fn parsed_hashmap(src: Seq<char>) -> Map<Seq<char>, Seq<char>> {
    hashmap_of_items(split_on(replaced(src, seq!['"'], Seq::empty()), ','))
}

/// Parses a comma separated list of `key:value` pairs into a map.
pub fn parse_hashmap(src: &str) -> (res: StringHashMap<String>)
    ensures
        res@.map_values(|v: String| v@) == parsed_hashmap(src@),
{
    proof {
        reveal_strlit("\"");
        reveal_strlit("");
    }
    assert("\""@ =~= seq!['"']);
    assert(""@ =~= Seq::<char>::empty());
    let unquoted = replace(src, "\"", "");
    let pieces = split(unquoted.as_str(), ',');
    let ghost views = string_views(pieces@);
    let mut m: StringHashMap<String> = StringHashMap::new();
    let mut i: usize = 0;
    assert(views.take(0) =~= Seq::<Seq<char>>::empty());
    assert(m@.map_values(|v: String| v@) =~= Map::<Seq<char>, Seq<char>>::empty());
    while i < pieces.len()
        invariant
            i <= pieces.len(),
            views == string_views(pieces@),
            views == split_on(unquoted@, ','),
            m@.map_values(|v: String| v@) == hashmap_of_items(views.take(i as int)),
        decreases pieces.len() - i,
    {
        let t = trim(pieces[i].as_str());
        let l = to_lowercase(t.as_str());
        assert(views.take(i + 1).drop_last() =~= views.take(i as int));
        assert(views.take(i + 1).last() == pieces@[i as int]@);
        match split_once(l.as_str(), ':') {
            Some((k, v)) => {
                let ghost before = m@;
                m.insert(k, v);
                assert(m@.map_values(|v: String| v@) =~= before.map_values(|v: String| v@).insert(
                    k@,
                    v@,
                ));
            },
            None => {},
        }
        i = i + 1;
    }
    assert(views.take(pieces.len() as int) =~= views);
    m
}

// ---------------------------------------------------------------------------
// lair revision

/// Where a locked package comes from.
pub struct LockSource {
    /// The source's URL.
    pub url: SourceUrl,
    /// Whether the source is a git repository.
    pub is_git: bool,
}

/// A package of a `Cargo.lock` file.
pub struct LockPackage {
    pub name: String,
    pub version: SemVersion,
    pub source: Option<LockSource>,
}

/// The plain content of a [`LockPackage`].
pub struct LockPackageView {
    pub name: Seq<char>,
    pub version: VersionView,
    pub source: Option<(Seq<char>, bool)>,
}

impl View for LockPackage {
    type V = LockPackageView;

    open spec fn view(&self) -> LockPackageView {
        LockPackageView {
            name: self.name@,
            version: self.version@,
            source: match self.source {
                Some(s) => Some((s.url@, s.is_git)),
                None => None,
            },
        }
    }
}

/// Whether a package is the lair package in a version that `req` accepts.
pub open spec fn is_lair_match(p: LockPackageView, req: Seq<char>) -> bool {
    p.name == LAIR_PACKAGE@ && requirement_matches(req, p.version)
}

/// The position of the first lair package that `req` accepts.
pub open spec fn lair_package_index(pkgs: Seq<LockPackageView>, req: Seq<char>) -> Option<int> {
    if exists|i: int| 0 <= i < pkgs.len() && is_lair_match(#[trigger] pkgs[i], req) {
        Some(
            choose|i: int|
                0 <= i < pkgs.len() && is_lair_match(#[trigger] pkgs[i], req) && forall|k: int|
                    0 <= k < i ==> !is_lair_match(#[trigger] pkgs[k], req),
        )
    } else {
        None
    }
}

/// The text `git+`.
pub open spec fn git_plus() -> Seq<char> {
    seq!['g', 'i', 't', '+']
}

/// The URL of a git source with `git+` removed from its scheme: `None` where
/// the scheme cannot be changed.
pub open spec fn lair_source_url(url: Seq<char>) -> Option<Seq<char>> {
    url_with_scheme(url, replaced(url_scheme(url), git_plus(), Seq::empty()))
}

/// The lair revision for a lair version: `v<version>`, prefixed with
/// `lair_keystore_api-` from version 0.1.2 on.
pub open spec fn lair_rev_text(v: VersionView) -> Seq<char> {
    (if !version_precedes(v, release(0, 1, 2)) {
        LAIR_PACKAGE@ + seq!['-']
    } else {
        Seq::empty()
    }) + seq!['v'] + version_text(v)
}

/// Why no lair revision could be determined.
#[derive(Debug, PartialEq, Eq)]
pub enum LairRevisionError {
    /// The text is not a `Cargo.lock` file.
    NotALockfile,
    /// No lair package in the lock file matches the requirement.
    NotFound { version_req: String },
    /// The `git+` could not be removed from the source URL's scheme.
    SchemeNotChanged,
}

/// What the lair revision is for the packages `pkgs` of a lock file and the
/// requirement `req`: the first `lair_keystore_api` package whose version
/// `req` accepts, its git source (if it has one) with `git+` removed from the
/// URL's scheme, and its version as a revision name.
pub open spec fn lair_outcome(
    pkgs: Seq<LockPackageView>,
    req: Seq<char>,
    res: Result<(Option<String>, String), LairRevisionError>,
) -> bool {
    match lair_package_index(pkgs, req) {
        None => res matches Err(LairRevisionError::NotFound { version_req: r }) && r@ == req,
        Some(i) => {
            let p = pkgs[i];
            match p.source {
                Some((text, true)) => match lair_source_url(text) {
                    None => res matches Err(LairRevisionError::SchemeNotChanged),
                    Some(u) => res matches Ok((Some(url), rev)) && url@ == u && rev@
                        == lair_rev_text(p.version),
                },
                _ => res matches Ok((None, rev)) && rev@ == lair_rev_text(p.version),
            }
        },
    }
}

/// The packages that `cargo_lock` reads from the text of a `Cargo.lock` file,
/// in order: `None` where the text is not a lock file.
pub uninterp spec fn parsed_lock_packages(text: Seq<char>) -> Option<Seq<LockPackageView>>;

/// Reads the packages of a `Cargo.lock` file.
///
/// Wraps `cargo_lock::Lockfile::from_str`: `Some` exactly where
/// [`parsed_lock_packages`] is, and then each package's name, version (its
/// fields copied together with the `semver::Version` itself), and source
/// (`SourceId::url`, its serialization copied together with it, and
/// `SourceId::is_git`).
#[verifier::external_body]
fn lockfile_packages(text: &str) -> (res: Option<Vec<LockPackage>>)
    ensures
        match res {
            Some(p) => parsed_lock_packages(text@) == Some(p@.map_values(|x: LockPackage| x@)),
            None => parsed_lock_packages(text@) is None,
        },
{
    match text.parse::<cargo_lock::Lockfile>() {
        Ok(lock) => Some(lock.packages.iter().map(|p| LockPackage {
            name: p.name.as_str().to_string(),
            version: SemVersion { major: p.version.major, minor: p.version.minor,
                patch: p.version.patch, pre: p.version.pre.to_string(),
                build: p.version.build.to_string(), inner: p.version.clone() },
            source: p.source.as_ref().map(|s| LockSource {
                url: SourceUrl { text: s.url().as_str().to_string(), inner: s.url().clone() },
                is_git: s.is_git(),
            }),
        }).collect()),
        Err(_) => None,
    }
}

/// The lair repository and revision that holochain's lock file pins (see
/// [`lair_outcome`]).
pub fn lair_revision(packages: &Vec<LockPackage>, version_req: &SemVersionReq) -> (res: Result<
    (Option<String>, String),
    LairRevisionError,
>)
    ensures
        lair_outcome(packages@.map_values(|p: LockPackage| p@), version_req@, res),
{
    let ghost pkgs = packages@.map_values(|p: LockPackage| p@);
    proof { reveal_strlit("lair_keystore_api"); }
    let mut i: usize = 0;
    while i < packages.len()
        invariant
            i <= packages.len(),
            pkgs == packages@.map_values(|p: LockPackage| p@),
            forall|k: int| 0 <= k < i ==> !is_lair_match(#[trigger] pkgs[k], version_req@),
        decreases packages.len() - i,
    {
        let p = &packages[i];
        assert(pkgs[i as int] == p@);
        if same_text(p.name.as_str(), LAIR_PACKAGE) && version_req.matches(&p.version) {
            assert(is_lair_match(pkgs[i as int], version_req@));
            assert(lair_package_index(pkgs, version_req@) == Some(i as int)) by {
                let j = lair_package_index(pkgs, version_req@)->0;
                if j < i {
                    assert(!is_lair_match(pkgs[j], version_req@));
                } else if j > i {
                    assert(!is_lair_match(pkgs[i as int], version_req@));
                }
            }
            return lair_revision_of(p);
        }
        i = i + 1;
    }
    assert(lair_package_index(pkgs, version_req@) is None);
    Err(LairRevisionError::NotFound { version_req: version_req.to_string() })
}

/// The lair repository and revision pinned by the lock file with text
/// `lock_text`; an error if the text is not a lock file.
pub fn lair_revision_from_lockfile(lock_text: &str, version_req: &SemVersionReq) -> (res: Result<
    (Option<String>, String),
    LairRevisionError,
>)
    ensures
        match parsed_lock_packages(lock_text@) {
            None => res matches Err(LairRevisionError::NotALockfile),
            Some(pkgs) => lair_outcome(pkgs, version_req@, res),
        },
{
    match lockfile_packages(lock_text) {
        Some(packages) => lair_revision(&packages, version_req),
        None => Err(LairRevisionError::NotALockfile),
    }
}

/// The lair repository and revision of the chosen lair package.
fn lair_revision_of(p: &LockPackage) -> (res: Result<(Option<String>, String), LairRevisionError>)
    ensures
        match p@.source {
            Some((text, true)) => match lair_source_url(text) {
                None => res matches Err(LairRevisionError::SchemeNotChanged),
                Some(u) => res matches Ok((Some(url), rev)) && url@ == u && rev@
                    == lair_rev_text(p@.version),
            },
            _ => res matches Ok((None, rev)) && rev@ == lair_rev_text(p@.version),
        },
{
    let source = match &p.source {
        Some(s) if s.is_git => {
            let mut url = s.url.clone();
            let scheme = url.scheme();
            proof {
                reveal_strlit("git+");
                reveal_strlit("");
            }
            assert("git+"@ =~= git_plus());
            assert(""@ =~= Seq::<char>::empty());
            let new_scheme = replace(scheme.as_str(), "git+", "");
            if !url.set_scheme(new_scheme.as_str()) {
                return Err(LairRevisionError::SchemeNotChanged);
            }
            Some(url.as_string())
        },
        _ => None,
    };
    let v012 = SemVersion::new(0, 1, 2);
    proof {
        reveal_strlit("lair_keystore_api-");
        reveal_strlit("v");
        reveal_strlit("lair_keystore_api");
        reveal_strlit("");
    }
    assert(""@ =~= Seq::<char>::empty());
    assert("v"@ =~= seq!['v']);
    let prefix = if !p.version.precedes(&v012) {
        assert("lair_keystore_api-"@ =~= LAIR_PACKAGE@ + seq!['-']);
        copy_of("lair_keystore_api-")
    } else {
        copy_of("")
    };
    let with_v = concat(prefix.as_str(), "v");
    let version_text = p.version.to_string();
    let rev = concat(with_v.as_str(), version_text.as_str());
    assert(rev@ =~= lair_rev_text(p@.version));
    Ok((source, rev))
}


// ---------------------------------------------------------------------------
// companion tool versions

/// A dependency of a workspace member.
pub struct DependencySpec {
    pub package_name: String,
    /// Whether it is a normal dependency (not a dev- or build-dependency).
    pub is_normal: bool,
    /// The version requirement, as text.
    pub version_req: String,
}

/// A member of a cargo workspace.
pub struct WorkspaceMember {
    pub name: String,
    pub version: SemVersion,
    pub dependencies: Vec<DependencySpec>,
}

/// The plain content of a [`DependencySpec`].
pub struct DependencyView {
    pub package_name: Seq<char>,
    pub is_normal: bool,
    pub version_req: Seq<char>,
}

/// The plain content of a [`WorkspaceMember`].
pub struct MemberView {
    pub name: Seq<char>,
    pub version: VersionView,
    pub dependencies: Seq<DependencyView>,
}

impl View for DependencySpec {
    type V = DependencyView;

    open spec fn view(&self) -> DependencyView {
        DependencyView {
            package_name: self.package_name@,
            is_normal: self.is_normal,
            version_req: self.version_req@,
        }
    }
}

impl View for WorkspaceMember {
    type V = MemberView;

    open spec fn view(&self) -> MemberView {
        MemberView {
            name: self.name@,
            version: self.version@,
            dependencies: self.dependencies@.map_values(|d: DependencySpec| d@),
        }
    }
}

/// The text `holochain`.
pub open spec fn holochain_name() -> Seq<char> {
    seq!['h', 'o', 'l', 'o', 'c', 'h', 'a', 'i', 'n']
}

/// The position of the first member called `name`.
pub open spec fn member_index(members: Seq<MemberView>, name: Seq<char>) -> Option<int>
    decreases members.len(),
{
    if members.len() == 0 {
        None
    } else if members[0].name == name {
        Some(0)
    } else {
        match member_index(members.skip(1), name) {
            Some(i) => Some(i + 1),
            None => None,
        }
    }
}

/// The version requirement of the first normal dependency on `holochain`.
pub open spec fn holochain_requirement(deps: Seq<DependencyView>) -> Option<Seq<char>>
    decreases deps.len(),
{
    if deps.len() == 0 {
        None
    } else if deps[0].is_normal && deps[0].package_name == holochain_name() {
        Some(deps[0].version_req)
    } else {
        holochain_requirement(deps.skip(1))
    }
}

/// Whether a requirement is `*` or matches `v`.
pub open spec fn star_or_matches(req: Seq<char>, v: VersionView) -> bool {
    req == star_text() || requirement_matches(req, v)
}

/// What one tag of a companion tool's repository amounts to.
pub enum ToolingVerdict {
    /// The workspace has no member with the tool's crate name.
    MemberMissing,
    /// The tool's version qualifies, but it does not depend on holochain.
    NoHolochainDependency,
    /// The tool's holochain requirement does not read as a requirement.
    InvalidRequirement(Seq<char>),
    /// The tool's version, or the holochain version it needs, does not fit.
    Rejected,
    /// A candidate with this version.
    Accepted(VersionView),
}

/// The verdict on a tag whose workspace has `members`: the member called
/// `name` is a candidate if its version is accepted by `tool_req` (or that
/// is `*`) and the requirement of its normal dependency on holochain accepts
/// `holochain` (or is `*`).
pub open spec fn tooling_verdict(
    members: Seq<MemberView>,
    name: Seq<char>,
    holochain: VersionView,
    tool_req: Seq<char>,
) -> ToolingVerdict {
    match member_index(members, name) {
        None => ToolingVerdict::MemberMissing,
        Some(i) => {
            let m = members[i];
            if !star_or_matches(tool_req, m.version) {
                ToolingVerdict::Rejected
            } else {
                match holochain_requirement(m.dependencies) {
                    None => ToolingVerdict::NoHolochainDependency,
                    Some(t) => match parsed_requirement(t) {
                        None => ToolingVerdict::InvalidRequirement(t),
                        Some(r) => if star_or_matches(r, holochain) {
                            ToolingVerdict::Accepted(m.version)
                        } else {
                            ToolingVerdict::Rejected
                        },
                    },
                }
            }
        },
    }
}

/// The choice after seeing candidate `id` with version `v`: the earlier
/// choice stays if `v` orders before it, otherwise the candidate replaces it.
pub open spec fn chosen_after(state: Option<(VersionView, nat)>, v: VersionView, id: nat) -> Option<
    (VersionView, nat),
> {
    match state {
        Some((e, j)) => if version_precedes(v, e) {
            Some((e, j))
        } else {
            Some((v, id))
        },
        None => Some((v, id)),
    }
}

/// Why a companion tool could not be looked up.
#[derive(Debug, PartialEq, Eq)]
pub enum ToolingError {
    /// The workspace of a tag has no member with the tool's crate name.
    MemberMissing { name: String },
    /// The tool does not depend on holochain.
    NoHolochainDependency { name: String },
    /// The tool's holochain requirement does not read as a requirement.
    InvalidRequirement { text: String },
}

/// Whether the tool is looked up at all for this holochain version.
pub fn tooling_applies(compat: &ToolingCompatibilitySpecV1, holochain_semver: &SemVersion) -> (res:
    bool)
    ensures
        res == requirement_matches(compat.holochain_version_req@, holochain_semver@),
{
    compat.holochain_version_req.matches(holochain_semver)
}

/// Whether `req` is `*` or matches `version`.
pub fn is_star_or_matches(version: &SemVersion, req: &SemVersionReq) -> (res: bool)
    ensures
        res == star_or_matches(req@, version@),
{
    req.is_star() || req.matches(version)
}

/// The chosen candidate among a companion tool's tags.
pub struct ToolingSelection {
    chosen: Option<(SemVersion, usize)>,
}

impl View for ToolingSelection {
    type V = Option<(VersionView, nat)>;

    closed spec fn view(&self) -> Option<(VersionView, nat)> {
        match self.chosen {
            Some((v, id)) => Some((v@, id as nat)),
            None => None,
        }
    }
}

proof fn lemma_member_index(members: Seq<MemberView>, name: Seq<char>, i: int)
    requires
        0 <= i <= members.len(),
        forall|k: int| 0 <= k < i ==> members[k].name != name,
    ensures
        i < members.len() && members[i].name == name ==> member_index(members, name) == Some(i),
        i == members.len() ==> member_index(members, name) is None,
    decreases i,
{
    if i > 0 {
        lemma_member_index(members.skip(1), name, i - 1);
    } else if members.len() > 0 && members[0].name != name {
    }
}

proof fn lemma_holochain_requirement_skip(deps: Seq<DependencyView>, i: int)
    requires
        0 <= i < deps.len(),
        !(deps[i].is_normal && deps[i].package_name == holochain_name()),
    ensures
        holochain_requirement(deps.skip(i)) == holochain_requirement(deps.skip(i + 1)),
{
    assert(deps.skip(i).skip(1) =~= deps.skip(i + 1));
}

/// The member found by name is the first one with that name.
proof fn lemma_member_index_first(members: Seq<MemberView>, name: Seq<char>)
    ensures
        member_index(members, name) matches Some(i) ==> 0 <= i < members.len() && members[i].name == name
            && forall|k: int| 0 <= k < i ==> members[k].name != name,
    decreases members.len(),
{
    if members.len() > 0 && members[0].name != name {
        lemma_member_index_first(members.skip(1), name);
        if member_index(members.skip(1), name) is Some {
            let j = member_index(members.skip(1), name)->0;
            assert forall|k: int| 0 <= k < j + 1 implies members[k].name != name by {
                if k > 0 {
                    assert(members[k] == members.skip(1)[k - 1]);
                }
            }
            assert(members[j + 1] == members.skip(1)[j]);
        }
    }
}

/// A tag whose tool member (the first workspace member called `name`) has a
/// version that the tool requirement refuses, the requirement not being `*`,
/// is skipped whatever the holochain version: [`ToolingSelection::consider`]
/// returns `Ok` and keeps its choice.
pub proof fn lemma_tool_version_refused(
    members: Seq<MemberView>,
    name: Seq<char>,
    holochain: VersionView,
    tool_req: Seq<char>,
    i: int,
)
    requires
        0 <= i < members.len(),
        members[i].name == name,
        forall|k: int| 0 <= k < i ==> members[k].name != name,
        tool_req != star_text(),
        !requirement_matches(tool_req, members[i].version),
    ensures
        tooling_verdict(members, name, holochain, tool_req) is Rejected,
{
    lemma_member_index(members, name, i);
}

/// A tag is only ever accepted with the version of its first workspace
/// member called `name`, and only when the tool requirement is `*` or
/// accepts that version.
pub proof fn lemma_accepted_tool_fits(
    members: Seq<MemberView>,
    name: Seq<char>,
    holochain: VersionView,
    tool_req: Seq<char>,
)
    ensures
        tooling_verdict(members, name, holochain, tool_req) matches ToolingVerdict::Accepted(v) ==> exists|i: int|
            0 <= i < members.len() && #[trigger] members[i].name == name && (forall|k: int|
                0 <= k < i ==> members[k].name != name) && members[i].version == v && (tool_req
                == star_text() || requirement_matches(tool_req, v)),
{
    lemma_member_index_first(members, name);
    if member_index(members, name) is Some {
        let i = member_index(members, name)->0;
        assert(members[i].name == name);
    }
}

impl ToolingSelection {
    /// No candidate yet.
    pub fn new() -> (res: ToolingSelection)
        ensures
            res@ is None,
    {
        ToolingSelection { chosen: None }
    }

    /// The id of the chosen candidate, if there is one.
    pub fn chosen(&self) -> (res: Option<usize>)
        ensures
            match self@ {
                Some((_, id)) => res == Some(id as usize),
                None => res is None,
            },
    {
        match &self.chosen {
            Some((_, id)) => Some(*id),
            None => None,
        }
    }

    /// The version of the chosen candidate, if there is one.
    pub fn chosen_version(&self) -> (res: Option<SemVersion>)
        ensures
            match self@ {
                Some((v, _)) => res matches Some(r) && r@ == v,
                None => res is None,
            },
    {
        match &self.chosen {
            Some((v, _)) => Some(v.clone()),
            None => None,
        }
    }

    /// Takes into account tag `id`, whose workspace has `members`: its
    /// member called `tooling_crate_name` becomes the choice if it is a
    /// candidate (see [`tooling_verdict`]) and does not order before the
    /// current choice. A missing member, a missing holochain dependency or an
    /// unreadable holochain requirement is an error, and leaves the choice
    /// as it was.
    pub fn consider(
        &mut self,
        id: usize,
        members: &Vec<WorkspaceMember>,
        tooling_crate_name: &str,
        holochain_semver: &SemVersion,
        compat: &ToolingCompatibilitySpecV1,
    ) -> (res: Result<(), ToolingError>)
        ensures
            ({
                let verdict = tooling_verdict(
                    members@.map_values(|m: WorkspaceMember| m@),
                    tooling_crate_name@,
                    holochain_semver@,
                    compat.tool_version_req@,
                );
                match verdict {
                    ToolingVerdict::MemberMissing => res matches Err(
                        ToolingError::MemberMissing { name },
                    ) && name@ == tooling_crate_name@ && final(self)@ == old(self)@,
                    ToolingVerdict::NoHolochainDependency => res matches Err(
                        ToolingError::NoHolochainDependency { name },
                    ) && name@ == tooling_crate_name@ && final(self)@ == old(self)@,
                    ToolingVerdict::InvalidRequirement(t) => res matches Err(
                        ToolingError::InvalidRequirement { text },
                    ) && text@ == t && final(self)@ == old(self)@,
                    ToolingVerdict::Rejected => res is Ok && final(self)@ == old(self)@,
                    ToolingVerdict::Accepted(v) => res is Ok && final(self)@ == chosen_after(
                        old(self)@,
                        v,
                        id as nat,
                    ),
                }
            }),
    {
        let ghost mviews = members@.map_values(|m: WorkspaceMember| m@);
        let mut i: usize = 0;
        let mut found = false;
        while !found && i < members.len()
            invariant
                i <= members.len(),
                mviews == members@.map_values(|m: WorkspaceMember| m@),
                forall|k: int| 0 <= k < i ==> mviews[k].name != tooling_crate_name@,
                found ==> i < members.len() && mviews[i as int].name == tooling_crate_name@,
            decreases members.len() - i + (if found { 0int } else { 1int }),
        {
            if same_text(members[i].name.as_str(), tooling_crate_name) {
                found = true;
            } else {
                i = i + 1;
            }
        }
        proof { lemma_member_index(mviews, tooling_crate_name@, i as int); }
        if i == members.len() {
            return Err(ToolingError::MemberMissing { name: copy_of(tooling_crate_name) });
        }
        let member = &members[i];
        assert(mviews[i as int] == member@);
        if !is_star_or_matches(&member.version, &compat.tool_version_req) {
            return Ok(());
        }
        let ghost dviews = member.dependencies@.map_values(|d: DependencySpec| d@);
        proof { reveal_strlit("holochain"); }
        assert("holochain"@ =~= holochain_name());
        assert(dviews.skip(0) =~= dviews);
        let mut j: usize = 0;
        let mut found_dep = false;
        while !found_dep && j < member.dependencies.len()
            invariant
                j <= member.dependencies.len(),
                "holochain"@ == holochain_name(),
                dviews == member.dependencies@.map_values(|d: DependencySpec| d@),
                holochain_requirement(dviews) == holochain_requirement(dviews.skip(j as int)),
                found_dep ==> j < member.dependencies.len() && dviews[j as int].is_normal
                    && dviews[j as int].package_name == holochain_name(),
            decreases member.dependencies.len() - j + (if found_dep { 0int } else { 1int }),
        {
            let dep = &member.dependencies[j];
            assert(dviews[j as int] == dep@);
            if dep.is_normal && same_text(dep.package_name.as_str(), "holochain") {
                found_dep = true;
            } else {
                proof { lemma_holochain_requirement_skip(dviews, j as int); }
                j = j + 1;
            }
        }
        if j == member.dependencies.len() {
            assert(dviews.skip(j as int) =~= Seq::<DependencyView>::empty());
            return Err(ToolingError::NoHolochainDependency { name: copy_of(tooling_crate_name) });
        }
        let req_text = &member.dependencies[j].version_req;
        assert(dviews.skip(j as int)[0] == dviews[j as int]);
        assert(holochain_requirement(dviews) == Some(req_text@));
        let req = match SemVersionReq::parse(req_text.as_str()) {
            Ok(r) => r,
            Err(_) => {
                return Err(ToolingError::InvalidRequirement { text: copy_of(req_text.as_str()) });
            },
        };
        if !is_star_or_matches(holochain_semver, &req) {
            return Ok(());
        }
        let keep = match &self.chosen {
            Some((existing, _)) => member.version.precedes(existing),
            None => false,
        };
        if !keep {
            self.chosen = Some((member.version.clone(), id));
        }
        Ok(())
    }
}

/// The choice after a run of verdicts, each with its candidate id, where
/// no verdict was an error.
pub open spec fn chosen_over(verdicts: Seq<(ToolingVerdict, nat)>) -> Option<(VersionView, nat)>
    decreases verdicts.len(),
{
    if verdicts.len() == 0 {
        None
    } else {
        let prev = chosen_over(verdicts.drop_last());
        match verdicts.last().0 {
            ToolingVerdict::Accepted(v) => chosen_after(prev, v, verdicts.last().1),
            _ => prev,
        }
    }
}

/// Whether `version_precedes` is a strict total order on the versions that
/// the run accepted.
pub open spec fn ordered_on(verdicts: Seq<(ToolingVerdict, nat)>) -> bool {
    &&& forall|k: int|
        0 <= k < verdicts.len() && (#[trigger] verdicts[k]).0 is Accepted ==> !version_precedes(
            verdicts[k].0->Accepted_0,
            verdicts[k].0->Accepted_0,
        )
    &&& forall|k1: int, k2: int|
        #![trigger verdicts[k1], verdicts[k2]]
        0 <= k1 < verdicts.len() && 0 <= k2 < verdicts.len() && verdicts[k1].0 is Accepted
            && verdicts[k2].0 is Accepted && verdicts[k1].0->Accepted_0 != verdicts[k2].0->Accepted_0
            ==> version_precedes(verdicts[k1].0->Accepted_0, verdicts[k2].0->Accepted_0)
            || version_precedes(verdicts[k2].0->Accepted_0, verdicts[k1].0->Accepted_0)
    &&& forall|k1: int, k2: int|
        #![trigger verdicts[k1], verdicts[k2]]
        0 <= k1 < verdicts.len() && 0 <= k2 < verdicts.len() && verdicts[k1].0 is Accepted
            && verdicts[k2].0 is Accepted && version_precedes(
            verdicts[k1].0->Accepted_0,
            verdicts[k2].0->Accepted_0,
        ) ==> !version_precedes(verdicts[k2].0->Accepted_0, verdicts[k1].0->Accepted_0)
    &&& forall|k1: int, k2: int, k3: int|
        #![trigger verdicts[k1], verdicts[k2], verdicts[k3]]
        0 <= k1 < verdicts.len() && 0 <= k2 < verdicts.len() && 0 <= k3 < verdicts.len()
            && verdicts[k1].0 is Accepted && verdicts[k2].0 is Accepted && verdicts[k3].0 is Accepted
            && version_precedes(verdicts[k1].0->Accepted_0, verdicts[k2].0->Accepted_0)
            && version_precedes(verdicts[k2].0->Accepted_0, verdicts[k3].0->Accepted_0)
            ==> version_precedes(verdicts[k1].0->Accepted_0, verdicts[k3].0->Accepted_0)
}

/// Over a run of tags without errors, the chosen candidate is one that was
/// accepted, no accepted version orders after it (given that the versions'
/// order is a strict total order, as `semver` documents), and there is a
/// choice exactly when some tag was accepted.
pub proof fn lemma_chosen_is_greatest(verdicts: Seq<(ToolingVerdict, nat)>)
    requires
        ordered_on(verdicts),
    ensures
        chosen_over(verdicts) matches Some((f, id)) ==> exists|k: int|
            0 <= k < verdicts.len() && #[trigger] verdicts[k] == (ToolingVerdict::Accepted(f), id),
        chosen_over(verdicts) matches Some((f, id)) ==> forall|k: int|
            0 <= k < verdicts.len() && (#[trigger] verdicts[k]).0 is Accepted ==> !version_precedes(
                f,
                verdicts[k].0->Accepted_0,
            ),
        chosen_over(verdicts) is None <==> forall|k: int|
            0 <= k < verdicts.len() ==> !((#[trigger] verdicts[k]).0 is Accepted),
    decreases verdicts.len(),
{
    if verdicts.len() > 0 {
        let prefix = verdicts.drop_last();
        let n = verdicts.len() - 1;
        assert forall|k: int| 0 <= k < prefix.len() implies #[trigger] prefix[k] == verdicts[k] by {}
        lemma_chosen_is_greatest(prefix);
        let prev = chosen_over(prefix);
        let last = verdicts[n];
        match last.0 {
            ToolingVerdict::Accepted(c) => {
                match prev {
                    Some((e, j)) => {
                        let ke = choose|k: int|
                            0 <= k < prefix.len() && #[trigger] prefix[k] == (ToolingVerdict::Accepted(e), j);
                        assert(verdicts[ke] == prefix[ke]);
                        if version_precedes(c, e) {
                            assert(verdicts[n] == last);
                            assert(!version_precedes(e, c));
                            assert forall|k: int|
                                0 <= k < verdicts.len() && (#[trigger] verdicts[k]).0 is Accepted implies !version_precedes(
                                e,
                                verdicts[k].0->Accepted_0,
                            ) by {
                                if k < n {
                                    assert(prefix[k] == verdicts[k]);
                                }
                            }
                        } else {
                            assert forall|k: int|
                                0 <= k < verdicts.len() && (#[trigger] verdicts[k]).0 is Accepted implies !version_precedes(
                                c,
                                verdicts[k].0->Accepted_0,
                            ) by {
                                if k < n {
                                    assert(prefix[k] == verdicts[k]);
                                    let v = verdicts[k].0->Accepted_0;
                                    if version_precedes(c, v) {
                                        if e == c {
                                            assert(!version_precedes(e, v));
                                        } else {
                                            assert(verdicts[n] == last);
                                            assert(version_precedes(e, c) || version_precedes(c, e));
                                            assert(version_precedes(e, v));
                                            assert(!version_precedes(e, v));
                                        }
                                    }
                                } else {
                                    assert(verdicts[n] == last);
                                }
                            }
                            assert(verdicts[n] == (ToolingVerdict::Accepted(c), last.1));
                        }
                    },
                    None => {
                        assert forall|k: int|
                            0 <= k < verdicts.len() && (#[trigger] verdicts[k]).0 is Accepted implies !version_precedes(
                            c,
                            verdicts[k].0->Accepted_0,
                        ) by {
                            if k < n {
                                assert(prefix[k] == verdicts[k]);
                            } else {
                                assert(verdicts[n] == last);
                            }
                        }
                        assert(verdicts[n] == (ToolingVerdict::Accepted(c), last.1));
                    },
                }
            },
            _ => {
                match prev {
                    Some((e, j)) => {
                        let ke = choose|k: int|
                            0 <= k < prefix.len() && #[trigger] prefix[k] == (ToolingVerdict::Accepted(e), j);
                        assert(verdicts[ke] == prefix[ke]);
                        assert forall|k: int|
                            0 <= k < verdicts.len() && (#[trigger] verdicts[k]).0 is Accepted implies !version_precedes(
                            e,
                            verdicts[k].0->Accepted_0,
                        ) by {
                            if k < n {
                                assert(prefix[k] == verdicts[k]);
                            } else {
                                assert(verdicts[n] == last);
                            }
                        }
                    },
                    None => {
                        assert forall|k: int| 0 <= k < verdicts.len() implies !((#[trigger] verdicts[k]).0 is Accepted) by {
                            if k < n {
                                assert(prefix[k] == verdicts[k]);
                            } else {
                                assert(verdicts[n] == last);
                            }
                        }
                    },
                }
            },
        }
    }
}


// ---------------------------------------------------------------------------
// the generated file

/// The lair repository: the one the lock file names, else `default_repo`.
pub fn lair_repo(found: Option<String>, default_repo: String) -> (res: String)
    ensures
        res@ == (match found {
            Some(u) => u@,
            None => default_repo@,
        }),
{
    match found {
        Some(u) => u,
        None => default_repo,
    }
}

/// The last component of a path (`Path::file_name`), `None` for a path that
/// ends in `..`, the root or the empty path.
pub uninterp spec fn path_file_name(p: Seq<char>) -> Option<Seq<char>>;

/// The file name of a path.
///
/// Wraps `std::path::Path::file_name` on a path made from a string; the
/// result, converted back to a string, is named [`path_file_name`].
#[verifier::external_body]
fn file_name_of(p: &str) -> (res: Option<String>)
    ensures
        match res {
            Some(n) => path_file_name(p@) == Some(n@),
            None => path_file_name(p@) is None,
        },
{
    match std::path::Path::new(p).file_name() {
        Some(os) => Some(os.to_string_lossy().to_string()),
        None => None,
    }
}

/// The command line as the generated file's header comment shows it: the
/// current directory (with its trailing `/`) removed from every argument,
/// and the program reduced to its file name.
pub open spec fn comment_args(args: Seq<Seq<char>>, current_dir: Seq<char>) -> Seq<Seq<char>> {
    let stripped = args.map_values(|a: Seq<char>| replaced(a, current_dir + seq!['/'], Seq::empty()));
    if stripped.len() > 0 && path_file_name(stripped[0]) is Some {
        stripped.update(0, path_file_name(stripped[0])->0)
    } else {
        stripped
    }
}

/// The command line for the generated file's header comment.
pub fn args_for_comment(args: &Vec<String>, current_dir: &str) -> (res: Vec<String>)
    ensures
        string_views(res@) == comment_args(string_views(args@), current_dir@),
{
    proof { reveal_strlit("/"); reveal_strlit(""); }
    assert("/"@ =~= seq!['/']);
    assert(""@ =~= Seq::<char>::empty());
    let prefix = concat(current_dir, "/");
    let mut out: Vec<String> = Vec::new();
    let mut i: usize = 0;
    let ghost views = string_views(args@);
    let ghost stripped = views.map_values(|a: Seq<char>| replaced(a, current_dir@ + seq!['/'], Seq::empty()));
    while i < args.len()
        invariant
            i <= args.len(),
            prefix@ == current_dir@ + seq!['/'],
            ""@ == Seq::<char>::empty(),
            views == string_views(args@),
            stripped == views.map_values(|a: Seq<char>| replaced(a, current_dir@ + seq!['/'], Seq::empty())),
            string_views(out@) == stripped.take(i as int),
        decreases args.len() - i,
    {
        let a = replace(args[i].as_str(), prefix.as_str(), "");
        let ghost before = string_views(out@);
        out.push(a);
        assert(string_views(out@) =~= before.push(a@));
        assert(stripped.take(i + 1) =~= stripped.take(i as int).push(stripped[i as int]));
        i = i + 1;
    }
    assert(stripped.take(args.len() as int) =~= stripped);
    if out.len() > 0 {
        match file_name_of(out[0].as_str()) {
            Some(name) => {
                let ghost before = string_views(out@);
                out.set(0, name);
                assert(string_views(out@) =~= before.update(0, name@));
            },
            None => {},
        }
    }
    out
}

/// The lock file information of a crate.
#[derive(Debug, PartialEq)]
pub struct CargoLock {
    pub lock_file: Option<String>,
    pub output_hashes: HashMap<String, String>,
}

/// Where a companion tool's sources are.
#[derive(Debug, PartialEq)]
pub struct ToolingVersion {
    pub url: String,
    pub rev: String,
    pub sha256: String,
    pub cargo_lock: CargoLock,
}

/// Everything the generated holochain version file says.
#[derive(Debug, PartialEq)]
pub struct HolochainVersion {
    pub url: String,
    pub rev: String,
    pub sha256: String,
    pub cargo_lock: CargoLock,
    pub bins_filter: Vec<String>,
    pub rust_version: Option<SemVersion>,
    pub lair: ToolingVersion,
    pub scaffolding: Option<ToolingVersion>,
    pub launcher: Option<ToolingVersion>,
    pub args: Vec<String>,
}

/// The tool description of an nvfetcher entry; `lock_file` is what its
/// lock file entry says.
fn tooling_version_of(info: NvfetcherCrateSrcEntry, with_lock_file: bool) -> (res: ToolingVersion)
    ensures
        res.url == info.src.url,
        res.rev == info.src.rev,
        res.sha256 == info.src.sha256,
        res.cargo_lock.output_hashes == info.rust_git_deps,
        res.cargo_lock.lock_file == (if with_lock_file { Some(info.cargo_lock) } else { None::<String> }),
{
    ToolingVersion {
        url: info.src.url,
        rev: info.src.rev,
        sha256: info.src.sha256,
        cargo_lock: CargoLock {
            lock_file: if with_lock_file { Some(info.cargo_lock) } else { None },
            output_hashes: info.rust_git_deps,
        },
    }
}

/// Puts together the generated file's content: the holochain, lair,
/// scaffolding and launcher sources from their nvfetcher entries (only the
/// launcher's lock file path is kept), the binaries, the rust version and
/// the command line.
pub fn holochain_version_from(
    holochain: NvfetcherCrateSrcEntry,
    bins_filter: Vec<String>,
    rust_version: Option<SemVersion>,
    lair: NvfetcherCrateSrcEntry,
    scaffolding: Option<NvfetcherCrateSrcEntry>,
    launcher: Option<NvfetcherCrateSrcEntry>,
    args: Vec<String>,
) -> (res: HolochainVersion)
    ensures
        res.url == holochain.src.url,
        res.rev == holochain.src.rev,
        res.sha256 == holochain.src.sha256,
        res.cargo_lock.lock_file is None,
        res.cargo_lock.output_hashes == holochain.rust_git_deps,
        res.bins_filter == bins_filter,
        res.rust_version == rust_version,
        res.lair.url == lair.src.url,
        res.lair.rev == lair.src.rev,
        res.lair.sha256 == lair.src.sha256,
        res.lair.cargo_lock.lock_file is None,
        res.lair.cargo_lock.output_hashes == lair.rust_git_deps,
        match scaffolding {
            Some(s) => res.scaffolding matches Some(t) && t.url == s.src.url && t.rev == s.src.rev
                && t.sha256 == s.src.sha256 && t.cargo_lock.lock_file is None
                && t.cargo_lock.output_hashes == s.rust_git_deps,
            None => res.scaffolding is None,
        },
        match launcher {
            Some(s) => res.launcher matches Some(t) && t.url == s.src.url && t.rev == s.src.rev
                && t.sha256 == s.src.sha256 && t.cargo_lock.lock_file == Some(s.cargo_lock)
                && t.cargo_lock.output_hashes == s.rust_git_deps,
            None => res.launcher is None,
        },
        res.args == args,
{
    let scaffolding = match scaffolding {
        Some(info) => Some(tooling_version_of(info, false)),
        None => None,
    };
    let launcher = match launcher {
        Some(info) => Some(tooling_version_of(info, true)),
        None => None,
    };
    HolochainVersion {
        url: holochain.src.url,
        rev: holochain.src.rev,
        sha256: holochain.src.sha256,
        cargo_lock: CargoLock { lock_file: None, output_hashes: holochain.rust_git_deps },
        bins_filter,
        rust_version,
        lair: tooling_version_of(lair, false),
        scaffolding,
        launcher,
        args,
    }
}

} // verus!
