//! The entries of `update_config.toml`: where the holochain sources come
//! from, and which versions of the companion tools go with them.

use vstd::prelude::*;
use crate::text::{
    all_ascii, ascii_lower, concat, joined, lemma_join_split, copy_of, lemma_replace_absent_char, lemma_split_once_concat,
    lowercase_text, replace, replaced, same_text, split, split_on, split_once, split_once_at,
    string_views, to_lowercase, trim, trim_end_of, trim_start_of, trimmed,
};
use crate::version::{parsed_requirement, star_text, SemVersion, SemVersionReq, VersionError, VersionView};

verus! {

/// The binaries built from the holochain repository unless told otherwise.
pub const DEFAULT_BINS_FILTER: &'static str = "holochain,hc,kitsune-p2p-proxy,kitsune-p2p-tx2-proxy";

/// The lair version requirement used unless told otherwise.
pub const DEFAULT_LAIR_VERSION_REQ: &'static str = "~0.2";

/// The holochain versions for which companion tools are looked up by default.
pub const DEFAULT_HOLOCHAIN_COMPATIBILITY_VERSION_REQ: &'static str = ">0.1.0-alpha, <2";

/// The default list of binaries: [`DEFAULT_BINS_FILTER`] split at its commas.
pub fn default_bins_filter() -> (res: Vec<String>)
    ensures
        string_views(res@) == split_on(DEFAULT_BINS_FILTER@, ','),
        joined(string_views(res@), ',') == DEFAULT_BINS_FILTER@,
{
    proof { lemma_join_split(DEFAULT_BINS_FILTER@, ','); }
    split(DEFAULT_BINS_FILTER, ',')
}

/// The default lair version requirement, [`DEFAULT_LAIR_VERSION_REQ`].
pub fn default_lair_version_req() -> (res: Result<SemVersionReq, VersionError>)
    ensures
        match res {
            Ok(r) => parsed_requirement(DEFAULT_LAIR_VERSION_REQ@) == Some(r@),
            Err(_) => parsed_requirement(DEFAULT_LAIR_VERSION_REQ@) is None,
        },
{
    SemVersionReq::parse(DEFAULT_LAIR_VERSION_REQ)
}

/// Which holochain versions a companion tool is looked up for, and which of
/// the tool's own versions qualify.
#[derive(Debug)]
pub struct ToolingCompatibilitySpecV1 {
    pub holochain_version_req: SemVersionReq,
    pub tool_version_req: SemVersionReq,
}

/// The plain content of a [`ToolingCompatibilitySpecV1`].
pub struct ToolingCompatibilityView {
    pub holochain_version_req: Seq<char>,
    pub tool_version_req: Seq<char>,
}

impl View for ToolingCompatibilitySpecV1 {
    type V = ToolingCompatibilityView;

    open spec fn view(&self) -> ToolingCompatibilityView {
        ToolingCompatibilityView {
            holochain_version_req: self.holochain_version_req@,
            tool_version_req: self.tool_version_req@,
        }
    }
}

impl Clone for ToolingCompatibilitySpecV1 {
    fn clone(&self) -> (res: Self)
        ensures
            res@ == self@,
    {
        ToolingCompatibilitySpecV1 {
            holochain_version_req: self.holochain_version_req.clone(),
            tool_version_req: self.tool_version_req.clone(),
        }
    }
}

/// The compatibility used by default: holochain versions matching
/// [`DEFAULT_HOLOCHAIN_COMPATIBILITY_VERSION_REQ`], any tool version.
fn default_tooling_compatibility() -> (res: Result<ToolingCompatibilitySpecV1, VersionError>)
    ensures
        match res {
            Ok(c) => parsed_requirement(DEFAULT_HOLOCHAIN_COMPATIBILITY_VERSION_REQ@) == Some(
                c.holochain_version_req@,
            ) && c.tool_version_req@ == star_text(),
            Err(_) => parsed_requirement(DEFAULT_HOLOCHAIN_COMPATIBILITY_VERSION_REQ@) is None,
        },
{
    match SemVersionReq::parse(DEFAULT_HOLOCHAIN_COMPATIBILITY_VERSION_REQ) {
        Ok(holochain_version_req) => Ok(ToolingCompatibilitySpecV1 {
            holochain_version_req,
            tool_version_req: SemVersionReq::star(),
        }),
        Err(e) => Err(e),
    }
}

/// The default compatibility for the scaffolding tool.
pub fn default_scaffolding_holochain_compatibility_version_req() -> (res: Result<
    ToolingCompatibilitySpecV1,
    VersionError,
>)
    ensures
        match res {
            Ok(c) => parsed_requirement(DEFAULT_HOLOCHAIN_COMPATIBILITY_VERSION_REQ@) == Some(
                c.holochain_version_req@,
            ) && c.tool_version_req@ == star_text(),
            Err(_) => parsed_requirement(DEFAULT_HOLOCHAIN_COMPATIBILITY_VERSION_REQ@) is None,
        },
{
    default_tooling_compatibility()
}

/// The default compatibility for the launcher tool.
pub fn default_launcher_holochain_compatibility_version_req() -> (res: Result<
    ToolingCompatibilitySpecV1,
    VersionError,
>)
    ensures
        match res {
            Ok(c) => parsed_requirement(DEFAULT_HOLOCHAIN_COMPATIBILITY_VERSION_REQ@) == Some(
                c.holochain_version_req@,
            ) && c.tool_version_req@ == star_text(),
            Err(_) => parsed_requirement(DEFAULT_HOLOCHAIN_COMPATIBILITY_VERSION_REQ@) is None,
        },
{
    default_tooling_compatibility()
}

/// Where to fetch the holochain sources from: a branch or a fixed revision.
#[derive(Debug, PartialEq, Eq)]
pub enum GitSrc {
    Branch(String),
    Revision(String),
}

/// The plain content of a [`GitSrc`].
pub enum GitSrcView {
    Branch(Seq<char>),
    Revision(Seq<char>),
}

impl View for GitSrc {
    type V = GitSrcView;

    open spec fn view(&self) -> GitSrcView {
        match self {
            GitSrc::Branch(b) => GitSrcView::Branch(b@),
            GitSrc::Revision(r) => GitSrcView::Revision(r@),
        }
    }
}

impl Clone for GitSrc {
    fn clone(&self) -> (res: Self)
        ensures
            res@ == self@,
    {
        match self {
            GitSrc::Branch(b) => GitSrc::Branch(copy_of(b.as_str())),
            GitSrc::Revision(r) => GitSrc::Revision(copy_of(r.as_str())),
        }
    }
}

impl Default for GitSrc {
    fn default() -> (res: Self)
        ensures
            res@ == GitSrcView::Branch(main_branch()),
    {
        proof { reveal_strlit("main"); }
        let main = copy_of("main");
        assert(main@ =~= main_branch());
        GitSrc::Branch(main)
    }
}

/// The text `main`.
pub open spec fn main_branch() -> Seq<char> {
    seq!['m', 'a', 'i', 'n']
}

/// The key `branch`.
pub open spec fn branch_key() -> Seq<char> {
    seq!['b', 'r', 'a', 'n', 'c', 'h']
}

/// The key `revision`.
pub open spec fn revision_key() -> Seq<char> {
    seq!['r', 'e', 'v', 'i', 's', 'i', 'o', 'n']
}

/// The value of a git source specifier as it is kept: trimmed of white
/// space, with its double quotes removed; its case is kept, as branch names
/// and revisions are case-sensitive.
pub open spec fn normalized(s: Seq<char>) -> Seq<char> {
    replaced(trimmed(s), seq!['"'], Seq::empty())
}

/// The key of a git source specifier as it is compared: lowercased, then
/// normalized as a value is.
pub open spec fn normalized_key(s: Seq<char>) -> Seq<char> {
    normalized(lowercase_text(s))
}

/// What a git source specifier `key:value` reads as: `branch:<name>` or
/// `revision:<rev>`, the key compared without regard to case, the value being
/// everything after the first colon, normalized.
pub open spec fn parse_git_src(s: Seq<char>) -> Option<GitSrcView> {
    match split_once_at(s, ':') {
        Some((key, value)) => if normalized_key(key) == branch_key() {
            Some(GitSrcView::Branch(normalized(value)))
        } else if normalized_key(key) == revision_key() {
            Some(GitSrcView::Revision(normalized(value)))
        } else {
            None
        },
        None => None,
    }
}

/// The text of a git source specifier: `branch:<name>` or `revision:<rev>`.
pub open spec fn git_src_text(g: GitSrcView) -> Seq<char> {
    match g {
        GitSrcView::Branch(b) => branch_key() + seq![':'] + b,
        GitSrcView::Revision(r) => revision_key() + seq![':'] + r,
    }
}

/// A git source specifier that is neither `branch:..` nor `revision:..`.
#[derive(Debug, PartialEq, Eq)]
pub struct GitSrcError {
    pub input: String,
}

/// Normalizes the value of a git source specifier.
fn normalize(s: &str) -> (res: String)
    ensures
        res@ == normalized(s@),
{
    let trimmed_text = trim(s);
    proof { reveal_strlit("\""); reveal_strlit(""); }
    assert("\""@ =~= seq!['"']);
    assert(""@ =~= Seq::<char>::empty());
    replace(trimmed_text.as_str(), "\"", "")
}

/// Normalizes the key of a git source specifier.
fn normalize_key(s: &str) -> (res: String)
    ensures
        res@ == normalized_key(s@),
{
    let lower = to_lowercase(s);
    normalize(lower.as_str())
}

impl GitSrc {
    /// Reads a git source specifier: `branch:<name>` or `revision:<rev>`.
    pub fn from_str(s: &str) -> (res: Result<GitSrc, GitSrcError>)
        ensures
            match res {
                Ok(g) => parse_git_src(s@) == Some(g@),
                Err(e) => parse_git_src(s@) is None && e.input@ == s@,
            },
    {
        proof {
            reveal_strlit("branch");
            reveal_strlit("revision");
        }
        assert("branch"@ =~= branch_key());
        assert("revision"@ =~= revision_key());
        match split_once(s, ':') {
            Some((key, value)) => {
                let key = normalize_key(key.as_str());
                if same_text(key.as_str(), "branch") {
                    Ok(GitSrc::Branch(normalize(value.as_str())))
                } else if same_text(key.as_str(), "revision") {
                    Ok(GitSrc::Revision(normalize(value.as_str())))
                } else {
                    Err(GitSrcError { input: copy_of(s) })
                }
            },
            None => Err(GitSrcError { input: copy_of(s) }),
        }
    }

    /// The specifier's text: `branch:<name>` or `revision:<rev>`.
    pub fn to_string(&self) -> (res: String)
        ensures
            res@ == git_src_text(self@),
    {
        proof {
            reveal_strlit("branch:");
            reveal_strlit("revision:");
        }
        match self {
            GitSrc::Branch(b) => {
                assert("branch:"@ =~= branch_key() + seq![':']);
                concat("branch:", b.as_str())
            },
            GitSrc::Revision(r) => {
                assert("revision:"@ =~= revision_key() + seq![':']);
                concat("revision:", r.as_str())
            },
        }
    }

    /// Where the source goes in an nvfetcher entry: the key path and its
    /// value, `src.branch = <name>` or `src.manual = <rev>`.
    pub fn toml_src_value(&self) -> (res: ([&'static str; 2], &str))
        ensures
            res.0[0]@ == seq!['s', 'r', 'c'],
            res.0[1]@ == (match self@ {
                GitSrcView::Branch(_) => branch_key(),
                GitSrcView::Revision(_) => seq!['m', 'a', 'n', 'u', 'a', 'l'],
            }),
            res.1@ == (match self@ {
                GitSrcView::Branch(b) => b,
                GitSrcView::Revision(r) => r,
            }),
    {
        proof {
            reveal_strlit("src");
            reveal_strlit("branch");
            reveal_strlit("manual");
        }
        match self {
            GitSrc::Branch(branch) => (["src", "branch"], branch.as_str()),
            GitSrc::Revision(id) => (["src", "manual"], id.as_str()),
        }
    }

    /// Whether this is a fixed revision.
    pub fn is_rev(&self) -> (res: bool)
        ensures
            res == (self@ is Revision),
    {
        match self {
            GitSrc::Revision(_) => true,
            GitSrc::Branch(_) => false,
        }
    }
}

/// Whether a value comes through normalization unchanged: it has no
/// surrounding white space and no double quotes.
pub open spec fn plain_value(p: Seq<char>) -> bool {
    &&& trimmed(p) == p
    &&& !p.contains('"')
}

proof fn lemma_plain_value_normalized(p: Seq<char>)
    requires
        plain_value(p),
    ensures
        normalized(p) == p,
{
    lemma_replace_absent_char(p, '"', Seq::empty());
}

proof fn lemma_keys_plain()
    ensures
        normalized_key(branch_key()) == branch_key(),
        normalized_key(revision_key()) == revision_key(),
        !branch_key().contains(':'),
        !revision_key().contains(':'),
{
    let b = branch_key();
    let r = revision_key();
    assert(all_ascii(b));
    assert(all_ascii(r));
    assert(b.map_values(|c: char| ascii_lower(c)) =~= b);
    assert(r.map_values(|c: char| ascii_lower(c)) =~= r);
    assert(trim_start_of(b) == b);
    assert(trim_end_of(b) == b);
    assert(trim_start_of(r) == r);
    assert(trim_end_of(r) == r);
    assert(!b.contains('"'));
    assert(!r.contains('"'));
    assert(!b.contains(':'));
    assert(!r.contains(':'));
    lemma_plain_value_normalized(b);
    lemma_plain_value_normalized(r);
}

/// Reading back the text of a git source specifier gives the specifier
/// again, when its value has no surrounding white space and no double quotes
/// (other values come back trimmed and without their quotes).
pub proof fn lemma_git_src_roundtrip(g: GitSrcView)
    requires
        plain_value(
            match g {
                GitSrcView::Branch(b) => b,
                GitSrcView::Revision(r) => r,
            },
        ),
    ensures
        parse_git_src(git_src_text(g)) == Some(g),
{
    lemma_keys_plain();
    assert(branch_key() != revision_key());
    match g {
        GitSrcView::Branch(b) => {
            lemma_split_once_concat(branch_key(), ':', b);
            lemma_plain_value_normalized(b);
        },
        GitSrcView::Revision(r) => {
            lemma_split_once_concat(revision_key(), ':', r);
            lemma_plain_value_normalized(r);
        },
    }
}

/// One entry of `update_config.toml`.
#[derive(Debug)]
pub struct UpdateConfigEntry {
    /// Specifier for the lair version requirement.
    pub lair_version_req: SemVersionReq,
    /// For which holochain versions a matching scaffolding version is looked up.
    pub scaffolding_holochain_compatibility_version_req: ToolingCompatibilitySpecV1,
    /// For which holochain versions a matching launcher version is looked up.
    pub launcher_holochain_compatibility_version_req: ToolingCompatibilitySpecV1,
    /// The binaries to build.
    pub bins_filter: Vec<String>,
    /// The rust version to build with, if one is pinned.
    pub rust_version: Option<SemVersion>,
    /// Whether this version is broken and no file is generated for it.
    pub broken: Option<bool>,
    /// Where the holochain sources are fetched from.
    pub git_src: GitSrc,
}

/// The plain content of an [`UpdateConfigEntry`].
pub struct UpdateConfigEntryView {
    pub lair_version_req: Seq<char>,
    pub scaffolding_holochain_compatibility_version_req: ToolingCompatibilityView,
    pub launcher_holochain_compatibility_version_req: ToolingCompatibilityView,
    pub bins_filter: Seq<Seq<char>>,
    pub rust_version: Option<VersionView>,
    pub broken: Option<bool>,
    pub git_src: GitSrcView,
}

impl View for UpdateConfigEntry {
    type V = UpdateConfigEntryView;

    open spec fn view(&self) -> UpdateConfigEntryView {
        UpdateConfigEntryView {
            lair_version_req: self.lair_version_req@,
            scaffolding_holochain_compatibility_version_req: self.scaffolding_holochain_compatibility_version_req@,
            launcher_holochain_compatibility_version_req: self.launcher_holochain_compatibility_version_req@,
            bins_filter: string_views(self.bins_filter@),
            rust_version: match self.rust_version {
                Some(v) => Some(v@),
                None => None,
            },
            broken: self.broken,
            git_src: self.git_src@,
        }
    }
}

/// A copy of a list of strings.
fn copy_strings(v: &Vec<String>) -> (res: Vec<String>)
    ensures
        string_views(res@) == string_views(v@),
{
    let mut res: Vec<String> = Vec::new();
    let mut i: usize = 0;
    while i < v.len()
        invariant
            i <= v.len(),
            string_views(res@) == string_views(v@).take(i as int),
        decreases v.len() - i,
    {
        let ghost before = string_views(res@);
        res.push(copy_of(v[i].as_str()));
        assert(string_views(res@) =~= before.push(v@[i as int]@));
        assert(string_views(v@).take(i + 1) =~= string_views(v@).take(i as int).push(v@[i as int]@));
        i = i + 1;
    }
    assert(string_views(v@).take(v.len() as int) =~= string_views(v@));
    res
}

impl Clone for UpdateConfigEntry {
    fn clone(&self) -> (res: Self)
        ensures
            res@ == self@,
    {
        UpdateConfigEntry {
            lair_version_req: self.lair_version_req.clone(),
            scaffolding_holochain_compatibility_version_req: self.scaffolding_holochain_compatibility_version_req.clone(),
            launcher_holochain_compatibility_version_req: self.launcher_holochain_compatibility_version_req.clone(),
            bins_filter: copy_strings(&self.bins_filter),
            rust_version: match &self.rust_version {
                Some(v) => Some(v.clone()),
                None => None,
            },
            broken: self.broken,
            git_src: self.git_src.clone(),
        }
    }
}

impl UpdateConfigEntry {
    /// The entry that stands where a field is not given: the default lair
    /// requirement, the default tool compatibilities, the default binaries,
    /// no rust version, not broken, and the `main` branch.
    pub fn default_entry() -> (res: Result<UpdateConfigEntry, VersionError>)
        ensures
            match res {
                Ok(e) => {
                    &&& parsed_requirement(DEFAULT_LAIR_VERSION_REQ@) == Some(e@.lair_version_req)
                    &&& parsed_requirement(DEFAULT_HOLOCHAIN_COMPATIBILITY_VERSION_REQ@) == Some(
                        e@.scaffolding_holochain_compatibility_version_req.holochain_version_req,
                    )
                    &&& e@.scaffolding_holochain_compatibility_version_req.tool_version_req == star_text()
                    &&& e@.launcher_holochain_compatibility_version_req == e@.scaffolding_holochain_compatibility_version_req
                    &&& e@.bins_filter == split_on(DEFAULT_BINS_FILTER@, ',')
                    &&& e@.rust_version is None
                    &&& e@.broken is None
                    &&& e@.git_src == GitSrcView::Branch(main_branch())
                },
                Err(_) => parsed_requirement(DEFAULT_LAIR_VERSION_REQ@) is None || parsed_requirement(
                    DEFAULT_HOLOCHAIN_COMPATIBILITY_VERSION_REQ@,
                ) is None,
            },
    {
        let lair_version_req = default_lair_version_req()?;
        let scaffolding = default_scaffolding_holochain_compatibility_version_req()?;
        let launcher = default_launcher_holochain_compatibility_version_req()?;
        Ok(UpdateConfigEntry {
            lair_version_req,
            scaffolding_holochain_compatibility_version_req: scaffolding,
            launcher_holochain_compatibility_version_req: launcher,
            bins_filter: default_bins_filter(),
            rust_version: None,
            broken: None,
            git_src: GitSrc::default(),
        })
    }
}

} // verus!
