//! Crates fetched through nvfetcher: their source description, the key of
//! their entry in `nvfetcher.toml`, and what nvfetcher reports back.

use std::collections::HashMap;
use vstd::prelude::*;
use crate::text::{
    chars_of, concat, copy_of, lemma_replace_char_removes, replace, replaced, split_once,
    split_once_at, string_of,
};
use crate::toml_doc::{
    apply_edits, contains_key, lemma_apply_edits_push, parse_document, parsed_toml_entries,
    put_dotted_table, put_node, put_table, put_text_2, put_text_3, render, rendered_toml,
    starts_with, toml_entries, TomlEditView, TomlNode,
};
use crate::update_config::{git_src_text, GitSrc, GitSrcView};
use crate::version::{parsed_version, SemVersion};

verus! {

/// A crate whose binaries are built from a git repository.
pub struct BinCrateSource<'a> {
    pub name: &'a str,
    pub git_repo: &'a str,
    pub git_src: GitSrc,
    pub bins_filter: Vec<String>,
}

/// The key of a crate's entry in `nvfetcher.toml`: the crate's name, `_`,
/// then the git source specifier with each `:` and `.` turned into `_`.
pub open spec fn crate_key_of(name: Seq<char>, git_src: Seq<char>) -> Seq<char> {
    name + seq!['_'] + replaced(replaced(git_src, seq![':'], seq!['_']), seq!['.'], seq!['_'])
}

impl<'a> BinCrateSource<'a> {
    /// The key of this crate's entry in `nvfetcher.toml`.
    pub fn crate_toml_key(&self) -> (res: String)
        ensures
            res@ == crate_key_of(self.name@, git_src_text(self.git_src@)),
            forall|i: int|
                self.name@.len() < i < res@.len() ==> res@[i] != ':' && res@[i] != '.',
    {
        let src_text = self.git_src.to_string();
        proof {
            reveal_strlit(":");
            reveal_strlit(".");
            reveal_strlit("_");
            reveal_strlit("{}_{}");
        }
        assert(":"@ =~= seq![':']);
        assert("."@ =~= seq!['.']);
        assert("_"@ =~= seq!['_']);
        let no_colon = replace(src_text.as_str(), ":", "_");
        let no_dot = replace(no_colon.as_str(), ".", "_");
        proof {
            lemma_replace_char_removes(src_text@, ':', seq!['_'], ':');
            lemma_replace_char_removes(no_colon@, '.', seq!['_'], ':');
        }
        let prefix = concat(self.name, "_");
        let res = concat(prefix.as_str(), no_dot.as_str());
        assert forall|i: int| self.name@.len() < i < res@.len() implies res@[i] != ':' && res@[i]
            != '.' by {
            assert(res@[i] == no_dot@[i - self.name@.len() - 1]);
            assert(no_dot@.contains(no_dot@[i - self.name@.len() - 1]));
        }
        res
    }
}

/// Whether a path is absolute: on unix, whether it starts with `/`.
pub open spec fn is_absolute_path(p: Seq<char>) -> bool {
    p.len() > 0 && p[0] == '/'
}

/// `base` joined with `p` as `Path::join` does on unix: an absolute `p`
/// replaces `base`; otherwise `p` follows `base`, with a `/` between them
/// unless `base` is empty or already ends with one.
pub open spec fn joined_path(base: Seq<char>, p: Seq<char>) -> Seq<char> {
    if is_absolute_path(p) {
        p
    } else if base.len() == 0 || base.last() == '/' {
        base + p
    } else {
        base + seq!['/'] + p
    }
}

/// Whether a path is absolute.
pub fn path_is_absolute(p: &str) -> (res: bool)
    ensures
        res == is_absolute_path(p@),
{
    let v = chars_of(p);
    v.len() > 0 && v[0] == '/'
}

/// `base` joined with `p`.
pub fn join_path(base: &str, p: &str) -> (res: String)
    ensures
        res@ == joined_path(base@, p@),
{
    if path_is_absolute(p) {
        return copy_of(p);
    }
    let b = chars_of(base);
    if b.len() == 0 || b[b.len() - 1] == '/' {
        concat(base, p)
    } else {
        proof { reveal_strlit("/"); }
        assert("/"@ =~= seq!['/']);
        let with_sep = concat(base, "/");
        concat(with_sep.as_str(), p)
    }
}

/// The directory nvfetcher works in: `dir` itself if it is absolute, else
/// `dir` under the current directory.
pub fn resolve_nvfetcher_dir(dir: &str, current_dir: &str) -> (res: String)
    ensures
        res@ == (if is_absolute_path(dir@) {
            dir@
        } else {
            joined_path(current_dir@, dir@)
        }),
{
    if path_is_absolute(dir) {
        copy_of(dir)
    } else {
        join_path(current_dir, dir)
    }
}

/// Drives nvfetcher for one crate.
pub struct NvfetcherWrapper<'a> {
    pub src: BinCrateSource<'a>,
    pub nvfetcher_dir: String,
    pub crate_toml_key: String,
}

impl<'a> NvfetcherWrapper<'a> {
    /// A wrapper for `src` working in `nvfetcher_dir` (made absolute against
    /// `current_dir`), whose entry key is `override_crate_toml_key` if given
    /// and the crate's own key otherwise.
    pub fn new(
        src: BinCrateSource<'a>,
        nvfetcher_dir: &str,
        current_dir: &str,
        override_crate_toml_key: Option<String>,
    ) -> (res: NvfetcherWrapper<'a>)
        ensures
            res.src == src,
            res.nvfetcher_dir@ == (if is_absolute_path(nvfetcher_dir@) {
                nvfetcher_dir@
            } else {
                joined_path(current_dir@, nvfetcher_dir@)
            }),
            res.crate_toml_key@ == (match override_crate_toml_key {
                Some(k) => k@,
                None => crate_key_of(src.name@, git_src_text(src.git_src@)),
            }),
    {
        let dir = resolve_nvfetcher_dir(nvfetcher_dir, current_dir);
        let crate_toml_key = match override_crate_toml_key {
            Some(key) => key,
            None => src.crate_toml_key(),
        };
        NvfetcherWrapper { src, nvfetcher_dir: dir, crate_toml_key }
    }
}

/// The git source of a fetched crate, as nvfetcher reports it.
#[derive(Debug, PartialEq)]
pub struct FetchgitSrcPartial {
    pub url: String,
    pub rev: String,
    pub sha256: String,
}

/// One crate's entry in nvfetcher's `generated.json`.
#[derive(Debug, PartialEq)]
pub struct NvfetcherCrateSrcEntry {
    pub name: String,
    pub version: String,
    pub src: FetchgitSrcPartial,
    pub cargo_lock: String,
    pub rust_git_deps: HashMap<String, String>,
}

/// Why the version of an nvfetcher entry could not be read.
#[derive(Debug, PartialEq, Eq)]
pub enum SrcEntryVersionError {
    /// The version text holds no `-`.
    NoSeparator { version: String },
    /// What follows the first `-` is not a semantic version.
    NotSemver { text: String },
}

/// What follows the first `-` of an entry's version text, such as `0.0.122`
/// in `holochain-0.0.122`.
pub open spec fn version_suffix(version: Seq<char>) -> Option<Seq<char>> {
    match split_once_at(version, '-') {
        Some((_, rest)) => Some(rest),
        None => None,
    }
}

impl NvfetcherCrateSrcEntry {
    /// The semantic version in the entry's version text: what follows its
    /// first `-`.
    pub fn semver(&self) -> (res: Result<SemVersion, SrcEntryVersionError>)
        ensures
            match version_suffix(self.version@) {
                None => res == Err::<SemVersion, SrcEntryVersionError>(
                    SrcEntryVersionError::NoSeparator { version: res->Err_0->NoSeparator_version },
                ) && res->Err_0->NoSeparator_version@ == self.version@,
                Some(text) => match res {
                    Ok(v) => parsed_version(text) == Some(v@),
                    Err(e) => parsed_version(text) is None && e == (SrcEntryVersionError::NotSemver {
                        text: e->NotSemver_text,
                    }) && e->NotSemver_text@ == text,
                },
            },
    {
        match split_once(self.version.as_str(), '-') {
            None => Err(SrcEntryVersionError::NoSeparator { version: copy_of(self.version.as_str()) }),
            Some((_, rest)) => match SemVersion::parse(rest.as_str()) {
                Ok(v) => Ok(v),
                Err(_) => Err(SrcEntryVersionError::NotSemver { text: rest }),
            },
        }
    }
}


#[verifier::external_type_specification]
#[verifier::external_body]
pub struct ExJsonError(serde_json::Error);

/// The JSON value that `serde_json::from_str` reads from a text: `None` where
/// the text is not JSON.
pub uninterp spec fn json_value_of(text: Seq<char>) -> Option<serde_json::Value>;

/// What `serde_json::Value::get` with a key gives for a value: the field of
/// an object with that key, `None` for another value or a missing key.
pub uninterp spec fn json_field(v: serde_json::Value, key: Seq<char>) -> Option<serde_json::Value>;

/// Reads a JSON text.
///
/// Wraps `serde_json::from_str::<serde_json::Value>`: `Ok` exactly where
/// [`json_value_of`] is `Some`, and then the value it names.
#[verifier::external_body]
fn json_from_str(text: &str) -> (res: Result<serde_json::Value, serde_json::Error>)
    ensures
        res is Ok <==> json_value_of(text@) is Some,
        res matches Ok(v) ==> json_value_of(text@) == Some(v),
{
    serde_json::from_str::<serde_json::Value>(text)
}

/// A field of a JSON object.
///
/// Wraps `serde_json::Value::get` with a `&str` key, the field copied; the
/// result is named [`json_field`].
#[verifier::external_body]
fn json_get(v: &serde_json::Value, key: &str) -> (res: Option<serde_json::Value>)
    ensures
        res == json_field(*v, key@),
{
    v.get(key).cloned()
}

/// Why no entry could be read from nvfetcher's `generated.json`.
#[derive(Debug, PartialEq, Eq)]
pub enum SrcInfoError {
    /// The text is not JSON.
    NotJson,
    /// The JSON has no entry under the key.
    MissingEntry { key: String },
}

/// The entry under `key` in the text of nvfetcher's `generated.json`.
pub fn crate_entry_json(generated: &str, key: &str) -> (res: Result<serde_json::Value, SrcInfoError>)
    ensures
        match json_value_of(generated@) {
            None => res == Err::<serde_json::Value, SrcInfoError>(SrcInfoError::NotJson),
            Some(v) => match json_field(v, key@) {
                None => res matches Err(SrcInfoError::MissingEntry { key: k }) && k@ == key@,
                Some(e) => res == Ok::<serde_json::Value, SrcInfoError>(e),
            },
        },
{
    match json_from_str(generated) {
        Err(_) => Err(SrcInfoError::NotJson),
        Ok(v) => match json_get(&v, key) {
            Some(e) => Ok(e),
            None => Err(SrcInfoError::MissingEntry { key: copy_of(key) }),
        },
    }
}

/// The text `nixpkgs`, the nvfetcher entry for the nixpkgs sources.
pub open spec fn nixpkgs_key() -> Seq<char> {
    "nixpkgs"@
}

/// The edits that add the nixpkgs entry to `nvfetcher.toml`.
pub open spec fn nixpkgs_edits() -> Seq<TomlEditView> {
    let n = nixpkgs_key();
    seq![
        TomlEditView::Table { path: seq![n], dotted: false },
        TomlEditView::Table { path: seq![n, "src"@], dotted: true },
        TomlEditView::Table { path: seq![n, "fetch"@], dotted: true },
        TomlEditView::Table { path: seq![n, "git"@], dotted: true },
        TomlEditView::Text { path: seq![n, "src"@, "git"@], value: "https://github.com/nixos/nixpkgs"@ },
        TomlEditView::Text {
            path: seq![n, "fetch"@, "tarball"@],
            value: "https://github.com/nixos/nixpkgs/archive/$ver.tar.gz"@,
        },
        TomlEditView::Text { path: seq![n, "src"@, "branch"@], value: "release-22.11"@ },
    ]
}

/// The edits that (re)write a crate's entry under `key` in
/// `nvfetcher.toml`: the entry's tables, its lock file, where its source is
/// (`src.branch` or `src.manual`, and `src.git` for a branch) and where it is
/// fetched from (`fetch.git`).
pub open spec fn crate_edits(key: Seq<char>, g: GitSrcView, repo: Seq<char>) -> Seq<TomlEditView> {
    let leaf = match g {
        GitSrcView::Branch(_) => "branch"@,
        GitSrcView::Revision(_) => "manual"@,
    };
    let value = match g {
        GitSrcView::Branch(b) => b,
        GitSrcView::Revision(r) => r,
    };
    seq![
        TomlEditView::Table { path: seq![key], dotted: false },
        TomlEditView::Table { path: seq![key, "src"@], dotted: true },
        TomlEditView::Table { path: seq![key, "fetch"@], dotted: true },
        TomlEditView::Table { path: seq![key, "src"@], dotted: true },
        TomlEditView::Text { path: seq![key, "cargo_lock"@], value: "Cargo.lock"@ },
        TomlEditView::Table { path: seq![key, "src"@], dotted: true },
        TomlEditView::Text { path: seq![key, "src"@, leaf], value: value },
    ] + (if g is Branch {
        seq![TomlEditView::Text { path: seq![key, "src"@, "git"@], value: repo }]
    } else {
        Seq::empty()
    }) + seq![TomlEditView::Text { path: seq![key, "fetch"@, "git"@], value: repo }]
}

/// All edits of `nvfetcher.toml`: the nixpkgs entry if it is missing, then
/// the crate's entry.
pub open spec fn nvfetcher_edits(key: Seq<char>, g: GitSrcView, repo: Seq<char>, has_nixpkgs: bool) -> Seq<
    TomlEditView,
> {
    (if has_nixpkgs {
        Seq::empty()
    } else {
        nixpkgs_edits()
    }) + crate_edits(key, g, repo)
}

/// Why `nvfetcher.toml` could not be updated.
#[derive(Debug, PartialEq, Eq)]
pub enum NvfetcherConfigError {
    /// The existing file is not TOML.
    NotToml,
}

proof fn lemma_keys_distinct()
    ensures
        "src"@ != "fetch"@,
        "src"@ != "git"@,
        "fetch"@ != "git"@,
        "src"@ != "cargo_lock"@,
        "fetch"@ != "cargo_lock"@,
        "git"@ != "cargo_lock"@,
{
    reveal_strlit("src");
    reveal_strlit("fetch");
    reveal_strlit("git");
    reveal_strlit("cargo_lock");
    assert("src"@.len() == 3);
    assert("fetch"@.len() == 5);
    assert("git"@.len() == 3);
    assert("cargo_lock"@.len() == 10);
    assert("src"@[0] != "git"@[0]);
}

impl<'a> NvfetcherWrapper<'a> {
    /// Makes the edits of [`nvfetcher_edits`] to the parsed `nvfetcher.toml`.
    pub fn update_nvfetcher_config(&self, doc: &mut toml_edit::Document)
        ensures
            toml_entries(*final(doc)) == apply_edits(
                toml_entries(*old(doc)),
                nvfetcher_edits(
                    self.crate_toml_key@,
                    self.src.git_src@,
                    self.src.git_repo@,
                    toml_entries(*old(doc)).contains_key(seq![nixpkgs_key()]),
                ),
            ),
    {
        proof { lemma_keys_distinct(); }
        let ghost m0 = toml_entries(*doc);
        let mut done: Ghost<Seq<TomlEditView>> = Ghost(Seq::empty());
        let has_nixpkgs = contains_key(doc, "nixpkgs");
        if !has_nixpkgs {
            let n = "nixpkgs";
            done = put_table(doc, n, Ghost(m0), done);
            done = put_dotted_table(doc, n, "src", Ghost(m0), done);
            done = put_dotted_table(doc, n, "fetch", Ghost(m0), done);
            done = put_dotted_table(doc, n, "git", Ghost(m0), done);
            done = put_text_3(doc, n, "src", "git", "https://github.com/nixos/nixpkgs", Ghost(m0), done);
            done = put_text_3(
                doc,
                n,
                "fetch",
                "tarball",
                "https://github.com/nixos/nixpkgs/archive/$ver.tar.gz",
                Ghost(m0),
                done,
            );
            done = put_text_3(doc, n, "src", "branch", "release-22.11", Ghost(m0), done);
            assert(done@ =~= nixpkgs_edits());
        }
        let k = self.crate_toml_key.as_str();
        let (keys, value) = self.src.git_src.toml_src_value();
        proof { reveal_strlit("src"); reveal_strlit("branch"); reveal_strlit("manual"); }
        assert(keys[0]@ == "src"@);
        assert(keys[1]@ == (match self.src.git_src@ {
            GitSrcView::Branch(_) => "branch"@,
            GitSrcView::Revision(_) => "manual"@,
        }));
        done = put_table(doc, k, Ghost(m0), done);
        done = put_dotted_table(doc, k, "src", Ghost(m0), done);
        done = put_dotted_table(doc, k, "fetch", Ghost(m0), done);
        done = put_dotted_table(doc, k, keys[0], Ghost(m0), done);
        done = put_text_2(doc, k, "cargo_lock", "Cargo.lock", Ghost(m0), done);
        done = put_dotted_table(doc, k, keys[0], Ghost(m0), done);
        done = put_text_3(doc, k, keys[0], keys[1], value, Ghost(m0), done);
        let repo = self.src.git_repo;
        if !self.src.git_src.is_rev() {
            done = put_text_3(doc, k, "src", "git", repo, Ghost(m0), done);
        }
        done = put_text_3(doc, k, "fetch", "git", repo, Ghost(m0), done);
        assert(done@ =~= nvfetcher_edits(k@, self.src.git_src@, repo@, has_nixpkgs));
    }

    /// The new text of `nvfetcher.toml`, given its current text.
    pub fn regenerate_nvfetcher_toml(&self, existing: &str) -> (res: Result<String, NvfetcherConfigError>)
        ensures
            match parsed_toml_entries(existing@) {
                None => res == Err::<String, NvfetcherConfigError>(NvfetcherConfigError::NotToml),
                Some(m0) => {
                    &&& res is Ok
                    &&& exists|d: toml_edit::Document|
                        #[trigger] toml_entries(d) == apply_edits(
                            m0,
                            nvfetcher_edits(
                                self.crate_toml_key@,
                                self.src.git_src@,
                                self.src.git_repo@,
                                m0.contains_key(seq![nixpkgs_key()]),
                            ),
                        ) && rendered_toml(d) == res->Ok_0@
                },
            },
    {
        match parse_document(existing) {
            None => Err(NvfetcherConfigError::NotToml),
            Some(mut doc) => {
                self.update_nvfetcher_config(&mut doc);
                Ok(render(&doc))
            },
        }
    }
}

/// A path under `[k]` starts with `[k]`: a node put at a path under `[k]`
/// leaves every path outside `[k]` as it was, present or absent.
proof fn lemma_put_outside(
    m: Map<Seq<Seq<char>>, TomlNode>,
    path: Seq<Seq<char>>,
    node: TomlNode,
    k: Seq<char>,
    p: Seq<Seq<char>>,
)
    requires
        path.len() >= 1,
        path[0] == k,
        !starts_with(p, seq![k]),
    ensures
        put_node(m, path, node).dom().contains(p) == m.dom().contains(p),
        m.dom().contains(p) ==> put_node(m, path, node)[p] == m[p],
{
    if starts_with(p, path) {
        assert(p[0] == path[0]);
        assert(p.take(1) =~= seq![k]);
    }
    if p == path {
        assert(p.take(1) =~= seq![k]);
    }
}

/// Edits that all write under `[k]` leave every path outside `[k]` as it
/// was, present or absent.
proof fn lemma_edits_frame(m: Map<Seq<Seq<char>>, TomlNode>, es: Seq<TomlEditView>, k: Seq<char>, p: Seq<Seq<char>>)
    requires
        forall|i: int| 0 <= i < es.len() ==> edit_path_of(#[trigger] es[i]).len() >= 1 && edit_path_of(es[i])[0] == k,
        !starts_with(p, seq![k]),
    ensures
        apply_edits(m, es).dom().contains(p) == m.dom().contains(p),
        m.dom().contains(p) ==> apply_edits(m, es)[p] == m[p],
    decreases es.len(),
{
    if es.len() > 0 {
        let init = es.drop_last();
        assert forall|i: int| 0 <= i < init.len() implies edit_path_of(#[trigger] init[i]).len() >= 1
            && edit_path_of(init[i])[0] == k by {
            assert(init[i] == es[i]);
        }
        lemma_edits_frame(m, init, k, p);
        let e = es.last();
        assert(e == es[es.len() - 1]);
        match e {
            TomlEditView::Table { path, dotted } => {
                lemma_put_outside(apply_edits(m, init), path, TomlNode::Table { dotted }, k, p);
            },
            TomlEditView::Text { path, value } => {
                lemma_put_outside(apply_edits(m, init), path, TomlNode::Text(value), k, p);
            },
        }
    }
}

/// The path an edit writes to.
pub open spec fn edit_path_of(e: TomlEditView) -> Seq<Seq<char>> {
    match e {
        TomlEditView::Table { path, .. } => path,
        TomlEditView::Text { path, .. } => path,
    }
}

/// Whatever `nvfetcher.toml` held before, after the edits the crate's entry
/// says where its lock file is, which branch or revision to take, where the
/// sources are fetched from (and, for a branch, followed from), and every
/// entry other than the crate's (and nixpkgs', when it was added) is as it was.
pub proof fn lemma_nvfetcher_entry_written(
    m: Map<Seq<Seq<char>>, TomlNode>,
    key: Seq<char>,
    g: GitSrcView,
    repo: Seq<char>,
    has_nixpkgs: bool,
)
    ensures
        ({
            let r = apply_edits(m, nvfetcher_edits(key, g, repo, has_nixpkgs));
            let leaf = match g {
                GitSrcView::Branch(_) => "branch"@,
                GitSrcView::Revision(_) => "manual"@,
            };
            let value = match g {
                GitSrcView::Branch(b) => b,
                GitSrcView::Revision(rev) => rev,
            };
            &&& r.dom().contains(seq![key]) && r[seq![key]] == TomlNode::Table { dotted: false }
            &&& r.dom().contains(seq![key, "src"@]) && r[seq![key, "src"@]] == TomlNode::Table { dotted: true }
            &&& r.dom().contains(seq![key, "fetch"@]) && r[seq![key, "fetch"@]] == TomlNode::Table { dotted: true }
            &&& r.dom().contains(seq![key, "cargo_lock"@]) && r[seq![key, "cargo_lock"@]] == TomlNode::Text("Cargo.lock"@)
            &&& r.dom().contains(seq![key, "src"@, leaf]) && r[seq![key, "src"@, leaf]] == TomlNode::Text(value)
            &&& (g is Branch ==> r.dom().contains(seq![key, "src"@, "git"@]) && r[seq![key, "src"@, "git"@]] == TomlNode::Text(repo))
            &&& r.dom().contains(seq![key, "fetch"@, "git"@]) && r[seq![key, "fetch"@, "git"@]] == TomlNode::Text(repo)
        }),
        forall|p: Seq<Seq<char>>|
            #![trigger apply_edits(m, nvfetcher_edits(key, g, repo, has_nixpkgs)).dom().contains(p)]
            #![trigger apply_edits(m, nvfetcher_edits(key, g, repo, has_nixpkgs))[p]]
            m.dom().contains(p) && !starts_with(p, seq![key]) && (has_nixpkgs || !starts_with(p, seq![nixpkgs_key()]))
                ==> apply_edits(m, nvfetcher_edits(key, g, repo, has_nixpkgs)).dom().contains(p)
                && apply_edits(m, nvfetcher_edits(key, g, repo, has_nixpkgs))[p] == m[p],
{
    lemma_keys_distinct();
    reveal_strlit("branch");
    reveal_strlit("manual");
    reveal_strlit("git");
    reveal_strlit("src");
    let pre: Seq<TomlEditView> = if has_nixpkgs { Seq::empty() } else { nixpkgs_edits() };
    let ce = crate_edits(key, g, repo);
    let m0 = apply_edits(m, pre);
    assert(pre + ce =~= nvfetcher_edits(key, g, repo, has_nixpkgs));
    lemma_apply_edits_concat(m, pre, ce);
    lemma_crate_edits_written(m0, key, g, repo);
    assert("branch"@ != "git"@ && "manual"@ != "git"@) by {
        assert("branch"@.len() != "git"@.len());
        assert("manual"@.len() != "git"@.len());
    }
    assert forall|p: Seq<Seq<char>>|
        #![trigger apply_edits(m, nvfetcher_edits(key, g, repo, has_nixpkgs)).dom().contains(p)]
        #![trigger apply_edits(m, nvfetcher_edits(key, g, repo, has_nixpkgs))[p]]
        m.dom().contains(p) && !starts_with(p, seq![key]) && (has_nixpkgs || !starts_with(p, seq![nixpkgs_key()]))
            implies apply_edits(m, nvfetcher_edits(key, g, repo, has_nixpkgs)).dom().contains(p)
            && apply_edits(m, nvfetcher_edits(key, g, repo, has_nixpkgs))[p] == m[p] by {
        lemma_nvfetcher_frame(m, key, g, repo, has_nixpkgs, p);
    }
}

proof fn lemma_nvfetcher_frame(
    m: Map<Seq<Seq<char>>, TomlNode>,
    key: Seq<char>,
    g: GitSrcView,
    repo: Seq<char>,
    has_nixpkgs: bool,
    p: Seq<Seq<char>>,
)
    requires
        m.dom().contains(p),
        !starts_with(p, seq![key]),
        has_nixpkgs || !starts_with(p, seq![nixpkgs_key()]),
    ensures
        apply_edits(m, nvfetcher_edits(key, g, repo, has_nixpkgs)).dom().contains(p),
        apply_edits(m, nvfetcher_edits(key, g, repo, has_nixpkgs))[p] == m[p],
{
    let pre: Seq<TomlEditView> = if has_nixpkgs { Seq::empty() } else { nixpkgs_edits() };
    let ce = crate_edits(key, g, repo);
    let m0 = apply_edits(m, pre);
    assert(pre + ce =~= nvfetcher_edits(key, g, repo, has_nixpkgs));
    lemma_apply_edits_concat(m, pre, ce);
    if !has_nixpkgs {
        let ne = nixpkgs_edits();
        assert forall|i: int| 0 <= i < ne.len() implies edit_path_of(#[trigger] ne[i]).len() >= 1
            && edit_path_of(ne[i])[0] == nixpkgs_key() by {}
        lemma_edits_frame(m, ne, nixpkgs_key(), p);
    } else {
        assert(apply_edits(m, pre) == m);
    }
    assert forall|i: int| 0 <= i < ce.len() implies edit_path_of(#[trigger] ce[i]).len() >= 1
        && edit_path_of(ce[i])[0] == key by {}
    lemma_edits_frame(m0, ce, key, p);
}

/// The nodes after the crate's edits, written out edit by edit.
pub open spec fn crate_written(m0: Map<Seq<Seq<char>>, TomlNode>, key: Seq<char>, g: GitSrcView, repo: Seq<char>) -> Map<
    Seq<Seq<char>>,
    TomlNode,
> {
    let leaf = match g {
        GitSrcView::Branch(_) => "branch"@,
        GitSrcView::Revision(_) => "manual"@,
    };
    let value = match g {
        GitSrcView::Branch(b) => b,
        GitSrcView::Revision(r) => r,
    };
    let r1 = put_node(m0, seq![key], TomlNode::Table { dotted: false });
    let r2 = put_node(r1, seq![key, "src"@], TomlNode::Table { dotted: true });
    let r3 = put_node(r2, seq![key, "fetch"@], TomlNode::Table { dotted: true });
    let r4 = put_node(r3, seq![key, "src"@], TomlNode::Table { dotted: true });
    let r5 = put_node(r4, seq![key, "cargo_lock"@], TomlNode::Text("Cargo.lock"@));
    let r6 = put_node(r5, seq![key, "src"@], TomlNode::Table { dotted: true });
    let r7 = put_node(r6, seq![key, "src"@, leaf], TomlNode::Text(value));
    let r8 = if g is Branch {
        put_node(r7, seq![key, "src"@, "git"@], TomlNode::Text(repo))
    } else {
        r7
    };
    put_node(r8, seq![key, "fetch"@, "git"@], TomlNode::Text(repo))
}

/// Applying two runs of edits is applying their concatenation.
proof fn lemma_apply_edits_concat(m: Map<Seq<Seq<char>>, TomlNode>, a: Seq<TomlEditView>, b: Seq<TomlEditView>)
    ensures
        apply_edits(m, a + b) == apply_edits(apply_edits(m, a), b),
    decreases b.len(),
{
    if b.len() == 0 {
        assert(a + b =~= a);
    } else {
        lemma_apply_edits_concat(m, a, b.drop_last());
        assert((a + b).drop_last() =~= a + b.drop_last());
        assert((a + b).last() == b.last());
    }
}

proof fn lemma_crate_edits_written(m0: Map<Seq<Seq<char>>, TomlNode>, key: Seq<char>, g: GitSrcView, repo: Seq<char>)
    ensures
        apply_edits(m0, crate_edits(key, g, repo)) == crate_written(m0, key, g, repo),
{
    let ce = crate_edits(key, g, repo);
    let s0: Seq<TomlEditView> = Seq::empty();
    let s1 = s0.push(ce[0]);
    lemma_apply_edits_push(m0, s0, ce[0]);
    let s2 = s1.push(ce[1]);
    lemma_apply_edits_push(m0, s1, ce[1]);
    let s3 = s2.push(ce[2]);
    lemma_apply_edits_push(m0, s2, ce[2]);
    let s4 = s3.push(ce[3]);
    lemma_apply_edits_push(m0, s3, ce[3]);
    let s5 = s4.push(ce[4]);
    lemma_apply_edits_push(m0, s4, ce[4]);
    let s6 = s5.push(ce[5]);
    lemma_apply_edits_push(m0, s5, ce[5]);
    let s7 = s6.push(ce[6]);
    lemma_apply_edits_push(m0, s6, ce[6]);
    if g is Branch {
        let s8 = s7.push(ce[7]);
        lemma_apply_edits_push(m0, s7, ce[7]);
        let s9 = s8.push(ce[8]);
        lemma_apply_edits_push(m0, s8, ce[8]);
        assert(s9 =~= ce);
    } else {
        let s8 = s7.push(ce[7]);
        lemma_apply_edits_push(m0, s7, ce[7]);
        assert(s8 =~= ce);
    }
}

/// When `nvfetcher.toml` has no nixpkgs entry, the edits add one that follows
/// nixpkgs' `release-22.11` branch from `https://github.com/nixos/nixpkgs`
/// and fetches it as the tarball of the version found, whatever crate entry
/// is written beside it.
pub proof fn lemma_nixpkgs_entry_written(
    m: Map<Seq<Seq<char>>, TomlNode>,
    key: Seq<char>,
    g: GitSrcView,
    repo: Seq<char>,
)
    requires
        !m.contains_key(seq!["nixpkgs"@]),
        key != "nixpkgs"@,
    ensures
        ({
            let r = apply_edits(m, nvfetcher_edits(key, g, repo, false));
            let n = "nixpkgs"@;
            &&& r.contains_key(seq![n]) && r[seq![n]] == TomlNode::Table { dotted: false }
            &&& r.contains_key(seq![n, "src"@]) && r[seq![n, "src"@]] == TomlNode::Table { dotted: true }
            &&& r.contains_key(seq![n, "fetch"@]) && r[seq![n, "fetch"@]] == TomlNode::Table { dotted: true }
            &&& r.contains_key(seq![n, "src"@, "git"@]) && r[seq![n, "src"@, "git"@]] == TomlNode::Text(
                "https://github.com/nixos/nixpkgs"@,
            )
            &&& r.contains_key(seq![n, "src"@, "branch"@]) && r[seq![n, "src"@, "branch"@]] == TomlNode::Text(
                "release-22.11"@,
            )
            &&& r.contains_key(seq![n, "fetch"@, "tarball"@]) && r[seq![n, "fetch"@, "tarball"@]]
                == TomlNode::Text("https://github.com/nixos/nixpkgs/archive/$ver.tar.gz"@)
        }),
{
    lemma_keys_distinct();
    reveal_strlit("nixpkgs");
    reveal_strlit("src");
    reveal_strlit("fetch");
    reveal_strlit("git");
    reveal_strlit("branch");
    reveal_strlit("tarball");
    let n = "nixpkgs"@;
    let ne = nixpkgs_edits();
    let ce = crate_edits(key, g, repo);
    assert(ne + ce =~= nvfetcher_edits(key, g, repo, false));
    lemma_apply_edits_concat(m, ne, ce);
    let s0: Seq<TomlEditView> = Seq::empty();
    let s1 = s0.push(ne[0]);
    lemma_apply_edits_push(m, s0, ne[0]);
    let s2 = s1.push(ne[1]);
    lemma_apply_edits_push(m, s1, ne[1]);
    let s3 = s2.push(ne[2]);
    lemma_apply_edits_push(m, s2, ne[2]);
    let s4 = s3.push(ne[3]);
    lemma_apply_edits_push(m, s3, ne[3]);
    let s5 = s4.push(ne[4]);
    lemma_apply_edits_push(m, s4, ne[4]);
    let s6 = s5.push(ne[5]);
    lemma_apply_edits_push(m, s5, ne[5]);
    let s7 = s6.push(ne[6]);
    lemma_apply_edits_push(m, s6, ne[6]);
    assert(s7 =~= ne);
    let m1 = apply_edits(m, ne);
    assert("branch"@ != "git"@ && "tarball"@ != "git"@ && "branch"@ != "tarball"@) by {
        assert("branch"@.len() == 6 && "git"@.len() == 3 && "tarball"@.len() == 7);
    }
    assert(m1.contains_key(seq![n]) && m1[seq![n]] == TomlNode::Table { dotted: false });
    assert(m1.contains_key(seq![n, "src"@]) && m1[seq![n, "src"@]] == TomlNode::Table { dotted: true });
    assert(m1.contains_key(seq![n, "fetch"@]) && m1[seq![n, "fetch"@]] == TomlNode::Table { dotted: true });
    assert(m1[seq![n, "src"@, "git"@]] == TomlNode::Text("https://github.com/nixos/nixpkgs"@));
    assert(m1[seq![n, "src"@, "branch"@]] == TomlNode::Text("release-22.11"@));
    assert(m1[seq![n, "fetch"@, "tarball"@]] == TomlNode::Text(
        "https://github.com/nixos/nixpkgs/archive/$ver.tar.gz"@,
    ));
    assert forall|i: int| 0 <= i < ce.len() implies edit_path_of(#[trigger] ce[i]).len() >= 1
        && edit_path_of(ce[i])[0] == key by {}
    lemma_outside_key(seq![n], n, key);
    lemma_edits_frame(m1, ce, key, seq![n]);
    lemma_outside_key(seq![n, "src"@], n, key);
    lemma_edits_frame(m1, ce, key, seq![n, "src"@]);
    lemma_outside_key(seq![n, "fetch"@], n, key);
    lemma_edits_frame(m1, ce, key, seq![n, "fetch"@]);
    lemma_outside_key(seq![n, "src"@, "git"@], n, key);
    lemma_edits_frame(m1, ce, key, seq![n, "src"@, "git"@]);
    lemma_outside_key(seq![n, "src"@, "branch"@], n, key);
    lemma_edits_frame(m1, ce, key, seq![n, "src"@, "branch"@]);
    lemma_outside_key(seq![n, "fetch"@, "tarball"@], n, key);
    lemma_edits_frame(m1, ce, key, seq![n, "fetch"@, "tarball"@]);
}

/// A path whose first key is not `key` lies outside `[key]`.
proof fn lemma_outside_key(p: Seq<Seq<char>>, first: Seq<char>, key: Seq<char>)
    requires
        p.len() >= 1,
        p[0] == first,
        first != key,
    ensures
        !starts_with(p, seq![key]),
{
    if starts_with(p, seq![key]) {
        assert(p.take(1)[0] == seq![key][0]);
    }
}

/// A path stays present through edits that each write either at it or
/// below it, if it was present before or the first edit writes it.
proof fn lemma_edits_keep(m: Map<Seq<Seq<char>>, TomlNode>, es: Seq<TomlEditView>, q: Seq<Seq<char>>)
    requires
        m.dom().contains(q) || (es.len() > 0 && edit_path_of(es[0]) == q),
        forall|i: int|
            0 <= i < es.len() ==> edit_path_of(#[trigger] es[i]) == q || edit_path_of(es[i]).len() > q.len(),
    ensures
        apply_edits(m, es).dom().contains(q),
    decreases es.len(),
{
    if es.len() > 0 {
        let init = es.drop_last();
        assert forall|i: int| 0 <= i < init.len() implies edit_path_of(#[trigger] init[i]) == q
            || edit_path_of(init[i]).len() > q.len() by {
            assert(init[i] == es[i]);
        }
        if init.len() > 0 {
            assert(init[0] == es[0]);
            lemma_edits_keep(m, init, q);
        } else if m.dom().contains(q) {
            lemma_edits_keep(m, init, q);
        }
        assert(es.last() == es[es.len() - 1]);
    }
}

/// Regenerating `nvfetcher.toml` for the same crate a second time changes
/// nothing: after the edits the nixpkgs entry is there, and the crate's
/// edits made again (without the nixpkgs ones) give the same nodes.
pub proof fn lemma_nvfetcher_edits_idempotent(
    m: Map<Seq<Seq<char>>, TomlNode>,
    key: Seq<char>,
    g: GitSrcView,
    repo: Seq<char>,
    has_nixpkgs: bool,
)
    requires
        has_nixpkgs == m.contains_key(seq![nixpkgs_key()]),
    ensures
        ({
            let r = apply_edits(m, nvfetcher_edits(key, g, repo, has_nixpkgs));
            &&& r.contains_key(seq![nixpkgs_key()])
            &&& apply_edits(r, nvfetcher_edits(key, g, repo, true)) == r
        }),
{
    reveal_strlit("nixpkgs");
    let pre: Seq<TomlEditView> = if has_nixpkgs { Seq::empty() } else { nixpkgs_edits() };
    let ce = crate_edits(key, g, repo);
    let m0 = apply_edits(m, pre);
    assert(pre + ce =~= nvfetcher_edits(key, g, repo, has_nixpkgs));
    lemma_apply_edits_concat(m, pre, ce);
    let r = apply_edits(m0, ce);
    assert(r == apply_edits(m, nvfetcher_edits(key, g, repo, has_nixpkgs)));
    let n = seq![nixpkgs_key()];
    if !has_nixpkgs {
        let ne = nixpkgs_edits();
        assert forall|i: int| 0 <= i < ne.len() implies edit_path_of(#[trigger] ne[i]) == n
            || edit_path_of(ne[i]).len() > n.len() by {}
        lemma_edits_keep(m, ne, n);
    }
    assert(m0.dom().contains(n));
    assert forall|i: int| 0 <= i < ce.len() implies edit_path_of(#[trigger] ce[i]).len() >= 1
        && edit_path_of(ce[i])[0] == key by {}
    if key == nixpkgs_key() {
        assert forall|i: int| 0 <= i < ce.len() implies edit_path_of(#[trigger] ce[i]) == n
            || edit_path_of(ce[i]).len() > n.len() by {}
        lemma_edits_keep(m0, ce, n);
    } else {
        assert(!starts_with(n, seq![key])) by {
            if starts_with(n, seq![key]) {
                assert(n.take(1) =~= n);
                assert(n[0] == seq![key][0]);
            }
        }
        lemma_edits_frame(m0, ce, key, n);
    }
    // the second run makes only the crate's edits
    assert(Seq::<TomlEditView>::empty() + ce =~= nvfetcher_edits(key, g, repo, true));
    lemma_crate_edits_written(m0, key, g, repo);
    lemma_crate_edits_written(r, key, g, repo);
    // both runs start by putting a fresh table at `[key]`, and before that
    // the two maps agree on every path outside `[key]`
    let t = TomlNode::Table { dotted: false };
    let r1 = put_node(r, seq![key], t);
    let m1 = put_node(m0, seq![key], t);
    assert forall|p: Seq<Seq<char>>| #[trigger] r1.dom().contains(p) == m1.dom().contains(p) by {
        if !starts_with(p, seq![key]) {
            lemma_edits_frame(m0, ce, key, p);
        }
    }
    assert forall|p: Seq<Seq<char>>| #[trigger] r1.dom().contains(p) implies r1[p] == m1[p] by {
        if p != seq![key] && !starts_with(p, seq![key]) {
            lemma_edits_frame(m0, ce, key, p);
        }
    }
    assert(r1 =~= m1);
}

} // verus!
