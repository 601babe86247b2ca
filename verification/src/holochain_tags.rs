//! The decisions of the tag updater: which upstream holochain tags become
//! entries of `update_config.toml`, which of them the CI build matrix keeps,
//! and whether anything changed.

use linked_hash_map::LinkedHashMap;
use linked_hash_set::LinkedHashSet;
use vstd::prelude::*;
use crate::pattern::{pattern_is_valid, regex_finds, starts_with_v_digit, InvalidPattern, Pattern};
use crate::text::{copy_of, lemma_replace_char_removes, replace, replaced, same_text, string_views};
use crate::update_config::{GitSrc, GitSrcView, UpdateConfigEntry, UpdateConfigEntryView};
use crate::version::SemVersionReq;

verus! {

#[verifier::external_type_specification]
#[verifier::external_body]
#[verifier::reject_recursive_types(K)]
#[verifier::reject_recursive_types(V)]
#[verifier::reject_recursive_types(S)]
pub struct ExLinkedHashMap<K, V, S>(LinkedHashMap<K, V, S>);

#[verifier::external_type_specification]
#[verifier::external_body]
#[verifier::reject_recursive_types(T)]
#[verifier::reject_recursive_types(S)]
pub struct ExLinkedHashSet<T, S>(LinkedHashSet<T, S>);

/// The entries of an insertion-ordered map of config entries, in order.
pub uninterp spec fn config_entries(m: LinkedHashMap<String, UpdateConfigEntry>) -> Seq<(Seq<char>, UpdateConfigEntryView)>;

/// The items of an insertion-ordered set of strings, in order.
pub uninterp spec fn set_items(s: LinkedHashSet<String>) -> Seq<Seq<char>>;

/// The keys of a run of entries.
pub open spec fn entry_keys(es: Seq<(Seq<char>, UpdateConfigEntryView)>) -> Seq<Seq<char>> {
    es.map_values(|e: (Seq<char>, UpdateConfigEntryView)| e.0)
}

/// Whether `k` is one of the keys.
pub open spec fn has_key(es: Seq<(Seq<char>, UpdateConfigEntryView)>, k: Seq<char>) -> bool {
    entry_keys(es).contains(k)
}

/// The number of entries.
///
/// Wraps `LinkedHashMap::len`.
#[verifier::external_body]
fn entries_len(m: &LinkedHashMap<String, UpdateConfigEntry>) -> (res: usize)
    ensures
        res == config_entries(*m).len(),
{
    m.len()
}

/// Whether an entry has key `k`.
///
/// Wraps `LinkedHashMap::contains_key`.
#[verifier::external_body]
fn entries_contains(m: &LinkedHashMap<String, UpdateConfigEntry>, k: &str) -> (res: bool)
    ensures
        res == has_key(config_entries(*m), k@),
{
    m.contains_key(k)
}

/// Adds an entry under a key that is not there yet.
///
/// Wraps `LinkedHashMap::insert`, which puts a new key after all others.
#[verifier::external_body]
fn entries_insert_new(m: &mut LinkedHashMap<String, UpdateConfigEntry>, k: String, v: UpdateConfigEntry)
    requires
        !has_key(config_entries(*old(m)), k@),
    ensures
        config_entries(*final(m)) == config_entries(*old(m)).push((k@, v@)),
{
    m.insert(k, v);
}

/// The `i`-th entry, in insertion order.
///
/// Wraps `LinkedHashMap::iter`, taking the `i`-th item it yields.
#[verifier::external_body]
fn entry_at(m: &LinkedHashMap<String, UpdateConfigEntry>, i: usize) -> (res: (&String, &UpdateConfigEntry))
    requires
        i < config_entries(*m).len(),
    ensures
        res.0@ == config_entries(*m)[i as int].0,
        res.1@ == config_entries(*m)[i as int].1,
{
    m.iter().nth(i).unwrap()
}

/// An empty set.
///
/// Wraps `LinkedHashSet::new`.
#[verifier::external_body]
fn set_new() -> (res: LinkedHashSet<String>)
    ensures
        set_items(res) == Seq::<Seq<char>>::empty(),
{
    LinkedHashSet::new()
}

/// Adds an item that is not in the set yet.
///
/// Wraps `LinkedHashSet::insert`, which puts a new item after all others.
#[verifier::external_body]
fn set_insert_new(s: &mut LinkedHashSet<String>, item: String)
    requires
        !set_items(*old(s)).contains(item@),
    ensures
        set_items(*final(s)) == set_items(*old(s)).push(item@),
{
    s.insert(item);
}

/// The number of items.
///
/// Wraps `LinkedHashSet::len`.
#[verifier::external_body]
fn set_len(s: &LinkedHashSet<String>) -> (res: usize)
    ensures
        res == set_items(*s).len(),
{
    s.len()
}

/// Whether the set holds `item`.
///
/// Wraps `LinkedHashSet::contains`.
#[verifier::external_body]
fn set_contains(s: &LinkedHashSet<String>, item: &str) -> (res: bool)
    ensures
        res == set_items(*s).contains(item@),
{
    s.contains(item)
}

/// The text `holochain-`, the prefix of holochain's release tags.
pub open spec fn tag_prefix() -> Seq<char> {
    "holochain-"@
}

/// The key of the config entry for an upstream tag: `v`, then the tag
/// without `holochain-`, each of its dots turned into `_` (a table name of
/// `update_config.toml` holds no dot).
pub open spec fn tag_entry_key_of(tag: Seq<char>) -> Seq<char> {
    seq!['v'] + replaced(replaced(tag, tag_prefix(), Seq::empty()), seq!['.'], seq!['_'])
}

/// The key of the config entry for an upstream tag, such as `v0_1_3` for
/// `holochain-0.1.3`; it holds no dot.
pub fn tag_entry_key(tag: &str) -> (res: String)
    ensures
        res@ == tag_entry_key_of(tag@),
        !res@.contains('.'),
{
    proof {
        reveal_strlit("holochain-");
        reveal_strlit("");
        reveal_strlit(".");
        reveal_strlit("_");
        reveal_strlit("v");
    }
    assert(""@ =~= Seq::<char>::empty());
    assert("."@ =~= seq!['.']);
    assert("_"@ =~= seq!['_']);
    let without_prefix = replace(tag, "holochain-", "");
    let underscored = replace(without_prefix.as_str(), ".", "_");
    proof {
        lemma_replace_char_removes(without_prefix@, '.', seq!['_'], '.');
    }
    let mut res = copy_of("v");
    res.append(underscored.as_str());
    assert(res@ =~= tag_entry_key_of(tag@));
    assert(!res@.contains('.')) by {
        if res@.contains('.') {
            let i = choose|i: int| 0 <= i < res@.len() && res@[i] == '.';
            assert(i > 0);
            assert(underscored@[i - 1] == '.');
            assert(underscored@.contains('.'));
        }
    }
    res
}

/// The entry added for a new upstream tag: the template with the given lair
/// requirement and the tag as a fixed revision.
pub open spec fn new_tag_entry(template: UpdateConfigEntryView, lair_req: Seq<char>, tag: Seq<char>) -> UpdateConfigEntryView {
    UpdateConfigEntryView { lair_version_req: lair_req, git_src: GitSrcView::Revision(tag), ..template }
}

/// The entries and the added keys after going through the tags: a tag
/// whose key is new gets an entry at the end, and its key is recorded.
pub open spec fn merged_tags(
    es: Seq<(Seq<char>, UpdateConfigEntryView)>,
    tags: Seq<Seq<char>>,
    lair_req: Seq<char>,
    template: UpdateConfigEntryView,
) -> (Seq<(Seq<char>, UpdateConfigEntryView)>, Seq<Seq<char>>)
    decreases tags.len(),
{
    if tags.len() == 0 {
        (es, Seq::empty())
    } else {
        let (m, added) = merged_tags(es, tags.drop_last(), lair_req, template);
        let tag = tags.last();
        let key = tag_entry_key_of(tag);
        if has_key(m, key) {
            (m, added)
        } else {
            (m.push((key, new_tag_entry(template, lair_req, tag))), added.push(key))
        }
    }
}

/// Going through upstream tags keeps the existing entries as they were and
/// in front, adds exactly the recorded keys behind them, leaves an entry for
/// every tag, and never repeats a key that was not repeated before.
pub proof fn lemma_merged_tags(
    es: Seq<(Seq<char>, UpdateConfigEntryView)>,
    tags: Seq<Seq<char>>,
    lair_req: Seq<char>,
    template: UpdateConfigEntryView,
)
    ensures
        ({
            let (m, added) = merged_tags(es, tags, lair_req, template);
            &&& m.len() >= es.len()
            &&& m.take(es.len() as int) == es
            &&& entry_keys(m) == entry_keys(es) + added
            &&& forall|i: int| 0 <= i < tags.len() ==> has_key(m, tag_entry_key_of(#[trigger] tags[i]))
            &&& entry_keys(es).no_duplicates() ==> entry_keys(m).no_duplicates()
        }),
    decreases tags.len(),
{
    if tags.len() == 0 {
        assert(es.take(es.len() as int) =~= es);
        assert(entry_keys(es) + Seq::<Seq<char>>::empty() =~= entry_keys(es));
    } else {
        let init = tags.drop_last();
        lemma_merged_tags(es, init, lair_req, template);
        let (m0, a0) = merged_tags(es, init, lair_req, template);
        let tag = tags.last();
        let key = tag_entry_key_of(tag);
        if !has_key(m0, key) {
            let m1 = m0.push((key, new_tag_entry(template, lair_req, tag)));
            assert(m1.take(es.len() as int) =~= m0.take(es.len() as int));
            assert(entry_keys(m1) =~= entry_keys(m0).push(key));
            assert(entry_keys(es) + a0.push(key) =~= (entry_keys(es) + a0).push(key));
            assert forall|i: int| 0 <= i < tags.len() implies has_key(m1, tag_entry_key_of(#[trigger] tags[i])) by {
                if i < tags.len() - 1 {
                    assert(init[i] == tags[i]);
                    assert(has_key(m0, tag_entry_key_of(init[i])));
                    let j = choose|j: int| 0 <= j < entry_keys(m0).len() && entry_keys(m0)[j] == tag_entry_key_of(init[i]);
                    assert(entry_keys(m1)[j] == entry_keys(m0)[j]);
                } else {
                    assert(entry_keys(m1)[m0.len() as int] == key);
                }
            }
        } else {
            assert forall|i: int| 0 <= i < tags.len() implies has_key(m0, tag_entry_key_of(#[trigger] tags[i])) by {
                if i < tags.len() - 1 {
                    assert(init[i] == tags[i]);
                }
            }
        }
    }
}

/// Every entry added for a new tag is the template with the default lair
/// requirement and the tag as its revision: its binaries, rust version,
/// broken flag and both tool compatibilities are the template's, and its key
/// is the key of a tag it was added for.
pub proof fn lemma_added_entries_follow_template(
    es: Seq<(Seq<char>, UpdateConfigEntryView)>,
    tags: Seq<Seq<char>>,
    lair_req: Seq<char>,
    template: UpdateConfigEntryView,
)
    ensures
        ({
            let m = merged_tags(es, tags, lair_req, template).0;
            &&& m.len() >= es.len()
            &&& forall|i: int| es.len() <= i < m.len() ==> {
                let e = (#[trigger] m[i]).1;
                &&& e.lair_version_req == lair_req
                &&& e.bins_filter == template.bins_filter
                &&& e.rust_version == template.rust_version
                &&& e.broken == template.broken
                &&& e.scaffolding_holochain_compatibility_version_req
                    == template.scaffolding_holochain_compatibility_version_req
                &&& e.launcher_holochain_compatibility_version_req
                    == template.launcher_holochain_compatibility_version_req
                &&& exists|j: int| 0 <= j < tags.len() && e.git_src == GitSrcView::Revision(#[trigger] tags[j])
                    && m[i].0 == tag_entry_key_of(tags[j])
            }
        }),
    decreases tags.len(),
{
    if tags.len() > 0 {
        let init = tags.drop_last();
        lemma_added_entries_follow_template(es, init, lair_req, template);
        let m0 = merged_tags(es, init, lair_req, template).0;
        let m = merged_tags(es, tags, lair_req, template).0;
        let last = tags.len() - 1;
        assert(tags.last() == tags[last]);
        assert forall|i: int| es.len() <= i < m.len() implies {
            let e = (#[trigger] m[i]).1;
            &&& e.lair_version_req == lair_req
            &&& e.bins_filter == template.bins_filter
            &&& e.rust_version == template.rust_version
            &&& e.broken == template.broken
            &&& e.scaffolding_holochain_compatibility_version_req
                == template.scaffolding_holochain_compatibility_version_req
            &&& e.launcher_holochain_compatibility_version_req
                == template.launcher_holochain_compatibility_version_req
            &&& exists|j: int| 0 <= j < tags.len() && e.git_src == GitSrcView::Revision(#[trigger] tags[j])
                && m[i].0 == tag_entry_key_of(tags[j])
        } by {
            if i < m0.len() {
                assert(m[i] == m0[i]);
                let e = m0[i].1;
                let j = choose|j: int| 0 <= j < init.len() && e.git_src == GitSrcView::Revision(#[trigger] init[j])
                    && m0[i].0 == tag_entry_key_of(init[j]);
                assert(init[j] == tags[j]);
            } else {
                assert(m[i].1.git_src == GitSrcView::Revision(tags[last]));
            }
        }
    }
}

/// Tags whose keys are all there already add nothing.
proof fn lemma_merged_tags_present(
    es: Seq<(Seq<char>, UpdateConfigEntryView)>,
    tags: Seq<Seq<char>>,
    lair_req: Seq<char>,
    template: UpdateConfigEntryView,
)
    requires
        forall|i: int| 0 <= i < tags.len() ==> has_key(es, tag_entry_key_of(#[trigger] tags[i])),
    ensures
        merged_tags(es, tags, lair_req, template) == (es, Seq::<Seq<char>>::empty()),
    decreases tags.len(),
{
    if tags.len() > 0 {
        let init = tags.drop_last();
        assert forall|i: int| 0 <= i < init.len() implies has_key(es, tag_entry_key_of(#[trigger] init[i])) by {
            assert(init[i] == tags[i]);
        }
        lemma_merged_tags_present(es, init, lair_req, template);
        assert(has_key(es, tag_entry_key_of(tags[tags.len() - 1])));
    }
}

/// Going through the same upstream tags a second time adds no entry and
/// changes none.
pub proof fn lemma_merged_tags_again(
    es: Seq<(Seq<char>, UpdateConfigEntryView)>,
    tags: Seq<Seq<char>>,
    lair_req: Seq<char>,
    template: UpdateConfigEntryView,
)
    ensures
        ({
            let m = merged_tags(es, tags, lair_req, template).0;
            merged_tags(m, tags, lair_req, template) == (m, Seq::<Seq<char>>::empty())
        }),
{
    lemma_merged_tags(es, tags, lair_req, template);
    lemma_merged_tags_present(merged_tags(es, tags, lair_req, template).0, tags, lair_req, template);
}

/// Adds an entry for each upstream tag whose key is not there yet, and
/// returns the keys added, in order.
pub fn add_upstream_tags(
    entries: &mut LinkedHashMap<String, UpdateConfigEntry>,
    tags: &Vec<String>,
    default_lair_version_req: &SemVersionReq,
    template: &UpdateConfigEntry,
) -> (added: LinkedHashSet<String>)
    ensures
        (config_entries(*final(entries)), set_items(added)) == merged_tags(
            config_entries(*old(entries)),
            string_views(tags@),
            default_lair_version_req@,
            template@,
        ),
{
    let ghost es0 = config_entries(*entries);
    let ghost tviews = string_views(tags@);
    let mut added = set_new();
    let mut i: usize = 0;
    assert(tviews.take(0) =~= Seq::<Seq<char>>::empty());
    while i < tags.len()
        invariant
            i <= tags.len(),
            tviews == string_views(tags@),
            (config_entries(*entries), set_items(added)) == merged_tags(es0, tviews.take(i as int), default_lair_version_req@, template@),
            forall|k: Seq<char>| set_items(added).contains(k) ==> has_key(config_entries(*entries), k),
        decreases tags.len() - i,
    {
        let key = tag_entry_key(tags[i].as_str());
        assert(tviews.take(i + 1).drop_last() =~= tviews.take(i as int));
        assert(tviews.take(i + 1).last() == tags@[i as int]@);
        if !entries_contains(entries, key.as_str()) {
            let mut entry = template.clone();
            entry.lair_version_req = default_lair_version_req.clone();
            entry.git_src = GitSrc::Revision(copy_of(tags[i].as_str()));
            let ghost before = config_entries(*entries);
            let ghost before_added = set_items(added);
            assert(entry@ == new_tag_entry(template@, default_lair_version_req@, tags@[i as int]@));
            set_insert_new(&mut added, copy_of(key.as_str()));
            entries_insert_new(entries, key, entry);
            assert forall|k: Seq<char>| set_items(added).contains(k) implies has_key(config_entries(*entries), k) by {
                if before_added.contains(k) {
                    let j = choose|j: int| 0 <= j < entry_keys(before).len() && entry_keys(before)[j] == k;
                    assert(entry_keys(config_entries(*entries))[j] == k);
                } else {
                    assert(entry_keys(config_entries(*entries))[before.len() as int] == k);
                }
            }
        }
        i = i + 1;
    }
    assert(tviews.take(tags.len() as int) =~= tviews);
    added
}

/// The keys of the entries that are fixed revisions and not marked broken,
/// in order.
pub open spec fn intact_revisions_of(es: Seq<(Seq<char>, UpdateConfigEntryView)>) -> Seq<Seq<char>>
    decreases es.len(),
{
    if es.len() == 0 {
        Seq::empty()
    } else {
        let init = intact_revisions_of(es.drop_last());
        let e = es.last();
        if e.1.broken != Some(true) && e.1.git_src is Revision {
            init.push(e.0)
        } else {
            init
        }
    }
}

/// The keys of the entries that are fixed revisions and not marked broken.
pub fn intact_revision_entries(entries: &LinkedHashMap<String, UpdateConfigEntry>) -> (res: Vec<String>)
    ensures
        string_views(res@) == intact_revisions_of(config_entries(*entries)),
{
    let ghost es = config_entries(*entries);
    let n = entries_len(entries);
    let mut res: Vec<String> = Vec::new();
    let mut i: usize = 0;
    assert(es.take(0) =~= Seq::<(Seq<char>, UpdateConfigEntryView)>::empty());
    while i < n
        invariant
            i <= n == es.len(),
            es == config_entries(*entries),
            string_views(res@) == intact_revisions_of(es.take(i as int)),
        decreases n - i,
    {
        let (key, entry) = entry_at(entries, i);
        assert(es.take(i + 1).drop_last() =~= es.take(i as int));
        assert(es.take(i + 1).last() == es[i as int]);
        let broken = match entry.broken {
            Some(b) => b,
            None => false,
        };
        if !broken && entry.git_src.is_rev() {
            let ghost before = string_views(res@);
            res.push(copy_of(key.as_str()));
            assert(string_views(res@) =~= before.push(key@));
        }
        i = i + 1;
    }
    assert(es.take(n as int) =~= es);
    res
}

/// The pattern of the build matrix entries that stand for a holochain
/// release and may be replaced.
pub open spec fn release_attr_pattern() -> Seq<char> {
    "^v[0-9]+"@
}

/// The build matrix entries that stay: those that do not stand for a
/// release.
pub open spec fn pinned_attributes_of(attrs: Seq<Seq<char>>) -> Seq<Seq<char>> {
    attrs.filter(|a: Seq<char>| !regex_finds(release_attr_pattern(), a))
}

/// Keeps the build matrix entries that do not stand for a release (that do
/// not match `^v[0-9]+`).
pub fn retain_pinned_attributes(attrs: &Vec<String>) -> (res: Result<Vec<String>, InvalidPattern>)
    ensures
        res is Ok <==> pattern_is_valid(release_attr_pattern()),
        match res {
            Ok(kept) => string_views(kept@) == pinned_attributes_of(string_views(attrs@)),
            Err(e) => e.pattern@ == release_attr_pattern(),
        },
        res matches Ok(kept) ==> string_views(kept@) == string_views(attrs@).filter(
            |a: Seq<char>| !starts_with_v_digit(a),
        ),
{
    let pattern = Pattern::new("^v[0-9]+")?;
    let ghost views = string_views(attrs@);
    let mut kept: Vec<String> = Vec::new();
    let mut i: usize = 0;
    assert(views.take(0) =~= Seq::<Seq<char>>::empty());
    while i < attrs.len()
        invariant
            i <= attrs.len(),
            views == string_views(attrs@),
            pattern@ == release_attr_pattern(),
            string_views(kept@) == views.take(i as int).filter(|a: Seq<char>| !regex_finds(release_attr_pattern(), a)),
            string_views(kept@) == views.take(i as int).filter(|a: Seq<char>| !starts_with_v_digit(a)),
        decreases attrs.len() - i,
    {
        proof {
            reveal_with_fuel(Seq::<_>::filter, 1);
        }
        assert(views.take(i + 1).drop_last() =~= views.take(i as int));
        if !pattern.is_match(attrs[i].as_str()) {
            let ghost before = string_views(kept@);
            kept.push(copy_of(attrs[i].as_str()));
            assert(string_views(kept@) =~= before.push(attrs@[i as int]@));
        }
        i = i + 1;
    }
    assert(views.take(attrs.len() as int) =~= views);
    Ok(kept)
}

/// The build matrix after refilling: the entries that stay, then the last
/// intact revisions, as many as it takes to reach `keep_tags` entries.
pub open spec fn refilled_attributes(kept: Seq<Seq<char>>, intact: Seq<Seq<char>>, keep_tags: nat) -> Seq<Seq<char>> {
    kept + intact.skip(intact.len() - (keep_tags - kept.len()))
}

/// Refills the build matrix with the newest intact revisions so that it has
/// `keep_tags` entries. (With more entries that stay than `keep_tags`, or
/// fewer intact revisions than places, the count cannot be met.)
pub fn refill_nix_attributes(kept: Vec<String>, intact: &Vec<String>, keep_tags: u8) -> (res: Vec<String>)
    requires
        kept.len() <= keep_tags,
        keep_tags - kept.len() <= intact.len(),
    ensures
        string_views(res@) == refilled_attributes(string_views(kept@), string_views(intact@), keep_tags as nat),
        res.len() == keep_tags,
{
    let ghost k0 = string_views(kept@);
    let ghost iv = string_views(intact@);
    let places = keep_tags as usize - kept.len();
    let skip = intact.len() - places;
    let mut res = kept;
    let mut i: usize = skip;
    while i < intact.len()
        invariant
            skip <= i <= intact.len(),
            iv == string_views(intact@),
            string_views(res@) == k0 + iv.subrange(skip as int, i as int),
            res.len() == k0.len() + (i - skip),
        decreases intact.len() - i,
    {
        let ghost before = string_views(res@);
        res.push(copy_of(intact[i].as_str()));
        assert(string_views(res@) =~= before.push(intact@[i as int]@));
        assert(iv.subrange(skip as int, i + 1) =~= iv.subrange(skip as int, i as int).push(iv[i as int]));
        i = i + 1;
    }
    assert(iv.subrange(skip as int, intact.len() as int) =~= iv.skip(skip as int));
    res
}

/// The items of `a` that are not in `b`, each once, in the order of `a`.
pub open spec fn missing_from(a: Seq<Seq<char>>, b: Seq<Seq<char>>) -> Seq<Seq<char>>
    decreases a.len(),
{
    if a.len() == 0 {
        Seq::empty()
    } else {
        let init = missing_from(a.drop_last(), b);
        if b.contains(a.last()) || init.contains(a.last()) {
            init
        } else {
            init.push(a.last())
        }
    }
}

/// Whether `item` is one of `v`.
fn contains_string(v: &Vec<String>, item: &str) -> (res: bool)
    ensures
        res == string_views(v@).contains(item@),
{
    let mut i: usize = 0;
    while i < v.len()
        invariant
            i <= v.len(),
            forall|k: int| 0 <= k < i ==> string_views(v@)[k] != item@,
        decreases v.len() - i,
    {
        if same_text(v[i].as_str(), item) {
            assert(string_views(v@)[i as int] == item@);
            return true;
        }
        i = i + 1;
    }
    false
}

/// The items of `a` that are not in `b`, each once (the difference of the
/// two as sets).
pub fn difference(a: &Vec<String>, b: &Vec<String>) -> (res: Vec<String>)
    ensures
        string_views(res@) == missing_from(string_views(a@), string_views(b@)),
{
    let ghost av = string_views(a@);
    let ghost bv = string_views(b@);
    let mut res: Vec<String> = Vec::new();
    let mut i: usize = 0;
    assert(av.take(0) =~= Seq::<Seq<char>>::empty());
    while i < a.len()
        invariant
            i <= a.len(),
            av == string_views(a@),
            bv == string_views(b@),
            string_views(res@) == missing_from(av.take(i as int), bv),
        decreases a.len() - i,
    {
        assert(av.take(i + 1).drop_last() =~= av.take(i as int));
        assert(av.take(i + 1).last() == a@[i as int]@);
        if !contains_string(b, a[i].as_str()) && !contains_string(&res, a[i].as_str()) {
            let ghost before = string_views(res@);
            res.push(copy_of(a[i].as_str()));
            assert(string_views(res@) =~= before.push(a@[i as int]@));
        }
        i = i + 1;
    }
    assert(av.take(a.len() as int) =~= av);
    res
}

/// Whether the list and the set hold the same strings, as
/// `LinkedHashSet`'s `==` decides it: the same number of items, and every
/// item of the list in the set.
pub fn same_members(listed: &Vec<String>, set: &LinkedHashSet<String>) -> (res: bool)
    ensures
        res == (string_views(listed@).len() == set_items(*set).len() && forall|i: int|
            0 <= i < listed.len() ==> set_items(*set).contains(#[trigger] string_views(listed@)[i])),
{
    if listed.len() != set_len(set) {
        return false;
    }
    let mut i: usize = 0;
    while i < listed.len()
        invariant
            i <= listed.len(),
            forall|k: int| 0 <= k < i ==> set_items(*set).contains(#[trigger] string_views(listed@)[k]),
        decreases listed.len() - i,
    {
        if !set_contains(set, listed[i].as_str()) {
            assert(!set_items(*set).contains(string_views(listed@)[i as int]));
            return false;
        }
        i = i + 1;
    }
    true
}

/// Whether the tag update changed anything that has to be committed: an
/// entry left or joined the build matrix, an entry was added to the
/// config, or the config file differs from what git has.
pub fn commit_needed(
    removed: &Vec<String>,
    added_build: &Vec<String>,
    added_config: &LinkedHashSet<String>,
    config_changed: bool,
) -> (res: bool)
    ensures
        res == !(removed.len() == 0 && added_build.len() == 0 && set_items(*added_config).len() == 0
            && !config_changed),
{
    !(removed.len() == 0 && added_build.len() == 0 && set_len(added_config) == 0 && !config_changed)
}

} // verus!
