//! Editing TOML documents in place, backed by `toml_edit`.
//!
//! A document is seen as a map from key paths to what stands there: a table
//! (standard or dotted), a string, or something else. Editing puts a new
//! node at a path whose parent is a table; whatever stood under that path
//! before is gone.

use vstd::prelude::*;

verus! {

#[verifier::external_type_specification]
#[verifier::external_body]
pub struct ExTomlDocument(toml_edit::Document);

#[verifier::external_type_specification]
#[verifier::external_body]
pub struct ExTomlError(toml_edit::TomlError);

/// What stands at a key path of a TOML document.
pub enum TomlNode {
    /// A table; `dotted` for one written with dotted keys.
    Table { dotted: bool },
    /// A string value.
    Text(Seq<char>),
    /// Any other value.
    Other,
}

/// The nodes of a document, by key path: every path whose parents are all
/// tables, and at which an item stands (`Item::None`, which `toml_edit` leaves
/// behind for a key that was looked up but never given a value, counts as no
/// item, as it does for `Table::contains_key`).
pub uninterp spec fn toml_entries(doc: toml_edit::Document) -> Map<Seq<Seq<char>>, TomlNode>;

/// The nodes of the document that `toml_edit` reads from a text: `None`
/// where the text is not TOML.
pub uninterp spec fn parsed_toml_entries(text: Seq<char>) -> Option<Map<Seq<Seq<char>>, TomlNode>>;

/// The text that `toml_edit` writes for a document.
pub uninterp spec fn rendered_toml(doc: toml_edit::Document) -> Seq<char>;

/// Whether path `p` starts with path `q`.
pub open spec fn starts_with(p: Seq<Seq<char>>, q: Seq<Seq<char>>) -> bool {
    q.len() <= p.len() && p.take(q.len() as int) == q
}

/// `m` with `node` put at `path`: everything at or under `path` is replaced.
pub open spec fn put_node(m: Map<Seq<Seq<char>>, TomlNode>, path: Seq<Seq<char>>, node: TomlNode) -> Map<
    Seq<Seq<char>>,
    TomlNode,
> {
    Map::new(
        |p: Seq<Seq<char>>| p == path || (m.dom().contains(p) && !starts_with(p, path)),
        |p: Seq<Seq<char>>| if p == path { node } else { m[p] },
    )
}

/// Whether a table stands at `path` (the empty path, the document's root,
/// is always a table).
pub open spec fn is_table_at(m: Map<Seq<Seq<char>>, TomlNode>, path: Seq<Seq<char>>) -> bool {
    path.len() == 0 || (m.dom().contains(path) && m[path] is Table)
}

/// Parses a TOML document.
///
/// Wraps `str::parse::<toml_edit::Document>` (`Document::from_str`): `Ok`
/// exactly where [`parsed_toml_entries`] is `Some`, and then a document with
/// the nodes it names.
#[verifier::external_body]
fn toml_parse(text: &str) -> (res: Result<toml_edit::Document, toml_edit::TomlError>)
    ensures
        res is Ok <==> parsed_toml_entries(text@) is Some,
        res matches Ok(d) ==> parsed_toml_entries(text@) == Some(toml_entries(d)),
{
    text.parse::<toml_edit::Document>()
}

/// Whether the document's root holds `key`.
///
/// Wraps `toml_edit::Table::contains_key` on the root table.
#[verifier::external_body]
fn toml_contains_key(doc: &toml_edit::Document, key: &str) -> (res: bool)
    ensures
        res == toml_entries(*doc).contains_key(seq![key@]),
{
    doc.contains_key(key)
}

/// Puts an empty table at `[a]`.
///
/// Wraps assignment of `toml_edit::table()` through `Document`'s `IndexMut`.
#[verifier::external_body]
fn toml_put_table_1(doc: &mut toml_edit::Document, a: &str)
    ensures
        toml_entries(*final(doc)) == put_node(toml_entries(*old(doc)), seq![a@], TomlNode::Table { dotted: false }),
{
    doc[a] = toml_edit::table();
}

/// Puts an empty table at `[a, b]`, where `[a]` is a table.
///
/// Wraps assignment of `toml_edit::table()` through `IndexMut`.
#[verifier::external_body]
fn toml_put_table_2(doc: &mut toml_edit::Document, a: &str, b: &str)
    requires
        is_table_at(toml_entries(*old(doc)), seq![a@]),
    ensures
        toml_entries(*final(doc)) == put_node(toml_entries(*old(doc)), seq![a@, b@], TomlNode::Table { dotted: false }),
{
    doc[a][b] = toml_edit::table();
}

/// Marks the table at `[a, b]` as written with dotted keys.
///
/// Wraps `toml_edit::Table::set_dotted(true)` on that table.
#[verifier::external_body]
fn toml_set_dotted_2(doc: &mut toml_edit::Document, a: &str, b: &str)
    requires
        is_table_at(toml_entries(*old(doc)), seq![a@]),
        is_table_at(toml_entries(*old(doc)), seq![a@, b@]),
    ensures
        toml_entries(*final(doc)) == toml_entries(*old(doc)).insert(seq![a@, b@], TomlNode::Table { dotted: true }),
{
    match doc[a][b].as_table_mut() {
        Some(t) => t.set_dotted(true),
        None => {},
    }
}

/// Puts the string `v` at `[a, b]`, where `[a]` is a table.
///
/// Wraps assignment of `toml_edit::value(v)` through `IndexMut`.
#[verifier::external_body]
fn toml_put_text_2(doc: &mut toml_edit::Document, a: &str, b: &str, v: &str)
    requires
        is_table_at(toml_entries(*old(doc)), seq![a@]),
    ensures
        toml_entries(*final(doc)) == put_node(toml_entries(*old(doc)), seq![a@, b@], TomlNode::Text(v@)),
{
    doc[a][b] = toml_edit::value(v);
}

/// Puts the string `v` at `[a, b, c]`, where `[a]` and `[a, b]` are tables.
///
/// Wraps assignment of `toml_edit::value(v)` through `IndexMut`.
#[verifier::external_body]
fn toml_put_text_3(doc: &mut toml_edit::Document, a: &str, b: &str, c: &str, v: &str)
    requires
        is_table_at(toml_entries(*old(doc)), seq![a@]),
        is_table_at(toml_entries(*old(doc)), seq![a@, b@]),
    ensures
        toml_entries(*final(doc)) == put_node(toml_entries(*old(doc)), seq![a@, b@, c@], TomlNode::Text(v@)),
{
    doc[a][b][c] = toml_edit::value(v);
}

/// Writes a document out.
///
/// Wraps `Document`'s `Display`; the result is named [`rendered_toml`].
#[verifier::external_body]
fn toml_render(doc: &toml_edit::Document) -> (res: String)
    ensures
        res@ == rendered_toml(*doc),
{
    doc.to_string()
}

/// One edit of a document.
pub enum TomlEditView {
    /// Put an empty table at `path`; `dotted` marks it as written with dotted keys.
    Table { path: Seq<Seq<char>>, dotted: bool },
    /// Put the string `value` at `path`.
    Text { path: Seq<Seq<char>>, value: Seq<char> },
}

/// The nodes after one edit.
pub open spec fn apply_edit(m: Map<Seq<Seq<char>>, TomlNode>, e: TomlEditView) -> Map<Seq<Seq<char>>, TomlNode> {
    match e {
        TomlEditView::Table { path, dotted } => put_node(m, path, TomlNode::Table { dotted }),
        TomlEditView::Text { path, value } => put_node(m, path, TomlNode::Text(value)),
    }
}

/// The nodes after the edits, one after the other.
pub open spec fn apply_edits(m: Map<Seq<Seq<char>>, TomlNode>, es: Seq<TomlEditView>) -> Map<Seq<Seq<char>>, TomlNode>
    decreases es.len(),
{
    if es.len() == 0 {
        m
    } else {
        apply_edit(apply_edits(m, es.drop_last()), es.last())
    }
}

/// Applying one more edit after a run of edits.
pub proof fn lemma_apply_edits_push(m: Map<Seq<Seq<char>>, TomlNode>, es: Seq<TomlEditView>, e: TomlEditView)
    ensures
        apply_edits(m, es.push(e)) == apply_edit(apply_edits(m, es), e),
{
    assert(es.push(e).drop_last() =~= es);
}

/// Puts an empty table at `[a]`, as the next of the edits `done` made since
/// the document had the nodes `m0`.
pub(crate) fn put_table(
    doc: &mut toml_edit::Document,
    a: &str,
    m0: Ghost<Map<Seq<Seq<char>>, TomlNode>>,
    done: Ghost<Seq<TomlEditView>>,
) -> (next: Ghost<Seq<TomlEditView>>)
    requires
        toml_entries(*old(doc)) == apply_edits(m0@, done@),
    ensures
        toml_entries(*final(doc)) == apply_edit(toml_entries(*old(doc)), TomlEditView::Table { path: seq![a@], dotted: false }),
        next@ == done@.push(TomlEditView::Table { path: seq![a@], dotted: false }),
        toml_entries(*final(doc)) == apply_edits(m0@, next@),
{
    toml_put_table_1(doc, a);
    let ghost e = TomlEditView::Table { path: seq![a@], dotted: false };
    proof { lemma_apply_edits_push(m0@, done@, e); }
    Ghost(done@.push(e))
}

/// Puts an empty dotted table at `[a, b]`, where `[a]` is a table, as the
/// next of the edits `done` made since the document had the nodes `m0`.
pub(crate) fn put_dotted_table(
    doc: &mut toml_edit::Document,
    a: &str,
    b: &str,
    m0: Ghost<Map<Seq<Seq<char>>, TomlNode>>,
    done: Ghost<Seq<TomlEditView>>,
) -> (next: Ghost<Seq<TomlEditView>>)
    requires
        is_table_at(toml_entries(*old(doc)), seq![a@]),
        toml_entries(*old(doc)) == apply_edits(m0@, done@),
    ensures
        toml_entries(*final(doc)) == apply_edit(toml_entries(*old(doc)), TomlEditView::Table { path: seq![a@, b@], dotted: true }),
        next@ == done@.push(TomlEditView::Table { path: seq![a@, b@], dotted: true }),
        toml_entries(*final(doc)) == apply_edits(m0@, next@),
{
    let ghost m = toml_entries(*doc);
    toml_put_table_2(doc, a, b);
    assert(!starts_with(seq![a@], seq![a@, b@]));
    toml_set_dotted_2(doc, a, b);
    assert(toml_entries(*doc) =~= put_node(m, seq![a@, b@], TomlNode::Table { dotted: true }));
    let ghost e = TomlEditView::Table { path: seq![a@, b@], dotted: true };
    proof { lemma_apply_edits_push(m0@, done@, e); }
    Ghost(done@.push(e))
}

/// Puts the string `v` at `[a, b]`, where `[a]` is a table, as the next of
/// the edits `done` made since the document had the nodes `m0`.
pub(crate) fn put_text_2(
    doc: &mut toml_edit::Document,
    a: &str,
    b: &str,
    v: &str,
    m0: Ghost<Map<Seq<Seq<char>>, TomlNode>>,
    done: Ghost<Seq<TomlEditView>>,
) -> (next: Ghost<Seq<TomlEditView>>)
    requires
        is_table_at(toml_entries(*old(doc)), seq![a@]),
        toml_entries(*old(doc)) == apply_edits(m0@, done@),
    ensures
        toml_entries(*final(doc)) == apply_edit(toml_entries(*old(doc)), TomlEditView::Text { path: seq![a@, b@], value: v@ }),
        next@ == done@.push(TomlEditView::Text { path: seq![a@, b@], value: v@ }),
        toml_entries(*final(doc)) == apply_edits(m0@, next@),
{
    toml_put_text_2(doc, a, b, v);
    let ghost e = TomlEditView::Text { path: seq![a@, b@], value: v@ };
    proof { lemma_apply_edits_push(m0@, done@, e); }
    Ghost(done@.push(e))
}

/// Puts the string `v` at `[a, b, c]`, where `[a]` and `[a, b]` are tables,
/// as the next of the edits `done` made since the document had the nodes
/// `m0`.
pub(crate) fn put_text_3(
    doc: &mut toml_edit::Document,
    a: &str,
    b: &str,
    c: &str,
    v: &str,
    m0: Ghost<Map<Seq<Seq<char>>, TomlNode>>,
    done: Ghost<Seq<TomlEditView>>,
) -> (next: Ghost<Seq<TomlEditView>>)
    requires
        is_table_at(toml_entries(*old(doc)), seq![a@]),
        is_table_at(toml_entries(*old(doc)), seq![a@, b@]),
        toml_entries(*old(doc)) == apply_edits(m0@, done@),
    ensures
        toml_entries(*final(doc)) == apply_edit(toml_entries(*old(doc)), TomlEditView::Text { path: seq![a@, b@, c@], value: v@ }),
        next@ == done@.push(TomlEditView::Text { path: seq![a@, b@, c@], value: v@ }),
        toml_entries(*final(doc)) == apply_edits(m0@, next@),
{
    toml_put_text_3(doc, a, b, c, v);
    let ghost e = TomlEditView::Text { path: seq![a@, b@, c@], value: v@ };
    proof { lemma_apply_edits_push(m0@, done@, e); }
    Ghost(done@.push(e))
}

/// Parses a TOML document; `None` where the text is not TOML.
pub(crate) fn parse_document(text: &str) -> (res: Option<toml_edit::Document>)
    ensures
        match res {
            Some(d) => parsed_toml_entries(text@) == Some(toml_entries(d)),
            None => parsed_toml_entries(text@) is None,
        },
{
    match toml_parse(text) {
        Ok(d) => Some(d),
        Err(_) => None,
    }
}

/// Whether the document's root holds `key`.
pub(crate) fn contains_key(doc: &toml_edit::Document, key: &str) -> (res: bool)
    ensures
        res == toml_entries(*doc).contains_key(seq![key@]),
{
    toml_contains_key(doc, key)
}

/// The document's text.
pub(crate) fn render(doc: &toml_edit::Document) -> (res: String)
    ensures
        res@ == rendered_toml(*doc),
{
    toml_render(doc)
}

} // verus!
