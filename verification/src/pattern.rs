//! Regular expressions, backed by the `regex` crate.

use vstd::prelude::*;
use crate::text::copy_of;

verus! {

#[verifier::external_type_specification]
#[verifier::external_body]
pub struct ExRegex(regex::Regex);

#[verifier::external_type_specification]
#[verifier::external_body]
pub struct ExRegexError(regex::Error);

/// A compiled regular expression, together with the pattern it was compiled
/// from. Nothing verified ties the two: they are kept in step because only
/// the trusted `regex_new` builds one, from the pattern it compiles.
pub struct Pattern {
    source: String,
    inner: regex::Regex,
}

impl View for Pattern {
    type V = Seq<char>;

    /// The pattern's source text.
    closed spec fn view(&self) -> Seq<char> {
        self.source@
    }
}

/// Whether `regex::Regex::new` accepts a pattern.
pub uninterp spec fn pattern_is_valid(pattern: Seq<char>) -> bool;

/// What `regex::Regex::replace_all` returns for the regex compiled from
/// `pattern`, a text and a replacement (in which `$name` and `${name}` stand
/// for capture groups).
pub uninterp spec fn regex_replaced(pattern: Seq<char>, text: Seq<char>, rep: Seq<char>) -> Seq<
    char,
>;

/// What `regex::Regex::is_match` returns for the regex compiled from
/// `pattern` and a text: whether the regex matches somewhere in it.
pub uninterp spec fn regex_finds(pattern: Seq<char>, text: Seq<char>) -> bool;

/// Compiles a pattern.
///
/// Wraps `regex::Regex::new`: `Ok` exactly where [`pattern_is_valid`] holds,
/// and then a regex kept together with its source text.
#[verifier::external_body]
fn regex_new(pattern: &str) -> (res: Result<Pattern, regex::Error>)
    ensures
        res is Ok <==> pattern_is_valid(pattern@),
        res matches Ok(p) ==> p@ == pattern@,
{
    match regex::Regex::new(pattern) {
        Ok(r) => Ok(Pattern { source: pattern.to_string(), inner: r }),
        Err(e) => Err(e),
    }
}

/// Whether `s` begins with `p`.
pub open spec fn begins_with(s: Seq<char>, p: Seq<char>) -> bool {
    p.len() <= s.len() && s.take(p.len() as int) == p
}

/// The length of `head` followed by `({` or, failing that, `{` at the start
/// of `s`; 0 if neither is there.
pub open spec fn call_len(s: Seq<char>, head: Seq<char>) -> nat {
    if begins_with(s, head + seq!['(', '{']) {
        head.len() + 2
    } else if begins_with(s, head + seq!['{']) {
        head.len() + 1
    } else {
        0
    }
}

/// The length of the fetcher call that starts `s`: `fetchurl `,
/// `fetchFromGitHub `, `fetchgit ` or `fetchTarball `, then `({` or `{`;
/// 0 if none does. It is what the pattern
/// `fetch(url|FromGitHub|git|Tarball) \(?\{` matches at the start of `s`
/// (the four names differ at their sixth character, and `\(?` takes the
/// parenthesis when it is there).
pub open spec fn fetcher_call_len(s: Seq<char>) -> nat {
    let u = call_len(s, seq!['f', 'e', 't', 'c', 'h', 'u', 'r', 'l', ' ']);
    let h = call_len(
        s,
        seq!['f', 'e', 't', 'c', 'h', 'F', 'r', 'o', 'm', 'G', 'i', 't', 'H', 'u', 'b', ' '],
    );
    let g = call_len(s, seq!['f', 'e', 't', 'c', 'h', 'g', 'i', 't', ' ']);
    let t = call_len(s, seq!['f', 'e', 't', 'c', 'h', 'T', 'a', 'r', 'b', 'a', 'l', 'l', ' ']);
    if u > 0 {
        u
    } else if h > 0 {
        h
    } else if g > 0 {
        g
    } else {
        t
    }
}

/// `s` with every fetcher call (see [`fetcher_call_len`]), found from left
/// to right, replaced by a bare `{`.
pub open spec fn fetcher_calls_opened(s: Seq<char>) -> Seq<char>
    decreases s.len(),
{
    if s.len() == 0 {
        s
    } else if fetcher_call_len(s) > 0 {
        seq!['{'] + fetcher_calls_opened(s.skip(fetcher_call_len(s) as int))
    } else {
        seq![s[0]] + fetcher_calls_opened(s.skip(1))
    }
}

/// Replaces every match.
///
/// Wraps `regex::Regex::replace_all` with a `&str` replacement; the result
/// is named [`regex_replaced`]. For the pattern
/// `fetch(url|FromGitHub|git|Tarball) \(?\{` and the replacement `{` (which
/// holds no `$`, so it is taken literally) the `regex` documentation of
/// `replace_all` (leftmost-first, non-overlapping matches) and of the
/// pattern syntax fix the result on the characters of the text, which the
/// second clause states.
#[verifier::external_body]
fn regex_replace_all(p: &Pattern, text: &str, rep: &str) -> (res: String)
    ensures
        res@ == regex_replaced(p@, text@, rep@),
        p@ == r"fetch(url|FromGitHub|git|Tarball) \(?\{"@ && rep@ == "{"@ ==> res@
            == fetcher_calls_opened(text@),
{
    p.inner.replace_all(text, rep).into_owned()
}

/// Whether a text starts with `v` and an ASCII digit: what the pattern
/// `^v[0-9]+` finds (`^` anchors at the start of the text, `[0-9]` is one
/// ASCII digit, and `+` asks for at least one).
pub open spec fn starts_with_v_digit(text: Seq<char>) -> bool {
    text.len() >= 2 && text[0] == 'v' && '0' <= text[1] && text[1] <= '9'
}

/// Tests for a match.
///
/// Wraps `regex::Regex::is_match`; the result is named [`regex_finds`]. For
/// the pattern `^v[0-9]+` the `regex` syntax documentation fixes the result
/// on the characters of the text, which the second clause states.
#[verifier::external_body]
fn regex_is_match(p: &Pattern, text: &str) -> (res: bool)
    ensures
        res == regex_finds(p@, text@),
        p@ == "^v[0-9]+"@ ==> (res <==> starts_with_v_digit(text@)),
{
    p.inner.is_match(text)
}

/// A pattern that does not compile.
#[derive(Debug, PartialEq, Eq)]
pub struct InvalidPattern {
    pub pattern: String,
}

impl Pattern {
    /// Compiles `pattern`.
    pub fn new(pattern: &str) -> (res: Result<Pattern, InvalidPattern>)
        ensures
            res is Ok <==> pattern_is_valid(pattern@),
            match res {
                Ok(p) => p@ == pattern@,
                Err(e) => e.pattern@ == pattern@,
            },
    {
        match regex_new(pattern) {
            Ok(p) => Ok(p),
            Err(_) => Err(InvalidPattern { pattern: copy_of(pattern) }),
        }
    }

    /// `text` with every match replaced by `rep`.
    pub fn replace_all(&self, text: &str, rep: &str) -> (res: String)
        ensures
            res@ == regex_replaced(self@, text@, rep@),
            self@ == r"fetch(url|FromGitHub|git|Tarball) \(?\{"@ && rep@ == "{"@ ==> res@
                == fetcher_calls_opened(text@),
    {
        regex_replace_all(self, text, rep)
    }

    /// Whether the pattern matches somewhere in `text`.
    pub fn is_match(&self, text: &str) -> (res: bool)
        ensures
            res == regex_finds(self@, text@),
            self@ == "^v[0-9]+"@ ==> (res <==> starts_with_v_digit(text@)),
    {
        regex_is_match(self, text)
    }
}

} // verus!
