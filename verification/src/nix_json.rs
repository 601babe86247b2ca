//! An incomplete conversion from the Nix expressions this project generates
//! to JSON5, and from there to JSON values.

use vstd::prelude::*;
use crate::pattern::{fetcher_calls_opened, pattern_is_valid, regex_replaced, Pattern};
use crate::text::copy_of;

verus! {

#[verifier::external_type_specification]
#[verifier::external_body]
pub struct ExJsonValue(serde_json::Value);

#[verifier::external_type_specification]
#[verifier::external_body]
pub struct ExJson5Error(json5::Error);

/// Whether `json5::from_str` reads a `serde_json::Value` from a text.
pub uninterp spec fn json5_accepts(text: Seq<char>) -> bool;

/// The JSON value that `json5::from_str` reads from a text, where it reads
/// one.
pub uninterp spec fn json5_value(text: Seq<char>) -> serde_json::Value;

/// Reads a JSON5 text into a JSON value.
///
/// Wraps `json5::from_str::<serde_json::Value>`: `Ok` exactly where
/// [`json5_accepts`] holds, and then the value named [`json5_value`].
#[verifier::external_body]
fn json5_from_str(text: &str) -> (res: Result<serde_json::Value, json5::Error>)
    ensures
        res is Ok <==> json5_accepts(text@),
        res matches Ok(v) ==> v == json5_value(text@),
{
    json5::from_str::<serde_json::Value>(text)
}

/// The rewrites, in order, that turn a Nix expression into JSON5: each a
/// regular expression and what its matches are replaced by.
pub open spec fn nix_rewrites() -> Seq<(Seq<char>, Seq<char>)> {
    seq![
        (r"\{ (fetch.+,?)+ }:"@, r#""#@),
        (r"(?m)^#(\w|.)*\n"@, r#""#@),
        (r"(?P<key>(_|-|\w)+) = "@, r#""${key}" = "#@),
        (r#"" = "#@, r#"": "#@),
        (r"fetch(url|FromGitHub|git|Tarball) \(?\{"@, r#"{"#@),
        (r"\}\)"@, r#"}"#@),
        (r";"@, r#","#@),
        (r#": (?P<val>\.[^",]+),"#@, r#": "${val}","#@),
        (r#""\s*\n"#@, r#"", "#@),
    ]
}

/// `text` after the rewrites `rules`, applied one after the other; `None`
/// if one of their patterns does not compile.
pub open spec fn rewritten(text: Seq<char>, rules: Seq<(Seq<char>, Seq<char>)>) -> Option<Seq<char>>
    decreases rules.len(),
{
    if rules.len() == 0 {
        Some(text)
    } else if !pattern_is_valid(rules[0].0) {
        None
    } else {
        rewritten(regex_replaced(rules[0].0, text, rules[0].1), rules.skip(1))
    }
}

/// The JSON5 text of a Nix expression; `None` if a rewrite pattern does not
/// compile.
pub open spec fn nix_json5_text(input: Seq<char>) -> Option<Seq<char>> {
    rewritten(input, nix_rewrites())
}

/// The first rewrite pattern that does not compile, if any.
pub open spec fn first_invalid_pattern(rules: Seq<(Seq<char>, Seq<char>)>) -> Option<Seq<char>>
    decreases rules.len(),
{
    if rules.len() == 0 {
        None
    } else if !pattern_is_valid(rules[0].0) {
        Some(rules[0].0)
    } else {
        first_invalid_pattern(rules.skip(1))
    }
}

/// Why a Nix expression could not be converted.
#[derive(Debug, PartialEq, Eq)]
pub enum NixConversionError {
    /// A rewrite pattern does not compile.
    InvalidPattern { pattern: String },
    /// The converted text is not JSON5.
    NotJson5 { input: String, converted: String },
}

/// The rewrites of [`nix_rewrites`], as pairs of texts.
fn nix_rewrite_rules() -> (res: Vec<(&'static str, &'static str)>)
    ensures
        res@.map_values(|r: (&str, &str)| (r.0@, r.1@)) == nix_rewrites(),
{
    let res = vec![
        (r"\{ (fetch.+,?)+ }:", r#""#),
        (r"(?m)^#(\w|.)*\n", r#""#),
        (r"(?P<key>(_|-|\w)+) = ", r#""${key}" = "#),
        (r#"" = "#, r#"": "#),
        (r"fetch(url|FromGitHub|git|Tarball) \(?\{", r#"{"#),
        (r"\}\)", r#"}"#),
        (r";", r#","#),
        (r#": (?P<val>\.[^",]+),"#, r#": "${val}","#),
        (r#""\s*\n"#, r#"", "#),
    ];
    assert(res@.map_values(|r: (&str, &str)| (r.0@, r.1@)) =~= nix_rewrites());
    res
}

proof fn lemma_rewritten_skip(text: Seq<char>, rules: Seq<(Seq<char>, Seq<char>)>, i: int)
    requires
        0 <= i < rules.len(),
        pattern_is_valid(rules[i].0),
    ensures
        rewritten(text, rules.skip(i)) == rewritten(regex_replaced(rules[i].0, text, rules[i].1), rules.skip(i + 1)),
        first_invalid_pattern(rules.skip(i)) == first_invalid_pattern(rules.skip(i + 1)),
{
    assert(rules.skip(i).skip(1) =~= rules.skip(i + 1));
}

/// `text` after the first `k` rewrites of `rules`, one after the other.
pub open spec fn rewritten_upto(text: Seq<char>, rules: Seq<(Seq<char>, Seq<char>)>, k: nat) -> Seq<char>
    decreases k,
{
    if k == 0 || k > rules.len() {
        text
    } else {
        regex_replaced(rules[k - 1].0, rewritten_upto(text, rules, (k - 1) as nat), rules[k - 1].1)
    }
}

/// Converts a Nix expression of the shape this project generates into JSON5
/// text.
pub fn nix_to_json5(input: &str) -> (res: Result<String, NixConversionError>)
    ensures
        match res {
            Ok(t) => nix_json5_text(input@) == Some(t@),
            Err(e) => {
                &&& nix_json5_text(input@) is None
                &&& e is InvalidPattern
                &&& first_invalid_pattern(nix_rewrites()) == Some(e->InvalidPattern_pattern@)
            },
        },
        // the rewrites run in order, and the fifth one turns each fetcher
        // call (`fetchgit {`, `fetchFromGitHub ({`, ...) into a bare `{`
        res matches Ok(t) ==> t@ == rewritten_upto(input@, nix_rewrites(), 9),
        res is Ok ==> rewritten_upto(input@, nix_rewrites(), 5) == fetcher_calls_opened(
            rewritten_upto(input@, nix_rewrites(), 4),
        ),
{
    let rules = nix_rewrite_rules();
    let ghost spec_rules = nix_rewrites();
    let mut text = copy_of(input);
    let mut i: usize = 0;
    assert(spec_rules.skip(0) =~= spec_rules);
    while i < rules.len()
        invariant
            i <= rules.len(),
            rules@.map_values(|r: (&str, &str)| (r.0@, r.1@)) == spec_rules,
            spec_rules == nix_rewrites(),
            rewritten(input@, spec_rules) == rewritten(text@, spec_rules.skip(i as int)),
            first_invalid_pattern(spec_rules) == first_invalid_pattern(spec_rules.skip(i as int)),
            text@ == rewritten_upto(input@, spec_rules, i as nat),
            i > 4 ==> rewritten_upto(input@, spec_rules, 5) == fetcher_calls_opened(
                rewritten_upto(input@, spec_rules, 4),
            ),
        decreases rules.len() - i,
    {
        let (pat, rep) = rules[i];
        assert(spec_rules[i as int] == (pat@, rep@));
        match Pattern::new(pat) {
            Ok(p) => {
                let next = p.replace_all(text.as_str(), rep);
                proof {
                    lemma_rewritten_skip(text@, spec_rules, i as int);
                    assert(rewritten_upto(input@, spec_rules, (i + 1) as nat) == next@);
                }
                text = next;
            },
            Err(e) => {
                return Err(NixConversionError::InvalidPattern { pattern: e.pattern });
            },
        }
        i = i + 1;
    }
    assert(spec_rules.skip(rules.len() as int) =~= Seq::<(Seq<char>, Seq<char>)>::empty());
    Ok(text)
}

/// Converts a Nix expression of the shape this project generates into a JSON
/// value, through [`nix_to_json5`] and a JSON5 parse.
pub fn nix_to_json_partial(input: &str) -> (res: Result<serde_json::Value, NixConversionError>)
    ensures
        res is Ok <==> (nix_json5_text(input@) is Some && json5_accepts(nix_json5_text(input@)->0)),
        res matches Ok(v) ==> v == json5_value(nix_json5_text(input@)->0),
        nix_json5_text(input@) is None ==> res matches Err(NixConversionError::InvalidPattern { .. }),
        nix_json5_text(input@) is Some && !json5_accepts(nix_json5_text(input@)->0) ==> (res matches Err(
            NixConversionError::NotJson5 { input: i, converted: c },
        ) && i@ == input@ && nix_json5_text(input@) == Some(c@)),
{
    let converted = nix_to_json5(input)?;
    match json5_from_str(converted.as_str()) {
        Ok(v) => Ok(v),
        Err(_) => Err(NixConversionError::NotJson5 { input: copy_of(input), converted }),
    }
}

} // verus!
