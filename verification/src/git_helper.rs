//! What the git helpers make of git's output: the tags listed by
//! `git ls-remote --tags --refs`, and the verdict of `git diff --quiet`.

use vstd::prelude::*;
use vstd::utf8::{decode_utf8, valid_utf8};
use crate::text::{after_last, last_piece, replace, replaced};

verus! {

/// Reads bytes as UTF-8.
///
/// Wraps `std::str::from_utf8`, which the standard library documents as
/// succeeding exactly on valid UTF-8: `Some` exactly where the bytes are valid
/// UTF-8, and then the characters they encode.
#[verifier::external_body]
fn utf8_decode(bytes: &[u8]) -> (res: Option<String>)
    ensures
        res is Some <==> valid_utf8(bytes@),
        res matches Some(s) ==> s@ == decode_utf8(bytes@),
{
    match std::str::from_utf8(bytes) {
        Ok(s) => Some(s.to_string()),
        Err(_) => None,
    }
}

/// The position of the first `x` in `b`, if any.
pub open spec fn first_byte(b: Seq<u8>, x: u8) -> Option<int>
    decreases b.len(),
{
    if b.len() == 0 {
        None
    } else if b[0] == x {
        Some(0)
    } else {
        match first_byte(b.skip(1), x) {
            Some(i) => Some(i + 1),
            None => None,
        }
    }
}

/// A found byte lies inside the sequence and is the one looked for.
pub proof fn lemma_first_byte_range(b: Seq<u8>, x: u8)
    ensures
        first_byte(b, x) matches Some(i) ==> 0 <= i < b.len() && b[i] == x,
    decreases b.len(),
{
    if b.len() > 0 {
        lemma_first_byte_range(b.skip(1), x);
    }
}

proof fn lemma_first_byte_found(b: Seq<u8>, x: u8, i: int)
    requires
        0 <= i < b.len(),
        b[i] == x,
        forall|k: int| 0 <= k < i ==> b[k] != x,
    ensures
        first_byte(b, x) == Some(i),
    decreases i,
{
    if i > 0 {
        lemma_first_byte_found(b.skip(1), x, i - 1);
    }
}

proof fn lemma_first_byte_absent(b: Seq<u8>, x: u8)
    requires
        forall|k: int| 0 <= k < b.len() ==> b[k] != x,
    ensures
        first_byte(b, x) is None,
    decreases b.len(),
{
    if b.len() > 0 {
        lemma_first_byte_absent(b.skip(1), x);
    }
}

/// `line` without one trailing carriage return.
pub open spec fn without_cr(line: Seq<u8>) -> Seq<u8> {
    if line.len() > 0 && line.last() == 13u8 {
        line.drop_last()
    } else {
        line
    }
}

/// The refs prefix that `git ls-remote --tags` puts before each tag name.
pub open spec fn refs_tags_prefix() -> Seq<char> {
    seq!['r', 'e', 'f', 's', '/', 't', 'a', 'g', 's', '/']
}

/// The tag named on one output line of `git ls-remote`: the text after the
/// line's last tab, with every `refs/tags/` removed; `None` for a line that is
/// not UTF-8.
pub open spec fn tag_of_line(line: Seq<u8>) -> Option<Seq<char>> {
    if valid_utf8(line) {
        Some(replaced(after_last(decode_utf8(line), '\t'), refs_tags_prefix(), Seq::empty()))
    } else {
        None
    }
}

/// The tags named in the output of `git ls-remote --tags --refs`: its lines
/// are split at `\n` (a line ended by `\n` also loses a `\r` before it, and
/// nothing follows a final `\n`), as `BufRead::lines` splits them, and lines
/// that are not UTF-8 are skipped.
pub open spec fn ls_remote_tags_of(out: Seq<u8>) -> Seq<Seq<char>>
    decreases out.len(),
{
    if out.len() == 0 {
        Seq::empty()
    } else {
        match first_byte(out, 10u8) {
            None => match tag_of_line(out) {
                Some(t) => seq![t],
                None => Seq::empty(),
            },
            Some(i) => {
                proof {
                    lemma_first_byte_range(out, 10u8);
                }
                let rest = ls_remote_tags_of(out.skip(i + 1));
                match tag_of_line(without_cr(out.take(i))) {
                    Some(t) => seq![t] + rest,
                    None => rest,
                }
            },
        }
    }
}

/// The tag on one line, if the line is UTF-8.
fn tag_from_line(line: &Vec<u8>) -> (res: Option<String>)
    ensures
        match res {
            Some(t) => tag_of_line(line@) == Some(t@),
            None => tag_of_line(line@) is None,
        },
{
    match utf8_decode(line.as_slice()) {
        Some(text) => {
            let last = last_piece(text.as_str(), '\t');
            proof {
                reveal_strlit("refs/tags/");
                reveal_strlit("");
            }
            assert("refs/tags/"@ =~= refs_tags_prefix());
            assert(""@ =~= Seq::<char>::empty());
            Some(replace(last.as_str(), "refs/tags/", ""))
        },
        None => None,
    }
}

/// The bytes `b[start..end]`.
fn bytes_between(b: &[u8], start: usize, end: usize) -> (res: Vec<u8>)
    requires
        start <= end <= b@.len(),
    ensures
        res@ == b@.subrange(start as int, end as int),
{
    let mut res: Vec<u8> = Vec::new();
    let mut k: usize = start;
    while k < end
        invariant
            start <= k <= end <= b@.len(),
            res@ == b@.subrange(start as int, k as int),
        decreases end - k,
    {
        res.push(b[k]);
        assert(b@.subrange(start as int, k as int).push(b@[k as int]) =~= b@.subrange(start as int, k + 1));
        k = k + 1;
    }
    res
}

/// The tags listed in the output of `git ls-remote --tags --refs`, in order.
pub fn tags_from_ls_remote(out: &[u8]) -> (res: Vec<String>)
    ensures
        res@.map_values(|t: String| t@) == ls_remote_tags_of(out@),
{
    let mut res: Vec<String> = Vec::new();
    let mut start: usize = 0;
    let mut i: usize = 0;
    assert(out@.skip(0) =~= out@);
    assert(Seq::<Seq<char>>::empty() + ls_remote_tags_of(out@) =~= ls_remote_tags_of(out@));
    while i < out.len()
        invariant
            start <= i <= out@.len(),
            forall|k: int| start <= k < i ==> out@[k] != 10u8,
            res@.map_values(|t: String| t@) + ls_remote_tags_of(out@.skip(start as int))
                == ls_remote_tags_of(out@),
        decreases out@.len() - i,
    {
        if out[i] == 10u8 {
            let ghost rest = out@.skip(start as int);
            proof {
                assert forall|k: int| 0 <= k < i - start implies rest[k] != 10u8 by {
                    assert(rest[k] == out@[start + k]);
                }
                lemma_first_byte_found(rest, 10u8, i - start);
            }
            let mut line = bytes_between(out, start, i);
            assert(line@ == rest.take(i - start));
            if line.len() > 0 && line[line.len() - 1] == 13u8 {
                line.pop();
            }
            assert(line@ == without_cr(rest.take(i - start)));
            assert(rest.skip(i - start + 1) =~= out@.skip(i + 1));
            let ghost before = res@.map_values(|t: String| t@);
            match tag_from_line(&line) {
                Some(t) => {
                    res.push(t);
                    assert(res@.map_values(|t: String| t@) =~= before.push(t@));
                    assert(before.push(t@) + ls_remote_tags_of(out@.skip(i + 1)) =~= before + (seq![t@]
                        + ls_remote_tags_of(out@.skip(i + 1))));
                },
                None => {},
            }
            start = i + 1;
        }
        i = i + 1;
    }
    let ghost rest = out@.skip(start as int);
    if start < out.len() {
        proof {
            assert forall|k: int| 0 <= k < rest.len() implies rest[k] != 10u8 by {
                assert(rest[k] == out@[start + k]);
            }
            lemma_first_byte_absent(rest, 10u8);
        }
        let line = bytes_between(out, start, out.len());
        assert(line@ =~= rest);
        let ghost before = res@.map_values(|t: String| t@);
        match tag_from_line(&line) {
            Some(t) => {
                res.push(t);
                assert(res@.map_values(|t: String| t@) =~= before.push(t@));
                assert(before.push(t@) =~= before + seq![t@]);
            },
            None => {
                assert(before + Seq::<Seq<char>>::empty() =~= before);
            },
        }
    } else {
        assert(rest.len() == 0);
        assert(res@.map_values(|t: String| t@) + Seq::<Seq<char>>::empty() =~= res@.map_values(
            |t: String| t@,
        ));
    }
    res
}

/// How `git diff --quiet` ended, when it did not say whether there is a
/// difference.
#[derive(Debug, PartialEq, Eq)]
pub enum DiffStatusError {
    /// The command ended without an exit code (it was killed by a signal).
    NoStatusCode,
    /// The command failed with this exit code.
    Failed { code: i32 },
}

/// Whether `git diff --quiet` reported a difference, from its exit code:
/// `0` means none, `1` means some, anything else is a failure.
pub fn diff_status(code: Option<i32>) -> (res: Result<bool, DiffStatusError>)
    ensures
        res == (match code {
            None => Err(DiffStatusError::NoStatusCode),
            Some(0i32) => Ok(false),
            Some(1i32) => Ok(true),
            Some(c) => Err(DiffStatusError::Failed { code: c }),
        }),
{
    match code {
        None => Err(DiffStatusError::NoStatusCode),
        Some(0) => Ok(false),
        Some(1) => Ok(true),
        Some(c) => Err(DiffStatusError::Failed { code: c }),
    }
}

} // verus!
