//! Text operations over strings, specified on their character sequences.

use vstd::prelude::*;

verus! {

/// Appends one character to a string.
///
/// Wraps `String::push`, which the standard library documents as appending
/// the given `char` to the end of the string.
#[verifier::external_body]
fn push_char(s: &mut String, c: char)
    ensures
        final(s)@ == old(s)@.push(c),
{
    s.push(c);
}

/// The characters of `s`, in order.
pub fn chars_of(s: &str) -> (res: Vec<char>)
    ensures
        res@ == s@,
{
    let mut res: Vec<char> = Vec::new();
    for c in it: s.chars()
        invariant
            res@ == it.seq().take(it.index() as int),
            it.seq() == s@,
    {
        res.push(c);
    }
    res
}

/// The string made of the characters of `v`, in order.
pub fn string_of(v: &Vec<char>) -> (res: String)
    ensures
        res@ == v@,
{
    let mut res = String::new();
    let mut i: usize = 0;
    while i < v.len()
        invariant
            i <= v.len(),
            res@ == v@.take(i as int),
        decreases v.len() - i,
    {
        push_char(&mut res, v[i]);
        assert(v@.take(i as int).push(v@[i as int]) =~= v@.take(i + 1));
        i = i + 1;
    }
    assert(v@.take(v.len() as int) =~= v@);
    res
}


/// Whether `pat` occurs in `s` starting at position `i`.
pub open spec fn occurs_at(s: Seq<char>, pat: Seq<char>, i: int) -> bool {
    0 <= i && i + pat.len() <= s.len() && s.subrange(i, i + pat.len()) == pat
}

/// `s` with every non-overlapping occurrence of `pat`, found from left to
/// right, replaced by `rep` (what `str::replace` computes). An empty `pat`
/// matches at every position, before each character and at the end.
pub open spec fn replaced(s: Seq<char>, pat: Seq<char>, rep: Seq<char>) -> Seq<char>
    decreases s.len(),
{
    if pat.len() == 0 {
        if s.len() == 0 {
            rep
        } else {
            rep + seq![s[0]] + replaced(s.skip(1), pat, rep)
        }
    } else if s.len() < pat.len() {
        s
    } else if s.take(pat.len() as int) == pat {
        rep + replaced(s.skip(pat.len() as int), pat, rep)
    } else {
        seq![s[0]] + replaced(s.skip(1), pat, rep)
    }
}

/// Whether `pat` occurs in `s` at position `i` (exec version of [`occurs_at`]).
fn matches_at(s: &Vec<char>, pat: &Vec<char>, i: usize) -> (res: bool)
    requires
        i <= s.len(),
    ensures
        res == occurs_at(s@, pat@, i as int),
{
    if s.len() - i < pat.len() {
        return false;
    }
    let mut j: usize = 0;
    while j < pat.len()
        invariant
            i + pat.len() <= s.len(),
            j <= pat.len(),
            forall|k: int| 0 <= k < j ==> s@[i + k] == pat@[k],
        decreases pat.len() - j,
    {
        if s[i + j] != pat[j] {
            assert(s@.subrange(i as int, i + pat.len())[j as int] != pat@[j as int]);
            return false;
        }
        j = j + 1;
    }
    assert(s@.subrange(i as int, i + pat.len()) =~= pat@);
    true
}

proof fn lemma_skip_take(s: Seq<char>, i: int, n: int)
    requires
        0 <= i,
        0 <= n,
        i + n <= s.len(),
    ensures
        s.skip(i).take(n) == s.subrange(i, i + n),
{
    assert(s.skip(i).take(n) =~= s.subrange(i, i + n));
}

/// Core of [`replace`] for a non-empty pattern: replaces, from left to
/// right, every non-overlapping occurrence of `pat`.
fn replace_chars(s: &Vec<char>, pat: &Vec<char>, rep: &Vec<char>) -> (res: Vec<char>)
    requires
        pat.len() > 0,
    ensures
        res@ == replaced(s@, pat@, rep@),
{
    let mut out: Vec<char> = Vec::new();
    let mut i: usize = 0;
    assert(s@.skip(0) =~= s@);
    assert(out@ + replaced(s@, pat@, rep@) =~= replaced(s@, pat@, rep@));
    while i < s.len()
        invariant
            pat.len() > 0,
            i <= s.len(),
            out@ + replaced(s@.skip(i as int), pat@, rep@) == replaced(s@, pat@, rep@),
        decreases s.len() - i,
    {
        let ghost rest = s@.skip(i as int);
        proof {
            if i + pat.len() <= s.len() {
                lemma_skip_take(s@, i as int, pat@.len() as int);
            }
        }
        if matches_at(s, pat, i) {
            let ghost before = out@;
            push_chars(&mut out, rep);
            assert(rest.skip(pat.len() as int) =~= s@.skip(i + pat.len()));
            assert(rest.take(pat.len() as int) == pat@);
            i = i + pat.len();
            assert(before + (rep@ + replaced(rest.skip(pat.len() as int), pat@, rep@))
                =~= out@ + replaced(rest.skip(pat.len() as int), pat@, rep@));
        } else {
            let ghost before = out@;
            out.push(s[i]);
            assert(rest.skip(1) =~= s@.skip(i + 1));
            assert(rest[0] == s@[i as int]);
            i = i + 1;
            assert(rest.len() < pat.len() || rest.take(pat.len() as int) != pat@);
            assert(before + (seq![rest[0]] + replaced(s@.skip(i as int), pat@, rep@))
                =~= out@ + replaced(s@.skip(i as int), pat@, rep@));
        }
    }
    assert(s@.skip(s.len() as int) =~= Seq::<char>::empty());
    assert(out@ + Seq::<char>::empty() =~= out@);
    out
}

/// Appends the characters of `rep` to `out`.
fn push_chars(out: &mut Vec<char>, rep: &Vec<char>)
    ensures
        final(out)@ == old(out)@ + rep@,
{
    let mut k: usize = 0;
    while k < rep.len()
        invariant
            k <= rep.len(),
            out@ == old(out)@ + rep@.take(k as int),
        decreases rep.len() - k,
    {
        out.push(rep[k]);
        assert(rep@.take(k as int).push(rep@[k as int]) =~= rep@.take(k + 1));
        k = k + 1;
    }
    assert(rep@.take(rep.len() as int) =~= rep@);
}

/// Core of [`replace`] for the empty pattern: `rep` before each character
/// and at the end.
fn interleave_chars(s: &Vec<char>, rep: &Vec<char>) -> (res: Vec<char>)
    ensures
        res@ == replaced(s@, Seq::empty(), rep@),
{
    let ghost e = Seq::<char>::empty();
    let mut out: Vec<char> = Vec::new();
    let mut i: usize = 0;
    assert(s@.skip(0) =~= s@);
    assert(out@ + replaced(s@, e, rep@) =~= replaced(s@, e, rep@));
    while i < s.len()
        invariant
            i <= s.len(),
            e == Seq::<char>::empty(),
            out@ + replaced(s@.skip(i as int), e, rep@) == replaced(s@, e, rep@),
        decreases s.len() - i,
    {
        let ghost rest = s@.skip(i as int);
        let ghost before = out@;
        push_chars(&mut out, rep);
        out.push(s[i]);
        assert(rest.skip(1) =~= s@.skip(i + 1));
        assert(rest[0] == s@[i as int]);
        i = i + 1;
        assert(before + (rep@ + seq![rest[0]] + replaced(s@.skip(i as int), e, rep@))
            =~= out@ + replaced(s@.skip(i as int), e, rep@));
    }
    assert(s@.skip(s.len() as int) =~= e);
    push_chars(&mut out, rep);
    out
}

/// `s` with every occurrence of `from` replaced by `to` (`str::replace`).
pub fn replace(s: &str, from: &str, to: &str) -> (res: String)
    ensures
        res@ == replaced(s@, from@, to@),
{
    let sv = chars_of(s);
    let pv = chars_of(from);
    let rv = chars_of(to);
    let out = if pv.len() == 0 {
        assert(pv@ =~= Seq::<char>::empty());
        interleave_chars(&sv, &rv)
    } else {
        replace_chars(&sv, &pv, &rv)
    };
    string_of(&out)
}


/// The pieces of `s` between occurrences of `sep` (what `str::split` with a
/// `char` pattern yields): one more piece than there are separators.
pub open spec fn split_on(s: Seq<char>, sep: char) -> Seq<Seq<char>>
    decreases s.len(),
{
    if s.len() == 0 {
        seq![Seq::<char>::empty()]
    } else {
        let init = split_on(s.drop_last(), sep);
        if s.last() == sep {
            init.push(Seq::<char>::empty())
        } else {
            init.update(init.len() - 1, init.last().push(s.last()))
        }
    }
}

/// The pieces joined back together with `sep` between consecutive pieces.
pub open spec fn joined(parts: Seq<Seq<char>>, sep: char) -> Seq<char>
    decreases parts.len(),
{
    if parts.len() == 0 {
        Seq::<char>::empty()
    } else if parts.len() == 1 {
        parts[0]
    } else {
        joined(parts.drop_last(), sep) + seq![sep] + parts.last()
    }
}

/// The pieces as strings: a view of a vector of strings.
pub open spec fn string_views(v: Seq<String>) -> Seq<Seq<char>> {
    v.map_values(|x: String| x@)
}

/// `split_on` never yields an empty list of pieces.
pub proof fn lemma_split_nonempty(s: Seq<char>, sep: char)
    ensures
        split_on(s, sep).len() >= 1,
    decreases s.len(),
{
    if s.len() > 0 {
        lemma_split_nonempty(s.drop_last(), sep);
    }
}

/// Splitting a string on a character and joining the pieces back with the
/// same character gives the string back.
pub proof fn lemma_join_split(s: Seq<char>, sep: char)
    ensures
        joined(split_on(s, sep), sep) == s,
    decreases s.len(),
{
    if s.len() > 0 {
        let init = split_on(s.drop_last(), sep);
        lemma_join_split(s.drop_last(), sep);
        lemma_split_nonempty(s.drop_last(), sep);
        if s.last() == sep {
            let parts = init.push(Seq::<char>::empty());
            assert(parts.drop_last() =~= init);
            assert(joined(parts, sep) == joined(init, sep) + seq![sep] + Seq::<char>::empty());
            assert(s.drop_last() + seq![sep] + Seq::<char>::empty() =~= s);
        } else {
            let parts = init.update(init.len() - 1, init.last().push(s.last()));
            if init.len() == 1 {
                assert(init[0].push(s.last()) =~= s);
            } else {
                assert(parts.drop_last() =~= init.drop_last());
                assert(joined(init, sep) == joined(init.drop_last(), sep) + seq![sep] + init.last());
                let x = joined(init.drop_last(), sep);
                assert(s.drop_last() == x + seq![sep] + init.last());
                assert(s =~= s.drop_last().push(s.last()));
                assert(x + seq![sep] + init.last().push(s.last()) =~= (x + seq![sep] + init.last()).push(s.last()));
                assert(parts.last() == init.last().push(s.last()));
                assert(joined(parts, sep) == joined(parts.drop_last(), sep) + seq![sep] + parts.last());
            }
        }
    }
}

/// `str::split` with a character separator, on character vectors.
fn split_chars(s: &Vec<char>, sep: char) -> (res: Vec<Vec<char>>)
    ensures
        res@.map_values(|x: Vec<char>| x@) == split_on(s@, sep),
{
    let mut parts: Vec<Vec<char>> = Vec::new();
    let mut cur: Vec<char> = Vec::new();
    let mut i: usize = 0;
    assert(s@.take(0) =~= Seq::<char>::empty());
    while i < s.len()
        invariant
            i <= s.len(),
            parts@.map_values(|x: Vec<char>| x@).push(cur@) == split_on(s@.take(i as int), sep),
        decreases s.len() - i,
    {
        let ghost prev_parts = parts@.map_values(|x: Vec<char>| x@);
        let ghost prev_cur = cur@;
        let c = s[i];
        assert(s@.take(i + 1).drop_last() =~= s@.take(i as int));
        assert(s@.take(i + 1).last() == c);
        if c == sep {
            let done = cur;
            parts.push(done);
            cur = Vec::new();
            assert(parts@.map_values(|x: Vec<char>| x@) =~= prev_parts.push(prev_cur));
        } else {
            cur.push(c);
            assert(prev_parts.push(prev_cur).update(prev_parts.len() as int, prev_cur.push(c))
                =~= prev_parts.push(cur@));
        }
        i = i + 1;
    }
    assert(s@.take(s.len() as int) =~= s@);
    let ghost prev_parts = parts@.map_values(|x: Vec<char>| x@);
    parts.push(cur);
    assert(parts@.map_values(|x: Vec<char>| x@) =~= prev_parts.push(cur@));
    parts
}

/// `str::split` with a character separator, collected into strings.
pub fn split(s: &str, sep: char) -> (res: Vec<String>)
    ensures
        string_views(res@) == split_on(s@, sep),
{
    let sv = chars_of(s);
    let parts = split_chars(&sv, sep);
    let mut res: Vec<String> = Vec::new();
    let mut i: usize = 0;
    while i < parts.len()
        invariant
            i <= parts.len(),
            parts@.map_values(|x: Vec<char>| x@) == split_on(s@, sep),
            string_views(res@) == parts@.map_values(|x: Vec<char>| x@).take(i as int),
        decreases parts.len() - i,
    {
        let piece = string_of(&parts[i]);
        let ghost before = string_views(res@);
        res.push(piece);
        assert(string_views(res@) =~= before.push(piece@));
        assert(parts@.map_values(|x: Vec<char>| x@).take(i + 1) =~= before.push(parts@[i as int]@));
        i = i + 1;
    }
    assert(parts@.map_values(|x: Vec<char>| x@).take(parts.len() as int) =~= parts@.map_values(|x: Vec<char>| x@));
    res
}

/// The last piece of `split_on(s, sep)`: what follows the last `sep`, or the
/// whole of `s` if it holds none (`s.split(sep).last()`).
pub open spec fn after_last(s: Seq<char>, sep: char) -> Seq<char> {
    split_on(s, sep).last()
}

/// Exec form of [`after_last`].
pub fn last_piece(s: &str, sep: char) -> (res: String)
    ensures
        res@ == after_last(s@, sep),
{
    let sv = chars_of(s);
    let mut cur: Vec<char> = Vec::new();
    let mut i: usize = 0;
    assert(s@.take(0) =~= Seq::<char>::empty());
    while i < sv.len()
        invariant
            i <= sv.len(),
            sv@ == s@,
            cur@ == split_on(sv@.take(i as int), sep).last(),
        decreases sv.len() - i,
    {
        proof { lemma_split_nonempty(sv@.take(i as int), sep); }
        assert(sv@.take(i + 1).drop_last() =~= sv@.take(i as int));
        if sv[i] == sep {
            cur = Vec::new();
            assert(cur@ =~= Seq::<char>::empty());
        } else {
            cur.push(sv[i]);
        }
        i = i + 1;
    }
    assert(sv@.take(sv.len() as int) =~= sv@);
    string_of(&cur)
}

/// The text before and after the first `sep` in `s`, if there is one
/// (`str::split_once` with a `char` pattern).
pub open spec fn split_once_at(s: Seq<char>, sep: char) -> Option<(Seq<char>, Seq<char>)>
    decreases s.len(),
{
    if s.len() == 0 {
        None
    } else if s[0] == sep {
        Some((Seq::<char>::empty(), s.skip(1)))
    } else {
        match split_once_at(s.skip(1), sep) {
            Some((a, b)) => Some((seq![s[0]] + a, b)),
            None => None,
        }
    }
}

proof fn lemma_split_once_found(s: Seq<char>, sep: char, i: int)
    requires
        0 <= i < s.len(),
        s[i] == sep,
        forall|k: int| 0 <= k < i ==> s[k] != sep,
    ensures
        split_once_at(s, sep) == Some((s.take(i), s.skip(i + 1))),
    decreases i,
{
    if i > 0 {
        lemma_split_once_found(s.skip(1), sep, i - 1);
        assert(seq![s[0]] + s.skip(1).take(i - 1) =~= s.take(i));
        assert(s.skip(1).skip(i) =~= s.skip(i + 1));
    }
}

proof fn lemma_split_once_absent(s: Seq<char>, sep: char)
    requires
        forall|k: int| 0 <= k < s.len() ==> s[k] != sep,
    ensures
        split_once_at(s, sep) is None,
    decreases s.len(),
{
    if s.len() > 0 {
        lemma_split_once_absent(s.skip(1), sep);
    }
}

/// Exec form of [`split_once_at`].
pub fn split_once(s: &str, sep: char) -> (res: Option<(String, String)>)
    ensures
        match res {
            Some((a, b)) => split_once_at(s@, sep) == Some((a@, b@)),
            None => split_once_at(s@, sep) is None,
        },
{
    let sv = chars_of(s);
    let mut i: usize = 0;
    while i < sv.len()
        invariant
            i <= sv.len(),
            sv@ == s@,
            forall|k: int| 0 <= k < i ==> sv@[k] != sep,
        decreases sv.len() - i,
    {
        if sv[i] == sep {
            let mut before: Vec<char> = Vec::new();
            let mut after: Vec<char> = Vec::new();
            let mut j: usize = 0;
            while j < i
                invariant
                    j <= i < sv.len(),
                    before@ == sv@.take(j as int),
                decreases i - j,
            {
                before.push(sv[j]);
                assert(sv@.take(j as int).push(sv@[j as int]) =~= sv@.take(j + 1));
                j = j + 1;
            }
            j = i + 1;
            while j < sv.len()
                invariant
                    i < j <= sv.len(),
                    after@ == sv@.subrange(i + 1, j as int),
                decreases sv.len() - j,
            {
                after.push(sv[j]);
                assert(sv@.subrange(i + 1, j as int).push(sv@[j as int]) =~= sv@.subrange(i + 1, j + 1));
                j = j + 1;
            }
            assert(sv@.subrange(i + 1, sv.len() as int) =~= sv@.skip(i + 1));
            proof { lemma_split_once_found(sv@, sep, i as int); }
            return Some((string_of(&before), string_of(&after)));
        }
        i = i + 1;
    }
    proof { lemma_split_once_absent(sv@, sep); }
    None
}

/// Whether `c` is white space in the sense of Unicode's `White_Space`
/// property, as `char::is_whitespace` defines it.
pub open spec fn is_white(c: char) -> bool {
    ||| ('\u{9}' <= c && c <= '\u{d}')
    ||| c == ' '
    ||| c == '\u{85}'
    ||| c == '\u{a0}'
    ||| c == '\u{1680}'
    ||| ('\u{2000}' <= c && c <= '\u{200a}')
    ||| c == '\u{2028}'
    ||| c == '\u{2029}'
    ||| c == '\u{202f}'
    ||| c == '\u{205f}'
    ||| c == '\u{3000}'
}

fn is_white_exec(c: char) -> (res: bool)
    ensures
        res == is_white(c),
{
    ('\u{9}' <= c && c <= '\u{d}') || c == ' ' || c == '\u{85}' || c == '\u{a0}' || c == '\u{1680}'
        || ('\u{2000}' <= c && c <= '\u{200a}') || c == '\u{2028}' || c == '\u{2029}'
        || c == '\u{202f}' || c == '\u{205f}' || c == '\u{3000}'
}

/// `s` without its leading white space.
pub open spec fn trim_start_of(s: Seq<char>) -> Seq<char>
    decreases s.len(),
{
    if s.len() > 0 && is_white(s[0]) {
        trim_start_of(s.skip(1))
    } else {
        s
    }
}

/// `s` without its trailing white space.
pub open spec fn trim_end_of(s: Seq<char>) -> Seq<char>
    decreases s.len(),
{
    if s.len() > 0 && is_white(s.last()) {
        trim_end_of(s.drop_last())
    } else {
        s
    }
}

/// `s` without leading and trailing white space (`str::trim`).
pub open spec fn trimmed(s: Seq<char>) -> Seq<char> {
    trim_end_of(trim_start_of(s))
}

proof fn lemma_trim_start_at(s: Seq<char>, i: int)
    requires
        0 <= i <= s.len(),
        forall|k: int| 0 <= k < i ==> is_white(s[k]),
        i < s.len() ==> !is_white(s[i]),
    ensures
        trim_start_of(s) == s.skip(i),
    decreases i,
{
    if i > 0 {
        lemma_trim_start_at(s.skip(1), i - 1);
        assert(s.skip(1).skip(i - 1) =~= s.skip(i));
    } else {
        assert(s.skip(0) =~= s);
    }
}

proof fn lemma_trim_end_at(s: Seq<char>, j: int)
    requires
        0 <= j <= s.len(),
        forall|k: int| j <= k < s.len() ==> is_white(s[k]),
        j > 0 ==> !is_white(s[j - 1]),
    ensures
        trim_end_of(s) == s.take(j),
    decreases s.len() - j,
{
    if j < s.len() {
        lemma_trim_end_at(s.drop_last(), j);
        assert(s.drop_last().take(j) =~= s.take(j));
    } else {
        assert(s.take(j) =~= s);
    }
}

/// `str::trim`.
pub fn trim(s: &str) -> (res: String)
    ensures
        res@ == trimmed(s@),
{
    let sv = chars_of(s);
    let mut i: usize = 0;
    while i < sv.len() && is_white_exec(sv[i])
        invariant
            i <= sv.len(),
            forall|k: int| 0 <= k < i ==> is_white(sv@[k]),
        decreases sv.len() - i,
    {
        i = i + 1;
    }
    proof { lemma_trim_start_at(sv@, i as int); }
    let ghost rest = sv@.skip(i as int);
    let mut j: usize = sv.len();
    while j > i && is_white_exec(sv[j - 1])
        invariant
            i <= j <= sv.len(),
            forall|k: int| j <= k < sv.len() ==> is_white(sv@[k]),
        decreases j,
    {
        j = j - 1;
    }
    proof {
        assert forall|k: int| j - i <= k < rest.len() implies is_white(rest[k]) by {
            assert(rest[k] == sv@[i + k]);
        }
        if j > i {
            assert(rest[j - i - 1] == sv@[j - 1]);
        }
        lemma_trim_end_at(rest, j - i);
    }
    let mut out: Vec<char> = Vec::new();
    let mut k: usize = i;
    while k < j
        invariant
            i <= k <= j <= sv.len(),
            out@ == sv@.subrange(i as int, k as int),
        decreases j - k,
    {
        out.push(sv[k]);
        assert(sv@.subrange(i as int, k as int).push(sv@[k as int]) =~= sv@.subrange(i as int, k + 1));
        k = k + 1;
    }
    assert(rest.take(j - i) =~= sv@.subrange(i as int, j as int));
    string_of(&out)
}


/// What `str::to_lowercase` returns for a string with these characters.
pub uninterp spec fn lowercased(s: Seq<char>) -> Seq<char>;

/// The ASCII lowercase of `c`: `A`..`Z` become `a`..`z`, anything else stays.
pub open spec fn ascii_lower(c: char) -> char {
    if 'A' <= c && c <= 'Z' {
        ((c as u32) + 32) as char
    } else {
        c
    }
}

/// Whether every character of `s` is ASCII.
pub open spec fn all_ascii(s: Seq<char>) -> bool {
    forall|i: int| 0 <= i < s.len() ==> (s[i] as u32) < 128
}

/// The lowercase form of `s`: the ASCII mapping for an ASCII string, and
/// otherwise what `str::to_lowercase` returns.
pub open spec fn lowercase_text(s: Seq<char>) -> Seq<char> {
    if all_ascii(s) {
        s.map_values(|c: char| ascii_lower(c))
    } else {
        lowercased(s)
    }
}

/// Lowercases a string.
///
/// Wraps `str::to_lowercase`. Its result is named [`lowercased`]; for a string
/// made of ASCII characters only, the Unicode lowercase mapping that the
/// standard library documents maps `A`..`Z` to `a`..`z` and leaves every other
/// character as it is, which the second clause states. Nothing more is stated
/// for other characters.
#[verifier::external_body]
pub(crate) fn to_lowercase(s: &str) -> (res: String)
    ensures
        res@ == lowercased(s@),
        res@ == lowercase_text(s@),
{
    s.to_lowercase()
}

/// Whether the two strings hold the same characters.
pub fn same_text(a: &str, b: &str) -> (res: bool)
    ensures
        res == (a@ == b@),
{
    let av = chars_of(a);
    let bv = chars_of(b);
    if av.len() != bv.len() {
        assert(av@.len() != bv@.len());
        return false;
    }
    let mut i: usize = 0;
    while i < av.len()
        invariant
            av@ == a@,
            bv@ == b@,
            av.len() == bv.len(),
            i <= av.len(),
            forall|k: int| 0 <= k < i ==> av@[k] == bv@[k],
        decreases av.len() - i,
    {
        if av[i] != bv[i] {
            assert(av@[i as int] != bv@[i as int]);
            return false;
        }
        i = i + 1;
    }
    assert(av@ =~= bv@);
    true
}

/// A copy of `s`.
pub fn copy_of(s: &str) -> (res: String)
    ensures
        res@ == s@,
{
    let v = chars_of(s);
    string_of(&v)
}

/// The concatenation of `a` and `b`.
pub fn concat(a: &str, b: &str) -> (res: String)
    ensures
        res@ == a@ + b@,
{
    let mut res = copy_of(a);
    res.append(b);
    res
}


/// Replacing a pattern that does not occur leaves the text as it is.
pub proof fn lemma_replace_absent_char(s: Seq<char>, c: char, rep: Seq<char>)
    requires
        !s.contains(c),
    ensures
        replaced(s, seq![c], rep) == s,
    decreases s.len(),
{
    if s.len() >= 1 {
        assert(s.take(1) =~= seq![s[0]]);
        assert(s[0] != c) by {
            assert(s.contains(s[0]));
        }
        assert(s.take(1)[0] != seq![c][0]);
        assert(s.take(1) != seq![c]);
        assert(!s.skip(1).contains(c)) by {
            if s.skip(1).contains(c) {
                let k = choose|k: int| 0 <= k < s.skip(1).len() && s.skip(1)[k] == c;
                assert(s[k + 1] == c);
            }
        }
        lemma_replace_absent_char(s.skip(1), c, rep);
        assert(seq![s[0]] + s.skip(1) =~= s);
    }
}

/// Splitting once at the first `sep` of `key + [sep] + rest`, where `key`
/// holds no `sep`, gives `key` and `rest`.
pub proof fn lemma_split_once_concat(key: Seq<char>, sep: char, rest: Seq<char>)
    requires
        !key.contains(sep),
    ensures
        split_once_at(key + seq![sep] + rest, sep) == Some((key, rest)),
{
    let s = key + seq![sep] + rest;
    assert forall|k: int| 0 <= k < key.len() implies s[k] != sep by {
        if s[k] == sep {
            assert(key[k] == sep);
        }
    }
    lemma_split_once_found(s, sep, key.len() as int);
    assert(s.take(key.len() as int) =~= key);
    assert(s.skip(key.len() as int + 1) =~= rest);
}


/// After replacing every `c` by a text free of `c`, no `c` is left; and a
/// character that occurs neither in the text nor in the replacement does not
/// occur in the result.
pub proof fn lemma_replace_char_removes(s: Seq<char>, c: char, rep: Seq<char>, d: char)
    requires
        !rep.contains(c),
        !rep.contains(d),
        d != c ==> !s.contains(d),
    ensures
        !replaced(s, seq![c], rep).contains(c),
        !replaced(s, seq![c], rep).contains(d),
    decreases s.len(),
{
    if s.len() >= 1 {
        assert(s.take(1) =~= seq![s[0]]);
        assert(d != c ==> !s.skip(1).contains(d)) by {
            if d != c && s.skip(1).contains(d) {
                let k = choose|k: int| 0 <= k < s.skip(1).len() && s.skip(1)[k] == d;
                assert(s[k + 1] == d);
            }
        }
        lemma_replace_char_removes(s.skip(1), c, rep, d);
        let tail = replaced(s.skip(1), seq![c], rep);
        if s[0] == c {
            assert(s.take(1) == seq![c]);
            assert(replaced(s, seq![c], rep) == rep + tail);
            assert forall|x: char| x == c || x == d implies !(rep + tail).contains(x) by {
                if (rep + tail).contains(x) {
                    let k = choose|k: int| 0 <= k < (rep + tail).len() && (rep + tail)[k] == x;
                    if k < rep.len() {
                        assert(rep[k] == x);
                    } else {
                        assert(tail[k - rep.len()] == x);
                    }
                }
            }
        } else {
            assert(s.take(1)[0] != seq![c][0]);
            assert(replaced(s, seq![c], rep) == seq![s[0]] + tail);
            assert(d != c ==> s[0] != d) by {
                if d != c {
                    assert(s.contains(s[0]));
                }
            }
            assert forall|x: char| x == c || x == d implies !(seq![s[0]] + tail).contains(x) by {
                if (seq![s[0]] + tail).contains(x) {
                    let k = choose|k: int| 0 <= k < (seq![s[0]] + tail).len() && (seq![s[0]] + tail)[k] == x;
                    if k > 0 {
                        assert(tail[k - 1] == x);
                    }
                }
            }
        }
    }
}


/// The strings joined with `sep` between consecutive ones (`[String]::join`
/// with a one-character separator).
pub fn join(parts: &Vec<String>, sep: char) -> (res: String)
    ensures
        res@ == joined(string_views(parts@), sep),
{
    let ghost views = string_views(parts@);
    if parts.len() == 0 {
        return String::new();
    }
    let mut out = copy_of(parts[0].as_str());
    let mut i: usize = 1;
    assert(views.take(1) =~= seq![views[0]]);
    while i < parts.len()
        invariant
            1 <= i <= parts.len(),
            views == string_views(parts@),
            out@ == joined(views.take(i as int), sep),
        decreases parts.len() - i,
    {
        push_char(&mut out, sep);
        out.append(parts[i].as_str());
        let ghost t = views.take(i + 1);
        assert(t.drop_last() =~= views.take(i as int));
        assert(t.last() == parts@[i as int]@);
        assert(out@ =~= joined(views.take(i as int), sep) + seq![sep] + parts@[i as int]@);
        i = i + 1;
    }
    assert(views.take(parts.len() as int) =~= views);
    out
}

} // verus!
