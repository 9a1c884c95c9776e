//! Substring search and splitting over character sequences, with exact
//! specifications: the raw material for the WebVTT block and line grammar.

use vstd::prelude::*;
use vstd::string::StrSliceExecFns;

verus! {

/// The pattern `pat` occurs in `s` starting at position `i`.
pub open spec fn matches_at(s: Seq<char>, pat: Seq<char>, i: int) -> bool {
    &&& 0 <= i
    &&& i + pat.len() <= s.len()
    &&& s.subrange(i, i + pat.len()) == pat
}

/// Position of the first occurrence of `pat` in `s`, if there is one.
pub open spec fn find_sub(s: Seq<char>, pat: Seq<char>) -> Option<nat>
    decreases s.len(),
{
    if pat.len() > s.len() {
        None
    } else if matches_at(s, pat, 0) {
        Some(0)
    } else if s.len() == 0 {
        None
    } else {
        match find_sub(s.subrange(1, s.len() as int), pat) {
            None => None,
            Some(i) => Some((i + 1) as nat),
        }
    }
}

/// An occurrence reported by `find_sub` lies inside `s`.
pub proof fn lemma_find_sub_bounds(s: Seq<char>, pat: Seq<char>)
    ensures
        find_sub(s, pat) matches Some(i) ==> i + pat.len() <= s.len(),
    decreases s.len(),
{
    if pat.len() > s.len() {
    } else if matches_at(s, pat, 0) {
    } else if s.len() == 0 {
    } else {
        lemma_find_sub_bounds(s.subrange(1, s.len() as int), pat);
    }
}

/// `find_sub` returns exactly the first occurrence of the pattern: `Some(i)`
/// means the pattern occurs at `i` and nowhere earlier, `None` that it does
/// not occur at all.
pub proof fn lemma_find_sub_first(s: Seq<char>, pat: Seq<char>)
    requires
        pat.len() >= 1,
    ensures
        match find_sub(s, pat) {
            Some(i) => matches_at(s, pat, i as int) && (forall|j: int|
                0 <= j < i ==> !matches_at(s, pat, j)),
            None => forall|j: int| !matches_at(s, pat, j),
        },
    decreases s.len(),
{
    if pat.len() > s.len() {
        assert forall|j: int| !matches_at(s, pat, j) by {}
    } else if matches_at(s, pat, 0) {
    } else {
        let t = s.subrange(1, s.len() as int);
        lemma_find_sub_first(t, pat);
        assert forall|j: int| 1 <= j && matches_at(s, pat, j) implies matches_at(
            t,
            pat,
            j - 1,
        ) by {
            assert(t.subrange(j - 1, j - 1 + pat.len() as int) =~= s.subrange(
                j,
                j + pat.len() as int,
            ));
        }
        assert forall|j: int| 0 <= j && matches_at(t, pat, j) implies matches_at(
            s,
            pat,
            j + 1,
        ) by {
            assert(s.subrange(j + 1, j + 1 + pat.len() as int) =~= t.subrange(
                j,
                j + pat.len() as int,
            ));
        }
        match find_sub(t, pat) {
            None => {
                assert forall|j: int| !matches_at(s, pat, j) by {
                    if 1 <= j && matches_at(s, pat, j) {
                        assert(matches_at(t, pat, j - 1));
                    }
                }
            },
            Some(i) => {
                assert(matches_at(s, pat, i as int + 1));
                assert forall|j: int| 0 <= j < i + 1 implies !matches_at(s, pat, j) by {
                    if 1 <= j && matches_at(s, pat, j) {
                        assert(matches_at(t, pat, j - 1));
                    }
                }
            },
        }
    }
}

/// A pattern that occurs at `k` and nowhere earlier is found at `k`.
pub proof fn lemma_find_sub_at(s: Seq<char>, pat: Seq<char>, k: int)
    requires
        pat.len() >= 1,
        matches_at(s, pat, k),
        forall|j: int| 0 <= j < k ==> !matches_at(s, pat, j),
    ensures
        find_sub(s, pat) == Some(k as nat),
{
    lemma_find_sub_first(s, pat);
    match find_sub(s, pat) {
        None => {
            assert(!matches_at(s, pat, k));
        },
        Some(i) => {
            if i < k {
                assert(!matches_at(s, pat, i as int));
            }
        },
    }
}

/// A character that occurs at `k` and nowhere earlier is found at `k`.
pub proof fn lemma_find_single(s: Seq<char>, c: char, k: int)
    requires
        0 <= k < s.len(),
        s[k] == c,
        forall|j: int| 0 <= j < k ==> s[j] != c,
    ensures
        find_sub(s, seq![c]) == Some(k as nat),
{
    assert(matches_at(s, seq![c], k)) by {
        assert(s.subrange(k, k + 1) =~= seq![c]);
    }
    assert forall|j: int| 0 <= j < k implies !matches_at(s, seq![c], j) by {
        if matches_at(s, seq![c], j) {
            assert(s.subrange(j, j + 1)[0] == s[j]);
        }
    }
    lemma_find_sub_at(s, seq![c], k);
}

/// What remains of `s` on either side of the first occurrence of `pat`:
/// the prefix before it and the suffix after it, or nothing when `pat`
/// does not occur.
pub open spec fn spec_split_once(s: Seq<char>, pat: Seq<char>) -> Option<(Seq<char>, Seq<char>)> {
    match find_sub(s, pat) {
        None => None,
        Some(i) => Some(
            (s.subrange(0, i as int), s.subrange(i as int + pat.len() as int, s.len() as int)),
        ),
    }
}

/// Whether `pat` occurs in `s` starting at character position `i`.
pub fn matches_at_exec(s: &str, pat: &str, i: usize) -> (r: bool)
    requires
        i + pat@.len() <= s@.len(),
    ensures
        r == matches_at(s@, pat@, i as int),
{
    let n = s.unicode_len();
    let m = pat.unicode_len();
    let mut j: usize = 0;
    while j < m
        invariant
            j <= m,
            n == s@.len(),
            m == pat@.len(),
            i + m <= n,
            forall|k: int| 0 <= k < j ==> s@[i + k] == pat@[k],
        decreases m - j,
    {
        if s.get_char(i + j) != pat.get_char(j) {
            assert(s@.subrange(i as int, i + m) != pat@) by {
                assert(s@.subrange(i as int, i + m)[j as int] == s@[i + j]);
            }
            return false;
        }
        j += 1;
    }
    assert(s@.subrange(i as int, i + m) =~= pat@);
    true
}

/// Character position of the first occurrence of `pat` in `s`, if any.
pub fn find_substring(s: &str, pat: &str) -> (r: Option<usize>)
    requires
        pat@.len() >= 1,
    ensures
        match r {
            Some(i) => find_sub(s@, pat@) == Some(i as nat),
            None => find_sub(s@, pat@) is None,
        },
{
    proof {
        lemma_find_sub_first(s@, pat@);
    }
    let n = s.unicode_len();
    let m = pat.unicode_len();
    if m > n {
        return None;
    }
    let mut i: usize = 0;
    while i <= n - m
        invariant
            m >= 1,
            m <= n,
            i <= n - m + 1,
            n == s@.len(),
            m == pat@.len(),
            forall|j: int| 0 <= j < i ==> !matches_at(s@, pat@, j),
        decreases n - i,
    {
        if matches_at_exec(s, pat, i) {
            proof {
                lemma_find_sub_at(s@, pat@, i as int);
            }
            return Some(i);
        }
        i += 1;
    }
    assert(forall|j: int| !matches_at(s@, pat@, j));
    None
}

/// Split `s` around the first occurrence of `pat`, as `str::split_once` does.
pub fn split_once_str<'a>(s: &'a str, pat: &str) -> (r: Option<(&'a str, &'a str)>)
    requires
        pat@.len() >= 1,
    ensures
        match r {
            Some(p) => spec_split_once(s@, pat@) == Some((p.0@, p.1@)),
            None => spec_split_once(s@, pat@) is None,
        },
{
    match find_substring(s, pat) {
        None => None,
        Some(i) => {
            proof {
                lemma_find_sub_bounds(s@, pat@);
            }
            let n = s.unicode_len();
            let m = pat.unicode_len();
            let head = s.substring_char(0, i);
            let tail = s.substring_char(i + m, n);
            Some((head, tail))
        },
    }
}

/// The line separator: carriage return, line feed.
pub open spec fn crlf() -> Seq<char> {
    seq!['\r', '\n']
}

/// The string `"\r\n"`.
pub fn crlf_str() -> (r: &'static str)
    ensures
        r@ == crlf(),
{
    proof {
        reveal_strlit("\r\n");
        assert("\r\n"@ =~= crlf());
    }
    "\r\n"
}

/// The block separator: a blank line between two line breaks.
pub open spec fn crlf2() -> Seq<char> {
    seq!['\r', '\n', '\r', '\n']
}

/// The string `"\r\n\r\n"`.
pub fn crlf2_str() -> (r: &'static str)
    ensures
        r@ == crlf2(),
{
    proof {
        reveal_strlit("\r\n\r\n");
        assert("\r\n\r\n"@ =~= crlf2());
    }
    "\r\n\r\n"
}

/// The characters removed by trimming: ASCII whitespace.
pub open spec fn is_space(c: char) -> bool {
    c == ' ' || c == '\t' || c == '\n' || c == '\r' || c == '\u{b}' || c == '\u{c}'
}

/// A segment is blank when every character in it is whitespace; a blank
/// segment marks the end of the cues.
pub open spec fn is_blank(s: Seq<char>) -> bool {
    forall|i: int| 0 <= i < s.len() ==> is_space(s[i])
}

/// Whether a raw block is blank, i.e. empty once trimmed.
pub fn is_blank_block(block: &str) -> (r: bool)
    ensures
        r == is_blank(block@),
{
    let n = block.unicode_len();
    let mut i: usize = 0;
    while i < n
        invariant
            i <= n,
            n == block@.len(),
            forall|k: int| 0 <= k < i ==> is_space(block@[k]),
        decreases n - i,
    {
        let c = block.get_char(i);
        if !(c == ' ' || c == '\t' || c == '\n' || c == '\r' || c == '\u{b}' || c == '\u{c}') {
            return false;
        }
        i += 1;
    }
    true
}

} // verus!
