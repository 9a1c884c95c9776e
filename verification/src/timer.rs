//! Timestamp conversion: a `HH:MM:SS.mmm` string becomes a single count of
//! milliseconds. Component magnitudes are not range-checked beyond fitting
//! in a `u64`, so `90` minutes is accepted arithmetically.

use vstd::prelude::*;
use crate::digits::digits_val;
use crate::digits::parse_u64_digits;
use crate::digits::parses_u64;
use crate::digits::is_digit;
use crate::text::lemma_find_single;
use crate::text::spec_split_once;
use crate::text::split_once_str;

verus! {

/// The millisecond count denoted by the four components of a timestamp.
pub open spec fn spec_timer_value(h: Seq<char>, m: Seq<char>, s: Seq<char>, ms: Seq<char>) -> nat {
    digits_val(h) * 3_600_000 + digits_val(m) * 60_000 + digits_val(s) * 1_000 + digits_val(ms)
}

/// What converting a timestamp string yields: the string is cut at the first
/// `:`, the next `:`, and the next `.`; each piece must be a non-empty run of
/// digits whose value fits in a `u64`, and so must the combined millisecond
/// count. Anything else yields `None`.
pub open spec fn spec_convert_timer(t: Seq<char>) -> Option<nat> {
    match spec_split_once(t, seq![':']) {
        None => None,
        Some((h, rest)) => match spec_split_once(rest, seq![':']) {
            None => None,
            Some((m, rest2)) => match spec_split_once(rest2, seq!['.']) {
                None => None,
                Some((s, ms)) => if parses_u64(h) && parses_u64(m) && parses_u64(s)
                    && parses_u64(ms) && spec_timer_value(h, m, s, ms) <= u64::MAX {
                    Some(spec_timer_value(h, m, s, ms))
                } else {
                    None
                },
            },
        },
    }
}

/// The string `":"`.
fn colon_str() -> (r: &'static str)
    ensures
        r@ == seq![':'],
{
    proof {
        reveal_strlit(":");
        assert(":"@ =~= seq![':']);
    }
    ":"
}

/// The string `"."`.
fn dot_str() -> (r: &'static str)
    ensures
        r@ == seq!['.'],
{
    proof {
        reveal_strlit(".");
        assert("."@ =~= seq!['.']);
    }
    "."
}

/// Convert a `HH:MM:SS.mmm` timestamp into milliseconds; `None` when the
/// string does not match the grammar, a component is not a non-negative
/// integer, or a value does not fit in a `u64`.
pub fn convert_timer_in_milliseconds(timer: &str) -> (r: Option<u64>)
    ensures
        match r {
            Some(v) => spec_convert_timer(timer@) == Some(v as nat),
            None => spec_convert_timer(timer@) is None,
        },
{
    let (h, rest) = match split_once_str(timer, colon_str()) {
        Some(p) => p,
        None => {
            return None;
        },
    };
    let (m, rest2) = match split_once_str(rest, colon_str()) {
        Some(p) => p,
        None => {
            return None;
        },
    };
    let (s, ms) = match split_once_str(rest2, dot_str()) {
        Some(p) => p,
        None => {
            return None;
        },
    };
    let hv = match parse_u64_digits(h) {
        Some(v) => v,
        None => {
            return None;
        },
    };
    let mv = match parse_u64_digits(m) {
        Some(v) => v,
        None => {
            return None;
        },
    };
    let sv = match parse_u64_digits(s) {
        Some(v) => v,
        None => {
            return None;
        },
    };
    let msv = match parse_u64_digits(ms) {
        Some(v) => v,
        None => {
            return None;
        },
    };
    let a = match hv.checked_mul(3_600_000) {
        Some(v) => v,
        None => {
            return None;
        },
    };
    let b = match mv.checked_mul(60_000) {
        Some(v) => v,
        None => {
            return None;
        },
    };
    let c = match sv.checked_mul(1_000) {
        Some(v) => v,
        None => {
            return None;
        },
    };
    let ab = match a.checked_add(b) {
        Some(v) => v,
        None => {
            return None;
        },
    };
    let abc = match ab.checked_add(c) {
        Some(v) => v,
        None => {
            return None;
        },
    };
    let total = match abc.checked_add(msv) {
        Some(v) => v,
        None => {
            return None;
        },
    };
    Some(total)
}

/// For any four digit runs whose combined millisecond count fits in a `u64`,
/// converting the timestamp `H:M:S.mmm` built from them yields exactly
/// `hours * 3_600_000 + minutes * 60_000 + seconds * 1_000 + milliseconds`.
pub proof fn lemma_timer_formula(h: Seq<char>, m: Seq<char>, s: Seq<char>, ms: Seq<char>)
    requires
        parses_u64(h),
        parses_u64(m),
        parses_u64(s),
        parses_u64(ms),
        spec_timer_value(h, m, s, ms) <= u64::MAX,
    ensures
        spec_convert_timer(h + seq![':'] + m + seq![':'] + s + seq!['.'] + ms) == Some(
            spec_timer_value(h, m, s, ms),
        ),
{
    let t = h + seq![':'] + m + seq![':'] + s + seq!['.'] + ms;
    assert forall|j: int| 0 <= j < h.len() implies t[j] != ':' by {
        assert(is_digit(h[j]));
    }
    lemma_find_single(t, ':', h.len() as int);
    assert(t.subrange(0, h.len() as int) =~= h);
    let rest = m + seq![':'] + s + seq!['.'] + ms;
    assert(t.subrange(h.len() as int + 1, t.len() as int) =~= rest);
    assert forall|j: int| 0 <= j < m.len() implies rest[j] != ':' by {
        assert(is_digit(m[j]));
    }
    lemma_find_single(rest, ':', m.len() as int);
    assert(rest.subrange(0, m.len() as int) =~= m);
    let rest2 = s + seq!['.'] + ms;
    assert(rest.subrange(m.len() as int + 1, rest.len() as int) =~= rest2);
    assert forall|j: int| 0 <= j < s.len() implies rest2[j] != '.' by {
        assert(is_digit(s[j]));
    }
    lemma_find_single(rest2, '.', s.len() as int);
    assert(rest2.subrange(0, s.len() as int) =~= s);
    assert(rest2.subrange(s.len() as int + 1, rest2.len() as int) =~= ms);
}

} // verus!
