//! Cue parsing: one raw block becomes an identifier, a start and end time in
//! milliseconds, and the cue text, or a structured error naming the first
//! malformed piece.

use vstd::prelude::*;
use vstd::string::StringExecFns;
use crate::text::crlf;
use crate::text::lemma_find_sub_at;
use crate::text::matches_at;
use crate::text::spec_split_once;
use crate::text::split_once_str;
use crate::text::crlf_str;
use crate::timer::convert_timer_in_milliseconds;
use crate::timer::spec_convert_timer;

verus! {

/// The timing-line separator, a spaced arrow.
pub open spec fn arrow() -> Seq<char> {
    seq![' ', '-', '-', '>', ' ']
}

/// The string `" --> "`.
pub fn arrow_str() -> (r: &'static str)
    ensures
        r@ == arrow(),
{
    proof {
        reveal_strlit(" --> ");
        assert(" --> "@ =~= arrow());
    }
    " --> "
}

/// Why one raw block could not be parsed into a cue.
#[derive(Clone, Copy, Debug, PartialEq, Eq, Structural)]
pub enum CueError {
    /// The block has no line break at all, so no identifier line can be cut
    /// off: the block structure is too short.
    MissingIdLine,
    /// Nothing follows the timing line: the block structure lacks a text
    /// line.
    MissingTextLine,
    /// The timing line has no ` --> ` separator: the timing format is wrong.
    MissingArrow,
    /// A timestamp does not parse as `HH:MM:SS.mmm` with non-negative
    /// integer components.
    InvalidTimer,
}

/// The parsed form of one cue: identifier, start and end in milliseconds,
/// and the displayed text.
pub struct CueView {
    pub id: Seq<char>,
    pub start_ms: nat,
    pub end_ms: nat,
    pub text: Seq<char>,
}

/// What parsing one raw block yields. The block is cut at its first line
/// break into identifier and remainder, the remainder at its first line
/// break into timing line and text (the text keeps any further line breaks),
/// and the timing line at its first ` --> ` into the two timestamps.
pub open spec fn spec_extract_line_infos(block: Seq<char>) -> Result<CueView, CueError> {
    match spec_split_once(block, crlf()) {
        None => Err(CueError::MissingIdLine),
        Some((id, rest)) => match spec_split_once(rest, crlf()) {
            None => Err(CueError::MissingTextLine),
            Some((timing, text)) => match spec_split_once(timing, arrow()) {
                None => Err(CueError::MissingArrow),
                Some((a, b)) => match (spec_convert_timer(a), spec_convert_timer(b)) {
                    (Some(sv), Some(ev)) => Ok(
                        CueView { id, start_ms: sv, end_ms: ev, text },
                    ),
                    _ => Err(CueError::InvalidTimer),
                },
            },
        },
    }
}

/// Parse one raw block into `(id, start_ms, end_ms, text)`.
pub fn extract_line_infos<'a>(line: &'a str) -> (r: Result<(&'a str, u64, u64, &'a str), CueError>)
    ensures
        match r {
            Ok(c) => spec_extract_line_infos(line@) == Ok::<CueView, CueError>(
                CueView { id: c.0@, start_ms: c.1 as nat, end_ms: c.2 as nat, text: c.3@ },
            ),
            Err(e) => spec_extract_line_infos(line@) == Err::<CueView, CueError>(e),
        },
{
    let (id, rest) = match split_once_str(line, crlf_str()) {
        Some(p) => p,
        None => {
            return Err(CueError::MissingIdLine);
        },
    };
    let (timing, text) = match split_once_str(rest, crlf_str()) {
        Some(p) => p,
        None => {
            return Err(CueError::MissingTextLine);
        },
    };
    let (start, end) = match split_once_str(timing, arrow_str()) {
        Some(p) => p,
        None => {
            return Err(CueError::MissingArrow);
        },
    };
    let start_ms = match convert_timer_in_milliseconds(start) {
        Some(v) => v,
        None => {
            return Err(CueError::InvalidTimer);
        },
    };
    let end_ms = match convert_timer_in_milliseconds(end) {
        Some(v) => v,
        None => {
            return Err(CueError::InvalidTimer);
        },
    };
    Ok((id, start_ms, end_ms, text))
}

/// A cue that owns its fields, ready to be written out as one row.
#[derive(Clone, Debug)]
pub struct Cue {
    pub id: String,
    pub start_ms: u64,
    pub end_ms: u64,
    pub text: String,
}

impl View for Cue {
    type V = CueView;

    open spec fn view(&self) -> CueView {
        CueView {
            id: self.id@,
            start_ms: self.start_ms as nat,
            end_ms: self.end_ms as nat,
            text: self.text@,
        }
    }
}

impl CueError {
    /// The diagnostic text for this error, outermost cause first.
    pub open spec fn spec_message(self) -> Seq<char> {
        match self {
            CueError::MissingIdLine => "invalid line id format"@,
            CueError::MissingTextLine => "invalid line start-end format: cannot split by \\r\\n"@,
            CueError::MissingArrow => (
            "invalid line start-end format: cannot split by arrow (` --> `)")@,
            CueError::InvalidTimer => "invalid timer format"@,
        }
    }

    /// Render the diagnostic text for this error.
    pub fn message(&self) -> (r: String)
        ensures
            r@ == self.spec_message(),
    {
        match self {
            CueError::MissingIdLine => "invalid line id format".to_owned(),
            CueError::MissingTextLine => (
            "invalid line start-end format: cannot split by \\r\\n").to_owned(),
            CueError::MissingArrow => (
            "invalid line start-end format: cannot split by arrow (` --> `)").to_owned(),
            CueError::InvalidTimer => "invalid timer format".to_owned(),
        }
    }
}

/// A block built as identifier line, timing line, and text parses back into
/// exactly those pieces: in particular the text, line breaks and all, is
/// kept verbatim.
pub proof fn lemma_cue_text_preserved(
    id: Seq<char>,
    timing: Seq<char>,
    text: Seq<char>,
    a: Seq<char>,
    b: Seq<char>,
    sv: nat,
    ev: nat,
)
    requires
        forall|j: int| 0 <= j < id.len() ==> id[j] != '\r',
        forall|j: int| 0 <= j < timing.len() ==> timing[j] != '\r',
        spec_split_once(timing, arrow()) == Some((a, b)),
        spec_convert_timer(a) == Some(sv),
        spec_convert_timer(b) == Some(ev),
    ensures
        spec_extract_line_infos(id + crlf() + timing + crlf() + text) == Ok::<CueView, CueError>(
            CueView { id, start_ms: sv, end_ms: ev, text },
        ),
{
    let block = id + crlf() + timing + crlf() + text;
    assert(matches_at(block, crlf(), id.len() as int)) by {
        assert(block.subrange(id.len() as int, id.len() as int + 2) =~= crlf());
    }
    assert forall|j: int| 0 <= j < id.len() implies !matches_at(block, crlf(), j) by {
        if matches_at(block, crlf(), j) {
            assert(block.subrange(j, j + 2)[0] == block[j]);
        }
    }
    lemma_find_sub_at(block, crlf(), id.len() as int);
    assert(block.subrange(0, id.len() as int) =~= id);
    let rest = timing + crlf() + text;
    assert(block.subrange(id.len() as int + 2, block.len() as int) =~= rest);
    assert(matches_at(rest, crlf(), timing.len() as int)) by {
        assert(rest.subrange(timing.len() as int, timing.len() as int + 2) =~= crlf());
    }
    assert forall|j: int| 0 <= j < timing.len() implies !matches_at(rest, crlf(), j) by {
        if matches_at(rest, crlf(), j) {
            assert(rest.subrange(j, j + 2)[0] == rest[j]);
        }
    }
    lemma_find_sub_at(rest, crlf(), timing.len() as int);
    assert(rest.subrange(0, timing.len() as int) =~= timing);
    assert(rest.subrange(timing.len() as int + 2, rest.len() as int) =~= text);
}

} // verus!
