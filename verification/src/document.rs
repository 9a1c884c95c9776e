//! Document conversion: validate the `WEBVTT` header, walk the raw blocks in
//! order, and turn each into a cue, stopping cleanly at the first blank block
//! and aborting with a positioned error on the first malformed one.

use vstd::prelude::*;
use vstd::string::StringExecFns;
use vstd::string::StrSliceExecFns;
use crate::cue::spec_extract_line_infos;
use crate::cue::extract_line_infos;
use crate::cue::Cue;
use crate::cue::CueError;
use crate::cue::CueView;
use crate::digits::decimal_digits;
use crate::digits::decimal_string;
use crate::text::crlf2;
use crate::text::crlf2_str;
use crate::text::find_sub;
use crate::text::is_blank;
use crate::text::is_blank_block;
use crate::text::lemma_find_sub_bounds;
use crate::text::matches_at;
use crate::text::matches_at_exec;
use crate::text::spec_split_once;
use crate::text::split_once_str;

verus! {

/// The mandatory document prefix: the `WEBVTT` header line and the blank
/// line after it.
pub open spec fn header() -> Seq<char> {
    seq!['W', 'E', 'B', 'V', 'T', 'T', '\r', '\n', '\r', '\n']
}

/// The string `"WEBVTT\r\n\r\n"`.
pub fn header_str() -> (r: &'static str)
    ensures
        r@ == header(),
{
    proof {
        reveal_strlit("WEBVTT\r\n\r\n");
        assert("WEBVTT\r\n\r\n"@ =~= header());
    }
    "WEBVTT\r\n\r\n"
}

/// Why a document could not be converted.
#[derive(Clone, Debug)]
pub enum VttError {
    /// The document does not begin with the `WEBVTT` header and a blank
    /// line.
    Header,
    /// A raw block could not be parsed; carries the block's text and its
    /// zero-based position among the blocks.
    Cue { kind: CueError, block: String, index: usize },
}

/// The mathematical form of a document error.
pub enum VttErrorView {
    Header,
    Cue { kind: CueError, block: Seq<char>, index: nat },
}

impl View for VttError {
    type V = VttErrorView;

    open spec fn view(&self) -> VttErrorView {
        match self {
            VttError::Header => VttErrorView::Header,
            VttError::Cue { kind, block, index } => VttErrorView::Cue {
                kind: *kind,
                block: block@,
                index: *index as nat,
            },
        }
    }
}

/// Strip the mandatory header from the front of the document.
pub fn strip_header<'a>(doc: &'a str) -> (r: Result<&'a str, VttError>)
    ensures
        match r {
            Ok(content) => matches_at(doc@, header(), 0) && content@ == doc@.subrange(
                10,
                doc@.len() as int,
            ),
            Err(e) => !matches_at(doc@, header(), 0) && e == VttError::Header,
        },
{
    let n = doc.unicode_len();
    if n < 10 {
        return Err(VttError::Header);
    }
    if matches_at_exec(doc, header_str(), 0) {
        Ok(doc.substring_char(10, n))
    } else {
        Err(VttError::Header)
    }
}

/// Cut the next raw block off the front of the remaining content: the part
/// before the first blank-line separator, and what follows it, if anything.
pub fn next_block<'a>(content: &'a str) -> (r: (&'a str, Option<&'a str>))
    ensures
        match spec_split_once(content@, crlf2()) {
            Some(p) => r.0@ == p.0 && (r.1 matches Some(t) && t@ == p.1),
            None => r.0@ == content@ && r.1 is None,
        },
{
    match split_once_str(content, crlf2_str()) {
        Some((block, rest)) => (block, Some(rest)),
        None => (content, None),
    }
}

/// What the cues of the remaining content are, the next block carrying
/// position `index`. A blank block (or blank final segment) ends the cues;
/// anything after it is never reached. A malformed block aborts with its
/// text and position.
pub open spec fn spec_cues(s: Seq<char>, index: nat) -> Result<Seq<CueView>, VttErrorView>
    decreases s.len(),
    via spec_cues_decreases
{
    match spec_split_once(s, crlf2()) {
        None => if is_blank(s) {
            Ok(Seq::empty())
        } else {
            match spec_extract_line_infos(s) {
                Ok(c) => Ok(seq![c]),
                Err(k) => Err(VttErrorView::Cue { kind: k, block: s, index }),
            }
        },
        Some((block, rest)) => if is_blank(block) {
            Ok(Seq::empty())
        } else {
            match spec_extract_line_infos(block) {
                Err(k) => Err(VttErrorView::Cue { kind: k, block, index }),
                Ok(c) => match spec_cues(rest, index + 1) {
                    Ok(tail) => Ok(seq![c] + tail),
                    Err(e) => Err(e),
                },
            }
        },
    }
}

#[via_fn]
proof fn spec_cues_decreases(s: Seq<char>, index: nat) {
    lemma_find_sub_bounds(s, crlf2());
}

/// What converting a whole document yields: the header must be present, and
/// the remainder's blocks become cues in document order.
pub open spec fn spec_convert_document(s: Seq<char>) -> Result<Seq<CueView>, VttErrorView> {
    if matches_at(s, header(), 0) {
        spec_cues(s.subrange(10, s.len() as int), 0)
    } else {
        Err(VttErrorView::Header)
    }
}

/// Cues already produced, in front of whatever the rest of the content
/// yields.
pub open spec fn with_prefix(
    prefix: Seq<CueView>,
    r: Result<Seq<CueView>, VttErrorView>,
) -> Result<Seq<CueView>, VttErrorView> {
    match r {
        Ok(tail) => Ok(prefix + tail),
        Err(e) => Err(e),
    }
}

/// Convert a complete WebVTT document into its cues, in document order.
pub fn convert_document(doc: &str) -> (r: Result<Vec<Cue>, VttError>)
    ensures
        match r {
            Ok(cues) => spec_convert_document(doc@) == Ok::<Seq<CueView>, VttErrorView>(
                cues@.map_values(|c: Cue| c@),
            ),
            Err(e) => spec_convert_document(doc@) == Err::<Seq<CueView>, VttErrorView>(e@),
        },
{
    let content = match strip_header(doc) {
        Ok(c) => c,
        Err(e) => {
            return Err(e);
        },
    };
    let n = content.unicode_len();
    let mut cues: Vec<Cue> = Vec::new();
    let mut rest: &str = content;
    let mut index: usize = 0;
    proof {
        assert(cues@.map_values(|c: Cue| c@) =~= Seq::<CueView>::empty());
        match spec_cues(content@, 0nat) {
            Ok(tail) => {
                assert(Seq::<CueView>::empty() + tail =~= tail);
            },
            Err(_) => {},
        }
    }
    loop
        invariant
            n == content@.len(),
            4 * index + rest@.len() <= n,
            spec_convert_document(doc@) == with_prefix(
                cues@.map_values(|c: Cue| c@),
                spec_cues(rest@, index as nat),
            ),
        decreases rest@.len(),
    {
        let ghost prefix = cues@.map_values(|c: Cue| c@);
        let (block, tail) = next_block(rest);
        if is_blank_block(block) {
            proof {
                match spec_cues(rest@, index as nat) {
                    Ok(t) => {
                        assert(prefix + Seq::<CueView>::empty() =~= prefix);
                    },
                    Err(_) => {},
                }
            }
            return Ok(cues);
        }
        match extract_line_infos(block) {
            Err(k) => {
                let e = VttError::Cue { kind: k, block: block.to_owned(), index };
                return Err(e);
            },
            Ok((id, start_ms, end_ms, text)) => {
                let cue = Cue {
                    id: id.to_owned(),
                    start_ms,
                    end_ms,
                    text: text.to_owned(),
                };
                let ghost cv = cue@;
                match tail {
                    None => {
                        cues.push(cue);
                        proof {
                            assert(cues@.map_values(|c: Cue| c@) =~= prefix.push(cv));
                            assert(prefix + seq![cv] =~= prefix.push(cv));
                        }
                        return Ok(cues);
                    },
                    Some(t) => {
                        proof {
                            lemma_find_sub_bounds(rest@, crlf2());
                            match spec_cues(t@, index as nat + 1) {
                                Ok(t2) => {
                                    assert(prefix + (seq![cv] + t2) =~= prefix.push(cv) + t2);
                                },
                                Err(_) => {},
                            }
                        }
                        cues.push(cue);
                        proof {
                            assert(cues@.map_values(|c: Cue| c@) =~= prefix.push(cv));
                        }
                        rest = t;
                        index += 1;
                    },
                }
            },
        }
    }
}

/// A blank segment yields no cues and no error: iteration stops cleanly, so
/// a trailing blank segment after the last real cue is harmless.
pub proof fn lemma_blank_block_stops(s: Seq<char>, index: nat)
    requires
        is_blank(s),
    ensures
        spec_cues(s, index) == Ok::<Seq<CueView>, VttErrorView>(Seq::empty()),
{
    lemma_find_sub_bounds(s, crlf2());
    match spec_split_once(s, crlf2()) {
        None => {},
        Some(p) => {
            assert(is_blank(p.0)) by {
                match find_sub(s, crlf2()) {
                    Some(i) => {
                        assert(forall|j: int| 0 <= j < p.0.len() ==> p.0[j] == s[j]);
                    },
                    None => {},
                }
            }
        },
    }
}

/// The conversion is a pure function of the document text: two documents
/// with equal contents convert to equal outcomes, so running the conversion
/// twice can never differ.
pub proof fn lemma_conversion_deterministic(a: Seq<char>, b: Seq<char>)
    requires
        a == b,
    ensures
        spec_convert_document(a) == spec_convert_document(b),
{
}

impl VttError {
    /// The diagnostic text for this error: the full causal chain, outermost
    /// context first, with the offending block and its position.
    pub open spec fn spec_message(self) -> Seq<char> {
        match self {
            VttError::Header => "this is not a valid WEBVTT file"@,
            VttError::Cue { kind, block, index } => "an error occurred on the line `"@ + block@
                + "` around line "@ + decimal_digits(index as nat) + ": "@ + kind.spec_message(),
        }
    }

    /// Render the diagnostic text for this error.
    pub fn message(&self) -> (r: String)
        ensures
            r@ == self.spec_message(),
    {
        match self {
            VttError::Header => "this is not a valid WEBVTT file".to_owned(),
            VttError::Cue { kind, block, index } => {
                let mut s = "an error occurred on the line `".to_owned();
                s.append(block.as_str());
                s.append("` around line ");
                let num = decimal_string(*index as u64);
                s.append(num.as_str());
                s.append(": ");
                let km = kind.message();
                s.append(km.as_str());
                s
            },
        }
    }
}

} // verus!
