//! A verified converter from WebVTT subtitle documents to tabular cue records.
//!
//! The library validates the `WEBVTT` header, splits the document into raw
//! cue blocks, parses each block into an identifier, a start and end time in
//! integer milliseconds, and the cue text, and reports structured errors with
//! positional context. Writing the records out as CSV is left to the caller.

pub mod cue;
pub mod digits;
pub mod document;
pub mod text;
pub mod timer;

pub use cue::extract_line_infos;
pub use cue::Cue;
pub use cue::CueError;
pub use document::convert_document;
pub use document::next_block;
pub use document::strip_header;
pub use document::VttError;
pub use text::is_blank_block;
pub use digits::decimal_string;
pub use digits::parse_u64_digits;
pub use timer::convert_timer_in_milliseconds;
pub use text::find_sub;
pub use text::is_blank;
pub use text::matches_at;
pub use text::spec_split_once;
