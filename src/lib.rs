//! Parsing and rendering of SubRip (`.srt`) and WebVTT (`.vtt`) subtitles.
use vstd::prelude::*;

pub mod error;
pub mod general;
pub mod srt;
pub mod srt_parser;
pub mod srt_round_trip;
pub mod text;
pub mod vtt;
pub mod vtt_parser;
pub mod vtt_round_trip;

pub use error::ParseError;

verus! {

/// The result of parsing.
pub type ParseResult<T> = Result<T, ParseError>;

} // verus!
