//! Reading and writing SubRip text.
//!
//! The format itself is the business of the `subparse` crate. This module
//! turns what that crate reads into the cues of this library and back, and
//! keeps away from it the texts on which it would not return.

use vstd::prelude::*;
use vstd::string::StringSliceAdditionalSpecFns;
use vstd::utf8::encode_utf8;
use crate::cue::{cue_views, source_views, Cue, CueView, SourceCue, SourceCueView};
use crate::time::{TimePoint, TimeSpan};

verus! {

/// Why a text could not be read as SubRip, or a track not be written as it.
#[derive(Clone, Copy, Debug, PartialEq, Eq, Structural)]
pub enum FormatError {
    /// The text holds a number of more than [`MAX_DIGITS`] digits.
    NumberTooLong,
    /// The text is not laid out as SubRip text is.
    Malformed,
    /// The track cannot be written as SubRip text.
    Unwritable,
}

/// The longest run of digits that a text to be read may hold.
///
/// A SubRip time is written as four numbers: hours, minutes, seconds and
/// milliseconds. Numbers of at most this many digits can be added up to a
/// count of milliseconds within an `i64`.
pub const MAX_DIGITS: usize = 12;

/// True if `b` is one of the bytes `0` to `9`.
pub open spec fn is_digit(b: u8) -> bool {
    0x30 <= b <= 0x39
}

/// The length of the run of digits in `bytes` that ends just before `end`.
pub open spec fn digit_run(bytes: Seq<u8>, end: int) -> nat
    decreases end,
{
    if end <= 0 || end > bytes.len() || !is_digit(bytes[end - 1]) {
        0
    } else {
        1 + digit_run(bytes, end - 1)
    }
}

/// True if no run of digits in `bytes` is longer than `limit`.
pub open spec fn digit_runs_within(bytes: Seq<u8>, limit: int) -> bool {
    forall|end: int| 0 <= end <= bytes.len() ==> #[trigger] digit_run(bytes, end) <= limit
}

/// True if no run of digits in `text`, written as UTF-8, is longer than
/// [`MAX_DIGITS`].
pub open spec fn numbers_short(text: Seq<char>) -> bool {
    digit_runs_within(encode_utf8(text), MAX_DIGITS as int)
}

/// The error type of `subparse`.
#[verifier::external_type_specification]
#[verifier::external_body]
pub struct ExCodecError(subparse::errors::Error);

/// The cues that `subparse` reads from a SubRip text, or `None` where it
/// refuses the text.
pub uninterp spec fn srt_decoded(text: Seq<char>) -> Option<Seq<SourceCueView>>;

/// The bytes that `subparse` writes for a track.
pub uninterp spec fn srt_encoded(cues: Seq<CueView>) -> Seq<u8>;

/// Calls `subparse::SrtFile::parse` on `text` and hands out the entries of
/// the file it returns, as `get_subtitle_entries` lists them, each entry as
/// a cue with the same times and text.
///
/// Claimed of these: whether the text is accepted, and the cues read from
/// it, depend on the text alone. Texts with a run of more than twelve digits
/// are kept out: on a number that is no `i64` the parser stops the program,
/// and the four numbers of a time are added up unchecked.
#[verifier::external_body]
fn decode(text: &str) -> (r: Result<Vec<SourceCue>, subparse::errors::Error>)
    requires
        numbers_short(text@),
    ensures
        r is Ok <==> srt_decoded(text@) is Some,
        r matches Ok(cues) ==> srt_decoded(text@) == Some(source_views(cues@)),
{
    let file = subparse::SrtFile::parse(text)?;
    let entries = subparse::SubtitleFileInterface::get_subtitle_entries(&file)?;
    Ok(
        entries.into_iter().map(
            |e| SourceCue {
                span: TimeSpan {
                    start: TimePoint { msecs: e.timespan.start.msecs() },
                    end: TimePoint { msecs: e.timespan.end.msecs() },
                },
                text: e.line,
            },
        ).collect(),
    )
}

/// Hands the cues, with their times and texts, to `subparse::SrtFile::create`
/// and calls `to_data` on the file it returns.
///
/// Claimed of these: both succeed on every track, and the bytes written
/// depend on the times and texts of the cues alone.
#[verifier::external_body]
fn encode(cues: &Vec<Cue>) -> (r: Result<Vec<u8>, subparse::errors::Error>)
    ensures
        r is Ok,
        r matches Ok(bytes) ==> bytes@ == srt_encoded(cue_views(cues@)),
{
    let lines = cues.iter().map(
        |c| (
            subparse::timetypes::TimeSpan::new(
                subparse::timetypes::TimePoint::from_msecs(c.span.start.msecs),
                subparse::timetypes::TimePoint::from_msecs(c.span.end.msecs),
            ),
            c.text.clone(),
        ),
    ).collect();
    let file = subparse::SrtFile::create(lines)?;
    subparse::SubtitleFileInterface::to_data(&file)
}

/// Tells whether every run of digits in `text` has at most [`MAX_DIGITS`]
/// digits.
pub fn has_short_numbers(text: &str) -> (b: bool)
    ensures
        b == numbers_short(text@),
{
    let bytes = text.as_bytes();
    let mut run: usize = 0;
    let mut i: usize = 0;
    while i < bytes.len()
        invariant
            i <= bytes@.len(),
            bytes@ == text.spec_bytes(),
            run == digit_run(bytes@, i as int),
            run <= MAX_DIGITS,
            forall|end: int| 0 <= end <= i ==> #[trigger] digit_run(bytes@, end) <= MAX_DIGITS,
        decreases bytes@.len() - i,
    {
        let b: u8 = bytes[i];
        if 0x30 <= b && b <= 0x39 {
            if run == MAX_DIGITS {
                assert(digit_run(bytes@, i + 1) == MAX_DIGITS + 1);
                return false;
            }
            run = run + 1;
        } else {
            run = 0;
        }
        i = i + 1;
    }
    true
}

/// Reads a SubRip text into a track.
///
/// A text with a run of more than [`MAX_DIGITS`] digits is refused as
/// [`FormatError::NumberTooLong`]. Any other text is handed to `subparse`:
/// the track is the one that it reads, and a text that it refuses is
/// [`FormatError::Malformed`].
pub fn parse(text: &str) -> (r: Result<Vec<SourceCue>, FormatError>)
    ensures
        !numbers_short(text@) ==> r == Err::<Vec<SourceCue>, FormatError>(
            FormatError::NumberTooLong,
        ),
        numbers_short(text@) && srt_decoded(text@) is None ==> r == Err::<
            Vec<SourceCue>,
            FormatError,
        >(FormatError::Malformed),
        numbers_short(text@) && srt_decoded(text@) is Some ==> (r matches Ok(cues) && Some(
            source_views(cues@),
        ) == srt_decoded(text@)),
{
    if !has_short_numbers(text) {
        return Err(FormatError::NumberTooLong);
    }
    match decode(text) {
        Ok(cues) => Ok(cues),
        Err(_) => Err(FormatError::Malformed),
    }
}

/// Writes a track as SubRip text, as `subparse` lays it out.
pub fn serialize(cues: &Vec<Cue>) -> (r: Result<Vec<u8>, FormatError>)
    ensures
        r matches Ok(bytes) && bytes@ == srt_encoded(cue_views(cues@)),
{
    match encode(cues) {
        Ok(bytes) => Ok(bytes),
        Err(_) => Err(FormatError::Unwritable),
    }
}

} // verus!
