//! From SubRip text to SubRip text: the whole of a trimming run but for the
//! reading and writing of files.

use vstd::prelude::*;
use crate::codec::{numbers_short, parse, serialize, srt_decoded, srt_encoded, FormatError};
use crate::extract::{extract, extracted, request_in_range, request_valid, WindowRequest};
use crate::window::{block_views, broken_rule, first_broken, validate_blocks, InvalidWindowError};

verus! {

/// Why a run produced nothing.
#[derive(Clone, Copy, Debug, PartialEq, Eq, Structural)]
pub enum TrimError {
    /// The request holds a list of blocks that is not valid.
    InvalidWindow(InvalidWindowError),
    /// The text could not be read, or the result not be written.
    Format(FormatError),
}

/// Checks `request` as [`extract`] would, without a track.
pub fn validate_request(request: &WindowRequest) -> (r: Result<(), InvalidWindowError>)
    ensures
        r is Ok <==> request_valid(*request),
        r matches Err(e) ==> (request matches WindowRequest::Multiple(blocks) && first_broken(
            block_views(blocks@),
            e.index as int,
        ) && broken_rule(block_views(blocks@), e.index as int) == Some(e.rule)),
{
    match request {
        WindowRequest::Single(_) => Ok(()),
        WindowRequest::Multiple(blocks) => validate_blocks(blocks.as_slice()),
    }
}

/// Reads `text` as SubRip, extracts what `request` asks for, and writes the
/// result as SubRip.
///
/// The request is checked before anything is read, so a request that is not
/// valid is reported whatever the text holds. A run yields either the whole
/// output or an error, never a part of the output.
///
/// The request has to be in range, which [`crate::extract::in_range`] tells.
pub fn trim_srt(text: &str, request: &WindowRequest) -> (r: Result<Vec<u8>, TrimError>)
    requires
        request_in_range(*request),
    ensures
        !request_valid(*request) ==> ({
            &&& r matches Err(TrimError::InvalidWindow(e))
            &&& request matches WindowRequest::Multiple(blocks)
            &&& first_broken(block_views(blocks@), e.index as int)
            &&& broken_rule(block_views(blocks@), e.index as int) == Some(e.rule)
        }),
        request_valid(*request) && !numbers_short(text@) ==> r == Err::<Vec<u8>, TrimError>(
            TrimError::Format(FormatError::NumberTooLong),
        ),
        request_valid(*request) && numbers_short(text@) && srt_decoded(text@) is None ==> r
            == Err::<Vec<u8>, TrimError>(TrimError::Format(FormatError::Malformed)),
        request_valid(*request) && numbers_short(text@) && srt_decoded(text@) is Some ==> ({
            &&& r matches Ok(bytes)
            &&& bytes@ == srt_encoded(extracted(srt_decoded(text@).unwrap(), *request))
        }),
{
    match validate_request(request) {
        Err(e) => {
            return Err(TrimError::InvalidWindow(e));
        },
        Ok(()) => {},
    }
    let track = match parse(text) {
        Err(e) => {
            return Err(TrimError::Format(e));
        },
        Ok(track) => track,
    };
    let trimmed = match extract(&track, request) {
        Err(e) => {
            return Err(TrimError::InvalidWindow(e));
        },
        Ok(trimmed) => trimmed,
    };
    match serialize(&trimmed) {
        Err(e) => Err(TrimError::Format(e)),
        Ok(bytes) => Ok(bytes),
    }
}

} // verus!
