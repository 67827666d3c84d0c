//! The one error type shared by all decoders.

use vstd::prelude::*;

verus! {

/// Why a decode failed. Each decoder's contract says on which inputs each
/// variant is returned.
#[derive(Debug, Clone, Copy, PartialEq, Eq, Structural)]
pub enum FlvError {
    /// The buffer ends before a required field does.
    Truncated,
    /// A declared size is too small to hold the fixed part of the payload.
    TooShort,
    /// The file does not start with the bytes `F`, `L`, `V`.
    InvalidSignature,
    /// The frame-type nibble of a video payload is outside 1..=5.
    InvalidFrameType(u8),
    /// The codec-id nibble of a video payload is outside 1..=7.
    InvalidCodec(u8),
    /// The codec id names JPEG, which the format never uses.
    UnusedCodec,
    /// The packet type of an AVC packet is outside 0..=2.
    InvalidPacketType(u8),
    /// The tag's type code is none of audio (8), video (9), script (18).
    UnknownTagType(u8),
    /// The AMF0 value carries the "unsupported" marker (13).
    UnsupportedAMFType,
    /// The AMF0 type code is reserved (4, or above 13).
    ReservedAMFType(u8),
    /// A string payload is not valid UTF-8.
    Utf8Error,
    /// Script data does not begin with the string marker (2).
    InvalidTopLevelType,
    /// AMF0 values are nested deeper than the decoder follows.
    NestingTooDeep,
    /// The payload decoder stopped before the end that the tag declares.
    FramingError,
}

/// What a decoder that leaves a rest hands back, as a model: the value and
/// the bytes after it.
pub type Decoded<T> = Result<(T, Seq<u8>), FlvError>;

/// Lifts a decode result to the model of its value; the error is kept.
pub open spec fn view_result<T: View>(r: Result<T, FlvError>) -> Result<T::V, FlvError> {
    match r {
        Ok(t) => Ok(t@),
        Err(e) => Err(e),
    }
}

} // verus!
