//! The nine-byte file header.

use vstd::prelude::*;
use crate::bytes::{spec_u32_be, u32_be};
use crate::error::FlvError;

verus! {

/// Length of the file header in bytes.
pub const FLV_HEADER_SIZE: usize = 9;

/// The decoded file header.
#[derive(Debug, Clone, Copy, PartialEq, Eq, Structural)]
pub struct FLVHeader {
    /// File version (1 for FLV version 1).
    pub version: u8,
    /// Audio tags are present.
    pub audio: bool,
    /// Video tags are present.
    pub video: bool,
    /// Offset in bytes from the start of the file to the body.
    pub data_offset: u32,
}

/// The first three bytes are `F`, `L`, `V`.
pub open spec fn spec_has_signature(bytes: Seq<u8>) -> bool {
    bytes.len() >= 3 && bytes[0] == 0x46 && bytes[1] == 0x4c && bytes[2] == 0x56
}

/// What `flv_header` returns on every input: `Truncated` under nine bytes,
/// `InvalidSignature` without the signature, else the version, the two flags
/// (audio is bit 2 of the flags byte, video is bit 0; the other bits are not
/// read) and the offset of the body as a big-endian number.
pub open spec fn spec_flv_header(bytes: Seq<u8>) -> Result<FLVHeader, FlvError> {
    if bytes.len() < 9 {
        Err(FlvError::Truncated)
    } else if !spec_has_signature(bytes) {
        Err(FlvError::InvalidSignature)
    } else {
        Ok(
            FLVHeader {
                version: bytes[3],
                audio: (bytes[4] as int / 4) % 2 == 1,
                video: bytes[4] as int % 2 == 1,
                data_offset: spec_u32_be(bytes, 5) as u32,
            },
        )
    }
}

/// Decodes the file header from the first nine bytes of `input`.
pub fn flv_header(input: &[u8]) -> (r: Result<FLVHeader, FlvError>)
    ensures
        r == spec_flv_header(input@),
{
    if input.len() < FLV_HEADER_SIZE {
        return Err(FlvError::Truncated);
    }
    if input[0] == 0x46 && input[1] == 0x4c && input[2] == 0x56 {
        let flags: u8 = input[4];
        assert((flags & 0b100 == 4) == ((flags / 4) % 2 == 1)) by (bit_vector);
        assert((flags & 0b1 == 1) == (flags % 2 == 1)) by (bit_vector);
        Ok(
            FLVHeader {
                version: input[3],
                audio: flags & 0b100 == 4,
                video: flags & 0b1 == 1,
                data_offset: u32_be(input, 5),
            },
        )
    } else {
        Err(FlvError::InvalidSignature)
    }
}

/// A buffer of nine bytes or more whose first three bytes are not the
/// signature is `InvalidSignature`, whatever else it holds; a shorter one is
/// `Truncated`.
pub proof fn lemma_header_errors(bytes: Seq<u8>)
    ensures
        bytes.len() < 9 ==> spec_flv_header(bytes) == Err::<FLVHeader, FlvError>(
            FlvError::Truncated,
        ),
        bytes.len() >= 9 && (bytes[0] != 0x46 || bytes[1] != 0x4c || bytes[2] != 0x56)
            ==> spec_flv_header(bytes) == Err::<FLVHeader, FlvError>(FlvError::InvalidSignature),
        bytes.len() >= 9 && bytes[0] == 0x46 && bytes[1] == 0x4c && bytes[2] == 0x56
            ==> spec_flv_header(bytes) is Ok,
{
}

} // verus!
