//! Tag framing: the eleven-byte tag header and the dispatch of the payload.

use vstd::prelude::*;
use crate::bytes::{spec_u24_be, tail, u24_be};
use crate::error::{view_result, Decoded, FlvError};
use crate::tag::amf0::{amf_data, spec_amf_data, AMFObject, AmfPair, AMF_MAX_DEPTH};
use crate::tag::audio::{audio_data, spec_audio_data, AudioData, AudioDataModel};
use crate::tag::video::{spec_video_data, video_data, VideoData, VideoDataModel};

pub mod amf0;
pub mod amf0_lemmas;
pub mod audio;
pub mod video;

verus! {

/// Length of a tag header in bytes.
pub const TAG_HEADER_SIZE: usize = 11;

/// Type code of an audio tag.
pub const TAG_TYPE_AUDIO: u8 = 8;

/// Type code of a video tag.
pub const TAG_TYPE_VIDEO: u8 = 9;

/// Type code of a script-data tag.
pub const TAG_TYPE_SCRIPT: u8 = 18;

/// Length in bytes of the field between two tags that holds the size of the
/// tag before it. The decoders leave it in the rest that they return.
pub const BACK_POINTER_SIZE: usize = 4;

/// The fixed-size header of a tag.
#[derive(Debug, Clone, Copy, PartialEq, Eq, Structural)]
pub struct TagHeader {
    /// 8: audio, 9: video, 18: script data; all others are reserved.
    pub tag_type: u8,
    /// Length of the payload in bytes.
    pub data_size: u32,
    /// Time in milliseconds at which the payload applies, relative to the
    /// first tag of the file.
    pub timestamp: u32,
    /// Always 0.
    pub stream_id: u32,
}

/// The payload of a tag, by the tag's type.
#[derive(Debug, PartialEq)]
pub enum TagData {
    Audio(AudioData),
    Video(VideoData),
    Script(AMFObject),
}

/// A tag: header and payload.
#[derive(Debug, PartialEq)]
pub struct Tag {
    pub header: TagHeader,
    pub data: TagData,
}

/// The model of a `TagData`.
pub enum TagDataModel {
    Audio(AudioDataModel),
    Video(VideoDataModel),
    Script(AmfPair),
}

/// The model of a `Tag`.
pub struct TagModel {
    pub header: TagHeader,
    pub data: TagDataModel,
}

impl View for TagData {
    type V = TagDataModel;

    open spec fn view(&self) -> TagDataModel {
        match self {
            TagData::Audio(a) => TagDataModel::Audio(a@),
            TagData::Video(v) => TagDataModel::Video(v@),
            TagData::Script(s) => TagDataModel::Script(s@),
        }
    }
}

impl View for Tag {
    type V = TagModel;

    open spec fn view(&self) -> TagModel {
        TagModel { header: self.header, data: self.data@ }
    }
}

impl Tag {
    /// A video payload is wrapped by the variant of its codec.
    pub open spec fn wf(&self) -> bool {
        match self.data {
            TagData::Video(v) => v.wf(),
            _ => true,
        }
    }
}

/// What `tag_header` returns on every input. The timestamp's fourth byte on
/// the wire is its most significant byte; the three before it follow in
/// big-endian order.
pub open spec fn spec_tag_header(bytes: Seq<u8>) -> Result<TagHeader, FlvError> {
    if bytes.len() < 11 {
        Err(FlvError::Truncated)
    } else {
        Ok(
            TagHeader {
                tag_type: bytes[0],
                data_size: spec_u24_be(bytes, 1) as u32,
                timestamp: (bytes[7] * 0x100_0000 + spec_u24_be(bytes, 4)) as u32,
                stream_id: spec_u24_be(bytes, 8) as u32,
            },
        )
    }
}

/// Decodes the tag header from the first eleven bytes of `input`.
pub fn tag_header(input: &[u8]) -> (r: Result<TagHeader, FlvError>)
    ensures
        r == spec_tag_header(input@),
{
    if input.len() < TAG_HEADER_SIZE {
        return Err(FlvError::Truncated);
    }
    let data_size: u32 = u24_be(input, 1);
    let low: u32 = u24_be(input, 4);
    let high: u32 = input[7] as u32;
    let timestamp: u32 = high * 0x100_0000 + low;
    let stream_id: u32 = u24_be(input, 8);
    Ok(TagHeader { tag_type: input[0], data_size, timestamp, stream_id })
}

/// The payload of a tag of type `tag_type`, decoded from exactly the bytes
/// `payload`: audio, video or script data by the type, `UnknownTagType` for
/// any other. Script data that ends before the payload does is a
/// `FramingError`.
pub open spec fn spec_tag_data(tag_type: u8, payload: Seq<u8>) -> Result<TagDataModel, FlvError> {
    if tag_type == TAG_TYPE_AUDIO {
        match spec_audio_data(payload, payload.len() as int) {
            Ok(a) => Ok(TagDataModel::Audio(a)),
            Err(e) => Err(e),
        }
    } else if tag_type == TAG_TYPE_VIDEO {
        match spec_video_data(payload, payload.len() as int) {
            Ok(v) => Ok(TagDataModel::Video(v)),
            Err(e) => Err(e),
        }
    } else if tag_type == TAG_TYPE_SCRIPT {
        match spec_amf_data(payload, AMF_MAX_DEPTH as nat) {
            Ok((pair, left)) => if left.len() == 0 {
                Ok(TagDataModel::Script(pair))
            } else {
                Err(FlvError::FramingError)
            },
            Err(e) => Err(e),
        }
    } else {
        Err(FlvError::UnknownTagType(tag_type))
    }
}

/// What `tag` returns on every input: the header; `Truncated` when fewer
/// bytes follow it than it declares; the payload decoded from exactly the
/// declared bytes; and as the rest all that follows them.
pub open spec fn spec_tag(bytes: Seq<u8>) -> Decoded<TagModel> {
    match spec_tag_header(bytes) {
        Err(e) => Err(e),
        Ok(header) => {
            let end = 11 + header.data_size;
            if bytes.len() < end {
                Err(FlvError::Truncated)
            } else {
                match spec_tag_data(header.tag_type, bytes.subrange(11, end)) {
                    Err(e) => Err(e),
                    Ok(data) => Ok((TagModel { header, data }, tail(bytes, end))),
                }
            }
        },
    }
}

/// Decodes the payload of a tag of type `tag_type` from the whole of
/// `payload`.
pub fn tag_data(tag_type: u8, payload: &[u8]) -> (r: Result<TagData, FlvError>)
    ensures
        view_result(r) == spec_tag_data(tag_type, payload@),
        r matches Ok(TagData::Video(v)) ==> v.wf(),
{
    match tag_type {
        TAG_TYPE_AUDIO => {
            match audio_data(payload, payload.len()) {
                Ok(data) => Ok(TagData::Audio(data)),
                Err(e) => Err(e),
            }
        },
        TAG_TYPE_VIDEO => {
            match video_data(payload, payload.len()) {
                Ok(data) => Ok(TagData::Video(data)),
                Err(e) => Err(e),
            }
        },
        TAG_TYPE_SCRIPT => {
            match amf_data(payload) {
                Ok((data, left)) => {
                    if left.len() == 0 {
                        Ok(TagData::Script(data))
                    } else {
                        Err(FlvError::FramingError)
                    }
                },
                Err(e) => Err(e),
            }
        },
        other => Err(FlvError::UnknownTagType(other)),
    }
}

/// Decodes the tag at the start of `input` and returns it with the bytes
/// that follow its payload. Those begin with the four bytes that hold the
/// tag's size, which the caller skips before the next tag.
pub fn tag<'a>(input: &'a [u8]) -> (r: Result<(Tag, &'a [u8]), FlvError>)
    ensures
        view_result(r) == spec_tag(input@),
        r matches Ok((t, _)) ==> t.wf(),
{
    let header = match tag_header(input) {
        Ok(h) => h,
        Err(e) => return Err(e),
    };
    let size: usize = header.data_size as usize;
    if input.len() - TAG_HEADER_SIZE < size {
        return Err(FlvError::Truncated);
    }
    let end: usize = TAG_HEADER_SIZE + size;
    let data = match tag_data(header.tag_type, &input[TAG_HEADER_SIZE..end]) {
        Ok(d) => d,
        Err(e) => return Err(e),
    };
    Ok((Tag { header, data }, &input[end..input.len()]))
}

} // verus!
