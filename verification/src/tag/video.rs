//! Video payloads: the one-byte bitfield header, the payload wrapped by
//! codec, and the AVC packet carried when the codec is AVC.

use vstd::prelude::*;
use vstd::slice::slice_to_vec;
use crate::bytes::{
    lemma_signed_round_trip, lemma_u24_round_trip, signed24, spec_signed, spec_u24_be,
    spec_u24_be_bytes, spec_unsigned, u24_be,
};
use crate::error::{view_result, FlvError};

verus! {

/// Frame type, the high four bits of the video header byte.
#[derive(Debug, Clone, Copy, PartialEq, Eq, Structural)]
pub enum FrameType {
    /// 1: a seekable frame.
    Key,
    /// 2: a non-seekable frame.
    Inter,
    /// 3: disposable inter frame (H.263 only).
    DisposableInter,
    /// 4: generated key frame, for server use.
    Generated,
    /// 5: video info or command frame.
    Video,
}

/// Codec id, the low four bits of the video header byte.
#[derive(Debug, Clone, Copy, PartialEq, Eq, Structural)]
pub enum CodecID {
    /// 1: never used.
    JPEG,
    /// 2: Sorenson H.263.
    Sorenson,
    /// 3
    ScreenVideo,
    /// 4: On2 VP6.
    VP6,
    /// 5: On2 VP6 with alpha channel.
    VP6A,
    /// 6: screen video version 2.
    ScreenVideo2,
    /// 7
    AVC,
}

/// The frame type named by a four-bit code, if the code is legal.
pub open spec fn spec_frame_type(code: int) -> Option<FrameType> {
    if code == 1 {
        Some(FrameType::Key)
    } else if code == 2 {
        Some(FrameType::Inter)
    } else if code == 3 {
        Some(FrameType::DisposableInter)
    } else if code == 4 {
        Some(FrameType::Generated)
    } else if code == 5 {
        Some(FrameType::Video)
    } else {
        None
    }
}

/// The codec named by a four-bit code, if the code is legal.
pub open spec fn spec_codec_id(code: int) -> Option<CodecID> {
    if code == 1 {
        Some(CodecID::JPEG)
    } else if code == 2 {
        Some(CodecID::Sorenson)
    } else if code == 3 {
        Some(CodecID::ScreenVideo)
    } else if code == 4 {
        Some(CodecID::VP6)
    } else if code == 5 {
        Some(CodecID::VP6A)
    } else if code == 6 {
        Some(CodecID::ScreenVideo2)
    } else if code == 7 {
        Some(CodecID::AVC)
    } else {
        None
    }
}

/// What `video_header` returns on every byte: the frame type from bits 7..4
/// and the codec from bits 3..0; an illegal frame type is reported before an
/// illegal codec, each with its raw code.
pub open spec fn spec_video_header(b: u8) -> Result<(FrameType, CodecID), FlvError> {
    match spec_frame_type(b as int / 16) {
        None => Err(FlvError::InvalidFrameType((b / 16) as u8)),
        Some(frame) => match spec_codec_id(b as int % 16) {
            None => Err(FlvError::InvalidCodec((b % 16) as u8)),
            Some(codec) => Ok((frame, codec)),
        },
    }
}

/// Splits the video header byte into frame type and codec id.
pub fn video_header(b: u8) -> (r: Result<(FrameType, CodecID), FlvError>)
    ensures
        r == spec_video_header(b),
{
    let frame: u8 = (b >> 4) & 0b1111;
    let codecid: u8 = b & 0b1111;
    assert((b >> 4) & 0b1111 == b / 16) by (bit_vector);
    assert(b & 0b1111 == b % 16) by (bit_vector);
    let frame = match frame {
        1 => FrameType::Key,
        2 => FrameType::Inter,
        3 => FrameType::DisposableInter,
        4 => FrameType::Generated,
        5 => FrameType::Video,
        _ => return Err(FlvError::InvalidFrameType(frame)),
    };
    let codecid = match codecid {
        1 => CodecID::JPEG,
        2 => CodecID::Sorenson,
        3 => CodecID::ScreenVideo,
        4 => CodecID::VP6,
        5 => CodecID::VP6A,
        6 => CodecID::ScreenVideo2,
        7 => CodecID::AVC,
        _ => return Err(FlvError::InvalidCodec(codecid)),
    };
    Ok((frame, codecid))
}

/// The payload bytes of a video frame, wrapped by the codec that made them.
#[derive(Debug, PartialEq)]
pub enum VideoPacketData {
    H263VideoPacket(Vec<u8>),
    ScreenVideoPacket(Vec<u8>),
    VP6FLVVideoPacket(Vec<u8>),
    VP6FLVAlphaVideoPacket(Vec<u8>),
    ScreenV2VideoPacket(Vec<u8>),
    AVCVideoPacket(Vec<u8>),
}

/// What follows the video header byte.
#[derive(Debug, PartialEq)]
pub enum VideoDataByFrame {
    /// A frame's payload.
    VideoFramePayload(VideoPacketData),
    /// The command of a command frame: 0 starts a client-side seeking
    /// sequence, 1 ends it.
    U8(u8),
}

/// A decoded video payload.
#[derive(Debug, PartialEq)]
pub struct VideoData {
    pub frame_type: FrameType,
    pub codec_id: CodecID,
    pub video_data: VideoDataByFrame,
}

/// The model of what follows the video header byte: a frame's bytes (the
/// codec that wraps them is the payload's `codec_id`) or a command.
pub enum VideoBodyModel {
    Frame(Seq<u8>),
    Command(u8),
}

/// The model of a `VideoData`.
pub struct VideoDataModel {
    pub frame_type: FrameType,
    pub codec_id: CodecID,
    pub body: VideoBodyModel,
}

impl VideoPacketData {
    /// The codec whose variant this is.
    pub open spec fn codec(&self) -> CodecID {
        match self {
            VideoPacketData::H263VideoPacket(_) => CodecID::Sorenson,
            VideoPacketData::ScreenVideoPacket(_) => CodecID::ScreenVideo,
            VideoPacketData::VP6FLVVideoPacket(_) => CodecID::VP6,
            VideoPacketData::VP6FLVAlphaVideoPacket(_) => CodecID::VP6A,
            VideoPacketData::ScreenV2VideoPacket(_) => CodecID::ScreenVideo2,
            VideoPacketData::AVCVideoPacket(_) => CodecID::AVC,
        }
    }

    /// The bytes that the variant wraps.
    pub open spec fn bytes(&self) -> Seq<u8> {
        match self {
            VideoPacketData::H263VideoPacket(d) => d@,
            VideoPacketData::ScreenVideoPacket(d) => d@,
            VideoPacketData::VP6FLVVideoPacket(d) => d@,
            VideoPacketData::VP6FLVAlphaVideoPacket(d) => d@,
            VideoPacketData::ScreenV2VideoPacket(d) => d@,
            VideoPacketData::AVCVideoPacket(d) => d@,
        }
    }
}

impl VideoData {
    /// A frame's payload is wrapped by the variant of the payload's codec.
    pub open spec fn wf(&self) -> bool {
        match self.video_data {
            VideoDataByFrame::VideoFramePayload(p) => p.codec() == self.codec_id,
            VideoDataByFrame::U8(_) => true,
        }
    }
}

impl View for VideoData {
    type V = VideoDataModel;

    open spec fn view(&self) -> VideoDataModel {
        VideoDataModel {
            frame_type: self.frame_type,
            codec_id: self.codec_id,
            body: match self.video_data {
                VideoDataByFrame::VideoFramePayload(p) => VideoBodyModel::Frame(p.bytes()),
                VideoDataByFrame::U8(c) => VideoBodyModel::Command(c),
            },
        }
    }
}

/// What `video_data` returns on every input. In order: `Truncated` when the
/// buffer holds fewer than `size` bytes; `TooShort` when `size` is zero; the
/// header byte's own error; `UnusedCodec` for JPEG, whatever the frame type;
/// for a command frame the command byte (`TooShort` when `size` leaves no
/// room for it); else the `size - 1` bytes after the header byte.
pub open spec fn spec_video_data(bytes: Seq<u8>, size: int) -> Result<VideoDataModel, FlvError> {
    if bytes.len() < size {
        Err(FlvError::Truncated)
    } else if size < 1 {
        Err(FlvError::TooShort)
    } else {
        match spec_video_header(bytes[0]) {
            Err(e) => Err(e),
            Ok((frame_type, codec_id)) => if codec_id == CodecID::JPEG {
                Err(FlvError::UnusedCodec)
            } else if frame_type == FrameType::Video {
                if size < 2 {
                    Err(FlvError::TooShort)
                } else {
                    Ok(
                        VideoDataModel {
                            frame_type,
                            codec_id,
                            body: VideoBodyModel::Command(bytes[1]),
                        },
                    )
                }
            } else {
                Ok(
                    VideoDataModel {
                        frame_type,
                        codec_id,
                        body: VideoBodyModel::Frame(bytes.subrange(1, size)),
                    },
                )
            },
        }
    }
}

/// Wraps a frame's bytes in the variant of `codec_id`; JPEG has none.
pub fn wrap_payload(codec_id: CodecID, data: Vec<u8>) -> (r: Result<VideoPacketData, FlvError>)
    ensures
        codec_id == CodecID::JPEG <==> r.is_err(),
        r matches Err(e) ==> e == FlvError::UnusedCodec,
        r matches Ok(p) ==> p.codec() == codec_id && p.bytes() == data@,
{
    match codec_id {
        CodecID::JPEG => Err(FlvError::UnusedCodec),
        CodecID::Sorenson => Ok(VideoPacketData::H263VideoPacket(data)),
        CodecID::ScreenVideo => Ok(VideoPacketData::ScreenVideoPacket(data)),
        CodecID::VP6 => Ok(VideoPacketData::VP6FLVVideoPacket(data)),
        CodecID::VP6A => Ok(VideoPacketData::VP6FLVAlphaVideoPacket(data)),
        CodecID::ScreenVideo2 => Ok(VideoPacketData::ScreenV2VideoPacket(data)),
        CodecID::AVC => Ok(VideoPacketData::AVCVideoPacket(data)),
    }
}

/// Decodes a video payload of `size` bytes from the start of `input`.
pub fn video_data(input: &[u8], size: usize) -> (r: Result<VideoData, FlvError>)
    ensures
        view_result(r) == spec_video_data(input@, size as int),
        r matches Ok(v) ==> v.wf(),
{
    if input.len() < size {
        return Err(FlvError::Truncated);
    }
    if size < 1 {
        return Err(FlvError::TooShort);
    }
    let (frame_type, codec_id) = match video_header(input[0]) {
        Ok(h) => h,
        Err(e) => return Err(e),
    };
    let video_data = match frame_type {
        FrameType::Video => {
            match codec_id {
                CodecID::JPEG => return Err(FlvError::UnusedCodec),
                _ => {},
            }
            if size < 2 {
                return Err(FlvError::TooShort);
            }
            VideoDataByFrame::U8(input[1])
        },
        _ => {
            let data = slice_to_vec(&input[1..size]);
            match wrap_payload(codec_id, data) {
                Ok(p) => VideoDataByFrame::VideoFramePayload(p),
                Err(e) => return Err(e),
            }
        },
    };
    Ok(VideoData { frame_type, codec_id, video_data })
}

/// The kind of an AVC packet.
#[derive(Debug, Clone, Copy, PartialEq, Eq, Structural)]
pub enum AVCPacketType {
    /// 0: the data is a decoder configuration record.
    SequenceHeader,
    /// 1: the data is one or more NAL units.
    NALU,
    /// 2: end of sequence; the data is empty.
    EndOfSequence,
}

/// What `avc_packet_type` returns on every byte.
pub open spec fn spec_avc_packet_type(code: u8) -> Result<AVCPacketType, FlvError> {
    if code == 0 {
        Ok(AVCPacketType::SequenceHeader)
    } else if code == 1 {
        Ok(AVCPacketType::NALU)
    } else if code == 2 {
        Ok(AVCPacketType::EndOfSequence)
    } else {
        Err(FlvError::InvalidPacketType(code))
    }
}

/// The AVC packet type named by `input`.
pub fn avc_packet_type(input: u8) -> (r: Result<AVCPacketType, FlvError>)
    ensures
        r == spec_avc_packet_type(input),
{
    match input {
        0 => Ok(AVCPacketType::SequenceHeader),
        1 => Ok(AVCPacketType::NALU),
        2 => Ok(AVCPacketType::EndOfSequence),
        _ => Err(FlvError::InvalidPacketType(input)),
    }
}

/// An AVC packet: the payload of a video frame whose codec is AVC.
#[derive(Debug, PartialEq)]
pub struct AVCVideoPacket {
    pub avc_packet_type: AVCPacketType,
    /// Composition time offset, a signed 24-bit number on the wire.
    pub composition_time: i32,
    /// Configuration record, NAL units or nothing, by packet type.
    pub data: Vec<u8>,
}

/// The model of an `AVCVideoPacket`.
pub struct AVCVideoPacketModel {
    pub avc_packet_type: AVCPacketType,
    pub composition_time: int,
    pub data: Seq<u8>,
}

impl View for AVCVideoPacket {
    type V = AVCVideoPacketModel;

    open spec fn view(&self) -> AVCVideoPacketModel {
        AVCVideoPacketModel {
            avc_packet_type: self.avc_packet_type,
            composition_time: self.composition_time as int,
            data: self.data@,
        }
    }
}

/// What `avc_video_packet` returns on every input. In order: `Truncated` when
/// the buffer holds fewer than `size` bytes; `TooShort` when `size` is under
/// four; the packet type's error; else the packet type, the three bytes after
/// it as a signed big-endian number, and the `size - 4` bytes that follow.
pub open spec fn spec_avc_video_packet(bytes: Seq<u8>, size: int) -> Result<
    AVCVideoPacketModel,
    FlvError,
> {
    if bytes.len() < size {
        Err(FlvError::Truncated)
    } else if size < 4 {
        Err(FlvError::TooShort)
    } else {
        match spec_avc_packet_type(bytes[0]) {
            Err(e) => Err(e),
            Ok(t) => Ok(
                AVCVideoPacketModel {
                    avc_packet_type: t,
                    composition_time: spec_signed(spec_u24_be(bytes, 1), 0x80_0000),
                    data: bytes.subrange(4, size),
                },
            ),
        }
    }
}

/// Decodes an AVC packet of `size` bytes from the start of `input`.
pub fn avc_video_packet(input: &[u8], size: usize) -> (r: Result<AVCVideoPacket, FlvError>)
    ensures
        view_result(r) == spec_avc_video_packet(input@, size as int),
{
    if input.len() < size {
        return Err(FlvError::Truncated);
    }
    if size < 4 {
        return Err(FlvError::TooShort);
    }
    let avc_packet_type = match avc_packet_type(input[0]) {
        Ok(t) => t,
        Err(e) => return Err(e),
    };
    let composition_time: i32 = signed24(u24_be(input, 1));
    Ok(AVCVideoPacket { avc_packet_type, composition_time, data: slice_to_vec(&input[4..size]) })
}

/// JPEG is rejected as unused whatever the frame type: every payload whose
/// header byte holds a legal frame type and the codec id 1 is `UnusedCodec`.
pub proof fn lemma_jpeg_is_unused(bytes: Seq<u8>, size: int)
    requires
        1 <= size <= bytes.len(),
        1 <= bytes[0] / 16 <= 5,
        bytes[0] % 16 == 1,
    ensures
        spec_video_data(bytes, size) == Err::<VideoDataModel, FlvError>(FlvError::UnusedCodec),
{
}

/// A frame of any type but command, with a codec from 2 to 7, decodes to that
/// frame type, that codec and the bytes after the header byte.
pub proof fn lemma_frame_payload(bytes: Seq<u8>, size: int)
    requires
        1 <= size <= bytes.len(),
        1 <= bytes[0] / 16 <= 4,
        2 <= bytes[0] % 16 <= 7,
    ensures
        spec_video_data(bytes, size) == Ok::<VideoDataModel, FlvError>(
            VideoDataModel {
                frame_type: spec_frame_type(bytes[0] as int / 16).unwrap(),
                codec_id: spec_codec_id(bytes[0] as int % 16).unwrap(),
                body: VideoBodyModel::Frame(bytes.subrange(1, size)),
            },
        ),
{
}

/// The bytes of an AVC packet with packet type `code`, composition time
/// `time` and data `data`.
pub open spec fn spec_avc_packet_bytes(code: u8, time: int, data: Seq<u8>) -> Seq<u8> {
    seq![code] + spec_u24_be_bytes(spec_unsigned(time, 0x80_0000)) + data
}

/// An AVC packet that is written out and decoded comes back as it was: the
/// packet type, the composition time (negative ones too) and the data.
pub proof fn lemma_avc_round_trip(code: u8, time: int, data: Seq<u8>)
    requires
        code <= 2,
        -0x80_0000 <= time < 0x80_0000,
    ensures
        spec_avc_video_packet(
            spec_avc_packet_bytes(code, time, data),
            spec_avc_packet_bytes(code, time, data).len() as int,
        ) == Ok::<AVCVideoPacketModel, FlvError>(
            AVCVideoPacketModel {
                avc_packet_type: spec_avc_packet_type(code).unwrap(),
                composition_time: time,
                data,
            },
        ),
{
    let u = spec_unsigned(time, 0x80_0000);
    let bytes = spec_avc_packet_bytes(code, time, data);
    lemma_signed_round_trip(time, 0x80_0000);
    lemma_u24_round_trip(u, bytes, 1);
    assert(spec_u24_be(bytes, 1) == spec_u24_be(spec_u24_be_bytes(u), 0));
    assert(bytes.subrange(4, bytes.len() as int) =~= data);
}

} // verus!
