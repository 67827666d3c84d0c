//! Audio payloads: the one-byte bitfield header and the opaque sample bytes.

use vstd::prelude::*;
use vstd::slice::slice_to_vec;
use crate::error::{view_result, FlvError};

verus! {

/// Sound format, the high four bits of the audio header byte.
#[derive(Debug, Clone, Copy, PartialEq, Eq, Structural)]
pub enum SoundFormat {
    /// Linear PCM, platform endian.
    LinearPCMPE,
    ADPCM,
    MP3,
    /// Linear PCM, little endian.
    LinearPCMLE,
    Nellymoser16KHZMono,
    Nellymoser8KHZMono,
    Nellymoser,
    AAC,
    Speex,
    Reserved,
    InternalUse,
    Invalid,
}

/// Sample-rate class, bits 3 and 2 of the audio header byte.
#[derive(Debug, Clone, Copy, PartialEq, Eq, Structural)]
pub enum SoundRate {
    _5_5KHZ,
    _11KHZ,
    _22KHZ,
    _44KHZ,
}

/// Sample size, bit 1 of the audio header byte.
#[derive(Debug, Clone, Copy, PartialEq, Eq, Structural)]
pub enum SoundSize {
    _8Bit,
    _16Bit,
}

/// Channel layout, bit 0 of the audio header byte.
#[derive(Debug, Clone, Copy, PartialEq, Eq, Structural)]
pub enum SoundType {
    Mono,
    Stereo,
}

/// The format named by a four-bit code.
pub open spec fn spec_sound_format(code: int) -> SoundFormat {
    if code == 0 {
        SoundFormat::LinearPCMPE
    } else if code == 1 {
        SoundFormat::ADPCM
    } else if code == 2 {
        SoundFormat::MP3
    } else if code == 3 {
        SoundFormat::LinearPCMLE
    } else if code == 4 {
        SoundFormat::Nellymoser16KHZMono
    } else if code == 5 {
        SoundFormat::Nellymoser8KHZMono
    } else if code == 6 {
        SoundFormat::Nellymoser
    } else if code == 10 {
        SoundFormat::AAC
    } else if code == 11 {
        SoundFormat::Speex
    } else if code == 7 || code == 8 || code == 14 || code == 15 {
        SoundFormat::InternalUse
    } else if code == 9 {
        SoundFormat::Reserved
    } else {
        SoundFormat::Invalid
    }
}

/// The rate class named by a two-bit code.
pub open spec fn spec_sound_rate(code: int) -> SoundRate {
    if code == 0 {
        SoundRate::_5_5KHZ
    } else if code == 1 {
        SoundRate::_11KHZ
    } else if code == 2 {
        SoundRate::_22KHZ
    } else {
        SoundRate::_44KHZ
    }
}

/// The four fields packed into the audio header byte `b`:
/// format in bits 7..4, rate in bits 3..2, size in bit 1, layout in bit 0.
pub open spec fn spec_audio_header(b: u8) -> (SoundFormat, SoundRate, SoundSize, SoundType) {
    (
        spec_sound_format(b as int / 16),
        spec_sound_rate((b as int / 4) % 4),
        if (b as int / 2) % 2 == 0 {
            SoundSize::_8Bit
        } else {
            SoundSize::_16Bit
        },
        if b as int % 2 == 0 {
            SoundType::Mono
        } else {
            SoundType::Stereo
        },
    )
}

/// Splits the audio header byte into its four fields.
pub fn audio_header(b: u8) -> (r: (SoundFormat, SoundRate, SoundSize, SoundType))
    ensures
        r == spec_audio_header(b),
{
    let format: u8 = (b >> 4) & 0b1111;
    let rate: u8 = (b >> 2) & 0b11;
    let size: u8 = (b >> 1) & 0b1;
    let layout: u8 = b & 0b1;
    assert((b >> 4) & 0b1111 == b / 16) by (bit_vector);
    assert((b >> 2) & 0b11 == (b / 4) % 4) by (bit_vector);
    assert((b >> 1) & 0b1 == (b / 2) % 2) by (bit_vector);
    assert(b & 0b1 == b % 2) by (bit_vector);
    let format = match format {
        0 => SoundFormat::LinearPCMPE,
        1 => SoundFormat::ADPCM,
        2 => SoundFormat::MP3,
        3 => SoundFormat::LinearPCMLE,
        4 => SoundFormat::Nellymoser16KHZMono,
        5 => SoundFormat::Nellymoser8KHZMono,
        6 => SoundFormat::Nellymoser,
        10 => SoundFormat::AAC,
        11 => SoundFormat::Speex,
        7 | 8 | 14 | 15 => SoundFormat::InternalUse,
        9 => SoundFormat::Reserved,
        _ => SoundFormat::Invalid,
    };
    let rate = match rate {
        0 => SoundRate::_5_5KHZ,
        1 => SoundRate::_11KHZ,
        2 => SoundRate::_22KHZ,
        _ => SoundRate::_44KHZ,
    };
    let size = match size {
        0 => SoundSize::_8Bit,
        _ => SoundSize::_16Bit,
    };
    let layout = match layout {
        0 => SoundType::Mono,
        _ => SoundType::Stereo,
    };
    (format, rate, size, layout)
}

/// A decoded audio payload.
#[derive(Debug, PartialEq)]
pub struct AudioData {
    pub sound_format: SoundFormat,
    pub sound_rate: SoundRate,
    pub sound_size: SoundSize,
    pub sound_type: SoundType,
    /// The sample bytes; their layout depends on the format.
    pub sound_data: Vec<u8>,
}

/// The model of an `AudioData`: the same fields, the samples as a sequence.
pub struct AudioDataModel {
    pub sound_format: SoundFormat,
    pub sound_rate: SoundRate,
    pub sound_size: SoundSize,
    pub sound_type: SoundType,
    pub sound_data: Seq<u8>,
}

impl View for AudioData {
    type V = AudioDataModel;

    open spec fn view(&self) -> AudioDataModel {
        AudioDataModel {
            sound_format: self.sound_format,
            sound_rate: self.sound_rate,
            sound_size: self.sound_size,
            sound_type: self.sound_type,
            sound_data: self.sound_data@,
        }
    }
}

/// What `audio_data` returns on every input: `Truncated` when the buffer
/// holds fewer than `size` bytes; `TooShort` when `size` leaves no room for
/// the header byte; else the header byte's fields and the `size - 1` bytes
/// after it.
pub open spec fn spec_audio_data(bytes: Seq<u8>, size: int) -> Result<AudioDataModel, FlvError> {
    if bytes.len() < size {
        Err(FlvError::Truncated)
    } else if size < 1 {
        Err(FlvError::TooShort)
    } else {
        let h = spec_audio_header(bytes[0]);
        Ok(
            AudioDataModel {
                sound_format: h.0,
                sound_rate: h.1,
                sound_size: h.2,
                sound_type: h.3,
                sound_data: bytes.subrange(1, size),
            },
        )
    }
}

/// Decodes an audio payload of `size` bytes from the start of `input`.
pub fn audio_data(input: &[u8], size: usize) -> (r: Result<AudioData, FlvError>)
    ensures
        view_result(r) == spec_audio_data(input@, size as int),
{
    if input.len() < size {
        return Err(FlvError::Truncated);
    }
    if size < 1 {
        return Err(FlvError::TooShort);
    }
    let (sound_format, sound_rate, sound_size, sound_type) = audio_header(input[0]);
    Ok(
        AudioData {
            sound_format,
            sound_rate,
            sound_size,
            sound_type,
            sound_data: slice_to_vec(&input[1..size]),
        },
    )
}

/// An AAC packet: the payload of an audio tag whose format is AAC.
#[derive(Debug, PartialEq)]
pub struct AACAudioData {
    /// 0: sequence header, 1: raw frame data.
    pub aac_packet_type: u8,
    /// The audio-specific configuration (type 0) or the frame data (type 1).
    pub data: Vec<u8>,
}

/// The model of an `AACAudioData`.
pub struct AACAudioModel {
    pub aac_packet_type: u8,
    pub data: Seq<u8>,
}

impl View for AACAudioData {
    type V = AACAudioModel;

    open spec fn view(&self) -> AACAudioModel {
        AACAudioModel { aac_packet_type: self.aac_packet_type, data: self.data@ }
    }
}

/// What `aac_audio_packet` returns on every input: `Truncated` when the
/// buffer holds fewer than `size` bytes; `TooShort` when `size` leaves no
/// room for the packet type; else the packet type and the `size - 1` bytes
/// after it.
pub open spec fn spec_aac_audio_packet(bytes: Seq<u8>, size: int) -> Result<
    AACAudioModel,
    FlvError,
> {
    if bytes.len() < size {
        Err(FlvError::Truncated)
    } else if size < 1 {
        Err(FlvError::TooShort)
    } else {
        Ok(AACAudioModel { aac_packet_type: bytes[0], data: bytes.subrange(1, size) })
    }
}

/// Decodes an AAC packet of `size` bytes from the start of `input`: one byte
/// of packet type, then opaque data.
pub fn aac_audio_packet(input: &[u8], size: usize) -> (r: Result<AACAudioData, FlvError>)
    ensures
        view_result(r) == spec_aac_audio_packet(input@, size as int),
{
    if input.len() < size {
        return Err(FlvError::Truncated);
    }
    if size < 1 {
        return Err(FlvError::TooShort);
    }
    let aac_packet_type: u8 = input[0];
    Ok(AACAudioData { aac_packet_type, data: slice_to_vec(&input[1..size]) })
}

} // verus!
