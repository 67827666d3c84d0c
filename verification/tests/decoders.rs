use flv_decode::error::FlvError;
use flv_decode::header::{flv_header, FLVHeader};
use flv_decode::stream::{flv_file, tags};
use flv_decode::tag::amf0::{
    amf_data, amf_data_value, amf_date, amf_ecma_array, amf_long_string, amf_object, amf_objects,
    amf_strict_array, amf_string, amf_value_within, AMFData, AMFDate, AMFObject,
};
use flv_decode::tag::audio::{
    aac_audio_packet, audio_data, audio_header, AACAudioData, SoundFormat, SoundRate, SoundSize,
    SoundType,
};
use flv_decode::tag::video::{
    avc_packet_type, avc_video_packet, video_data, video_header, wrap_payload, AVCPacketType,
    AVCVideoPacket, CodecID, FrameType, VideoData, VideoDataByFrame, VideoPacketData,
};
use flv_decode::tag::{tag, tag_data, tag_header, TagData, TagHeader};

fn tag_bytes(tag_type: u8, timestamp: u32, payload: &[u8]) -> Vec<u8> {
    let size = (payload.len() as u32).to_be_bytes();
    let ts = timestamp.to_be_bytes();
    let mut out = vec![tag_type, size[1], size[2], size[3], ts[1], ts[2], ts[3], ts[0], 0, 0, 0];
    out.extend_from_slice(payload);
    out
}

fn name(s: &str) -> Vec<u8> {
    let mut out = (s.len() as u16).to_be_bytes().to_vec();
    out.extend_from_slice(s.as_bytes());
    out
}

fn number_value(value: f64) -> Vec<u8> {
    let mut out = vec![0];
    out.extend_from_slice(&value.to_be_bytes());
    out
}

fn script_payload() -> Vec<u8> {
    let mut out = vec![2];
    out.extend_from_slice(&name("onMetaData"));
    out.push(8);
    out.extend_from_slice(&1u32.to_be_bytes());
    out.extend_from_slice(&name("duration"));
    out.extend_from_slice(&number_value(1.5));
    out.extend_from_slice(&[0, 0, 9]);
    out
}

fn three_tag_file() -> Vec<u8> {
    let mut out = vec![0x46, 0x4c, 0x56, 0x01, 0x05, 0x00, 0x00, 0x00, 0x09];
    out.extend_from_slice(&0u32.to_be_bytes());
    let parts = [
        tag_bytes(18, 0, &script_payload()),
        tag_bytes(9, 40, &[0x12, 1, 2, 3, 4]),
        tag_bytes(8, 0x0102_0304, &[0x1a, 9, 8, 7]),
    ];
    for part in parts.iter() {
        out.extend_from_slice(part);
        out.extend_from_slice(&(part.len() as u32).to_be_bytes());
    }
    out
}

#[test]
fn walking_a_file_recovers_every_tag() {
    let file = three_tag_file();
    let header = flv_header(&file).unwrap();
    let mut cursor = &file[header.data_offset as usize + 4..];
    let mut seen = Vec::new();
    while !cursor.is_empty() {
        let (t, rest) = tag(cursor).unwrap();
        let size = u32::from_be_bytes([rest[0], rest[1], rest[2], rest[3]]);
        assert_eq!(size, 11 + t.header.data_size);
        seen.push((t.header.tag_type, t.header.data_size, t.header.timestamp));
        cursor = &rest[4..];
    }
    assert_eq!(
        seen,
        vec![(18, script_payload().len() as u32, 0), (9, 5, 40), (8, 4, 0x0102_0304)]
    );
}

#[test]
fn whole_file_decodes_to_header_and_tags() {
    let file = three_tag_file();
    let (header, found) = flv_file(&file).unwrap();
    assert_eq!(header, FLVHeader { version: 1, audio: true, video: true, data_offset: 9 });
    assert_eq!(found.len(), 3);
    assert_eq!(found[0].header.tag_type, 18);
    assert_eq!(found[1].header, TagHeader { tag_type: 9, data_size: 5, timestamp: 40, stream_id: 0 });
    assert_eq!(
        found[1].data,
        TagData::Video(VideoData {
            frame_type: FrameType::Key,
            codec_id: CodecID::Sorenson,
            video_data: VideoDataByFrame::VideoFramePayload(VideoPacketData::H263VideoPacket(
                vec![1, 2, 3, 4]
            )),
        })
    );
    assert_eq!(found[2].header.data_size, 4);
    assert_eq!(tags(&file[9..]).unwrap(), found);
}

#[test]
fn file_without_tags_is_empty() {
    let file = vec![0x46, 0x4c, 0x56, 1, 0, 0, 0, 0, 9, 0, 0, 0, 0];
    assert_eq!(flv_file(&file), Ok((FLVHeader { version: 1, audio: false, video: false, data_offset: 9 }, vec![])));
}

#[test]
fn file_cut_short_is_truncated() {
    let file = three_tag_file();
    assert_eq!(flv_file(&file[..file.len() - 1]), Err(FlvError::Truncated));
    assert_eq!(flv_file(&file[..9]), Err(FlvError::Truncated));
    assert_eq!(flv_file(&file[..20]), Err(FlvError::Truncated));
    assert_eq!(tags(&[]), Err(FlvError::Truncated));
}

#[test]
fn file_with_offset_beyond_end_is_truncated() {
    let file = vec![0x46, 0x4c, 0x56, 1, 5, 0, 0, 0, 200, 0, 0, 0, 0];
    assert_eq!(flv_file(&file), Err(FlvError::Truncated));
}

#[test]
fn file_header_offset_is_followed() {
    let mut file = vec![0x46, 0x4c, 0x56, 1, 1, 0, 0, 0, 11, 0xaa, 0xbb];
    file.extend_from_slice(&[0, 0, 0, 0]);
    let t = tag_bytes(9, 0, &[0x23, 7]);
    file.extend_from_slice(&t);
    file.extend_from_slice(&(t.len() as u32).to_be_bytes());
    let (header, found) = flv_file(&file).unwrap();
    assert_eq!(header.data_offset, 11);
    assert!(!header.audio);
    assert!(header.video);
    assert_eq!(found.len(), 1);
    assert_eq!(found[0].header.data_size, 2);
}

#[test]
fn header_bytes_decode() {
    let bytes = [0x46, 0x4c, 0x56, 0x01, 0x05, 0x00, 0x00, 0x00, 0x09];
    assert_eq!(
        flv_header(&bytes),
        Ok(FLVHeader { version: 1, audio: true, video: true, data_offset: 9 })
    );
}

#[test]
fn header_with_altered_signature_is_rejected() {
    for at in 0..3 {
        let mut bytes = [0x46, 0x4c, 0x56, 0x01, 0x05, 0x00, 0x00, 0x00, 0x09];
        bytes[at] ^= 0x20;
        assert_eq!(flv_header(&bytes), Err(FlvError::InvalidSignature));
    }
}

#[test]
fn header_of_eight_bytes_is_truncated() {
    assert_eq!(
        flv_header(&[0x46, 0x4c, 0x56, 0x01, 0x05, 0x00, 0x00, 0x00]),
        Err(FlvError::Truncated)
    );
    assert_eq!(flv_header(&[]), Err(FlvError::Truncated));
}

#[test]
fn header_flags_and_offset() {
    let h = flv_header(&[0x46, 0x4c, 0x56, 3, 0xfa, 0x01, 0x02, 0x03, 0x04, 0xff]).unwrap();
    assert_eq!(h, FLVHeader { version: 3, audio: false, video: false, data_offset: 0x0102_0304 });
    let h = flv_header(&[0x46, 0x4c, 0x56, 1, 0x04, 0, 0, 0, 9]).unwrap();
    assert!(h.audio && !h.video);
}

#[test]
fn tag_header_bytes_decode() {
    assert_eq!(
        tag_header(&[0x09, 0x00, 0x02, 0x19, 0x00, 0x00, 0x00, 0x00, 0x00, 0x00, 0x00]),
        Ok(TagHeader { tag_type: 9, data_size: 537, timestamp: 0, stream_id: 0 })
    );
}

#[test]
fn tag_header_timestamp_extension_is_most_significant() {
    assert_eq!(
        tag_header(&[0x08, 0xff, 0xff, 0xff, 0x01, 0x02, 0x03, 0x04, 0x0a, 0x0b, 0x0c]),
        Ok(TagHeader {
            tag_type: 8,
            data_size: 0x00ff_ffff,
            timestamp: 0x0401_0203,
            stream_id: 0x000a_0b0c,
        })
    );
}

#[test]
fn tag_header_of_ten_bytes_is_truncated() {
    assert_eq!(tag_header(&[9, 0, 0, 0, 0, 0, 0, 0, 0, 0]), Err(FlvError::Truncated));
}

#[test]
fn tag_leaves_back_pointer_in_rest() {
    let mut bytes = tag_bytes(8, 7, &[0xaf, 1, 2]);
    bytes.extend_from_slice(&[0, 0, 0, 14, 0x55]);
    let (t, rest) = tag(&bytes).unwrap();
    assert_eq!(t.header, TagHeader { tag_type: 8, data_size: 3, timestamp: 7, stream_id: 0 });
    assert_eq!(rest, &[0, 0, 0, 14, 0x55][..]);
    match t.data {
        TagData::Audio(a) => {
            assert_eq!(a.sound_format, SoundFormat::AAC);
            assert_eq!(a.sound_rate, SoundRate::_44KHZ);
            assert_eq!(a.sound_size, SoundSize::_16Bit);
            assert_eq!(a.sound_type, SoundType::Stereo);
            assert_eq!(a.sound_data, vec![1, 2]);
        },
        other => panic!("not audio: {:?}", other),
    }
}

#[test]
fn tag_of_unknown_type_is_rejected() {
    let bytes = tag_bytes(10, 0, &[0x12, 1]);
    assert_eq!(tag(&bytes), Err(FlvError::UnknownTagType(10)));
    assert_eq!(tag_data(0, &[0x12, 1]), Err(FlvError::UnknownTagType(0)));
}

#[test]
fn tag_shorter_than_declared_is_truncated() {
    let bytes = tag_bytes(9, 0, &[0x12, 1, 2, 3]);
    assert_eq!(tag(&bytes[..bytes.len() - 1]), Err(FlvError::Truncated));
    assert_eq!(tag(&bytes[..5]), Err(FlvError::Truncated));
}

#[test]
fn tag_with_empty_payload_is_too_short() {
    assert_eq!(tag(&tag_bytes(9, 0, &[])), Err(FlvError::TooShort));
    assert_eq!(tag(&tag_bytes(8, 0, &[])), Err(FlvError::TooShort));
    assert_eq!(tag(&tag_bytes(18, 0, &[])), Err(FlvError::Truncated));
}

#[test]
fn script_tag_payload_bounds_the_decoder() {
    let body = script_payload();
    let mut bytes = tag_bytes(18, 0, &body[..body.len() - 3]);
    bytes.extend_from_slice(&[0, 0, 9]);
    assert_eq!(tag(&bytes), Err(FlvError::Truncated));
}

#[test]
fn audio_header_fields() {
    assert_eq!(
        audio_header(0x00),
        (SoundFormat::LinearPCMPE, SoundRate::_5_5KHZ, SoundSize::_8Bit, SoundType::Mono)
    );
    assert_eq!(
        audio_header(0x1a),
        (SoundFormat::ADPCM, SoundRate::_22KHZ, SoundSize::_16Bit, SoundType::Mono)
    );
    assert_eq!(
        audio_header(0x25),
        (SoundFormat::MP3, SoundRate::_11KHZ, SoundSize::_8Bit, SoundType::Stereo)
    );
    assert_eq!(
        audio_header(0xaf),
        (SoundFormat::AAC, SoundRate::_44KHZ, SoundSize::_16Bit, SoundType::Stereo)
    );
}

#[test]
fn audio_header_every_format() {
    let expected = [
        SoundFormat::LinearPCMPE,
        SoundFormat::ADPCM,
        SoundFormat::MP3,
        SoundFormat::LinearPCMLE,
        SoundFormat::Nellymoser16KHZMono,
        SoundFormat::Nellymoser8KHZMono,
        SoundFormat::Nellymoser,
        SoundFormat::InternalUse,
        SoundFormat::InternalUse,
        SoundFormat::Reserved,
        SoundFormat::AAC,
        SoundFormat::Speex,
        SoundFormat::Invalid,
        SoundFormat::Invalid,
        SoundFormat::InternalUse,
        SoundFormat::InternalUse,
    ];
    for code in 0..16u8 {
        assert_eq!(audio_header(code << 4).0, expected[code as usize]);
    }
}

#[test]
fn audio_data_errors() {
    assert_eq!(audio_data(&[0x1a, 1, 2], 4), Err(FlvError::Truncated));
    assert_eq!(audio_data(&[0x1a, 1, 2], 0), Err(FlvError::TooShort));
    assert_eq!(audio_data(&[], 0), Err(FlvError::TooShort));
}

#[test]
fn audio_data_takes_declared_size_only() {
    let a = audio_data(&[0x1a, 1, 2, 3, 4], 3).unwrap();
    assert_eq!(a.sound_data, vec![1, 2]);
    let a = audio_data(&[0x1a], 1).unwrap();
    assert_eq!(a.sound_data, Vec::<u8>::new());
}

#[test]
fn aac_packet() {
    assert_eq!(
        aac_audio_packet(&[0, 0x12, 0x10, 9], 3),
        Ok(AACAudioData { aac_packet_type: 0, data: vec![0x12, 0x10] })
    );
    assert_eq!(
        aac_audio_packet(&[1, 5], 2),
        Ok(AACAudioData { aac_packet_type: 1, data: vec![5] })
    );
    assert_eq!(aac_audio_packet(&[1, 5], 3), Err(FlvError::Truncated));
    assert_eq!(aac_audio_packet(&[1, 5], 0), Err(FlvError::TooShort));
}

#[test]
fn video_header_fields() {
    assert_eq!(video_header(0x12), Ok((FrameType::Key, CodecID::Sorenson)));
    assert_eq!(video_header(0x27), Ok((FrameType::Inter, CodecID::AVC)));
    assert_eq!(video_header(0x31), Ok((FrameType::DisposableInter, CodecID::JPEG)));
    assert_eq!(video_header(0x44), Ok((FrameType::Generated, CodecID::VP6)));
    assert_eq!(video_header(0x55), Ok((FrameType::Video, CodecID::VP6A)));
}

#[test]
fn video_header_errors() {
    assert_eq!(video_header(0x02), Err(FlvError::InvalidFrameType(0)));
    assert_eq!(video_header(0x62), Err(FlvError::InvalidFrameType(6)));
    assert_eq!(video_header(0xf0), Err(FlvError::InvalidFrameType(15)));
    assert_eq!(video_header(0x10), Err(FlvError::InvalidCodec(0)));
    assert_eq!(video_header(0x18), Err(FlvError::InvalidCodec(8)));
    assert_eq!(video_header(0x5f), Err(FlvError::InvalidCodec(15)));
}

#[test]
fn video_key_frame_is_wrapped_by_codec() {
    let bytes = [0x12, 0xde, 0xad, 0xbe, 0xef];
    assert_eq!(
        video_data(&bytes, 5),
        Ok(VideoData {
            frame_type: FrameType::Key,
            codec_id: CodecID::Sorenson,
            video_data: VideoDataByFrame::VideoFramePayload(VideoPacketData::H263VideoPacket(
                vec![0xde, 0xad, 0xbe, 0xef]
            )),
        })
    );
}

#[test]
fn video_every_codec_has_its_wrapper() {
    let data = vec![7u8, 8];
    let bytes = |codec: u8| vec![0x20 | codec, 7, 8];
    let body = |b: &[u8]| video_data(b, 3).unwrap().video_data;
    assert_eq!(
        body(&bytes(3)),
        VideoDataByFrame::VideoFramePayload(VideoPacketData::ScreenVideoPacket(data.clone()))
    );
    assert_eq!(
        body(&bytes(4)),
        VideoDataByFrame::VideoFramePayload(VideoPacketData::VP6FLVVideoPacket(data.clone()))
    );
    assert_eq!(
        body(&bytes(5)),
        VideoDataByFrame::VideoFramePayload(VideoPacketData::VP6FLVAlphaVideoPacket(data.clone()))
    );
    assert_eq!(
        body(&bytes(6)),
        VideoDataByFrame::VideoFramePayload(VideoPacketData::ScreenV2VideoPacket(data.clone()))
    );
    assert_eq!(
        body(&bytes(7)),
        VideoDataByFrame::VideoFramePayload(VideoPacketData::AVCVideoPacket(data.clone()))
    );
    assert_eq!(
        wrap_payload(CodecID::Sorenson, data.clone()),
        Ok(VideoPacketData::H263VideoPacket(data.clone()))
    );
    assert_eq!(wrap_payload(CodecID::JPEG, data), Err(FlvError::UnusedCodec));
}

#[test]
fn video_jpeg_is_unused_for_every_frame_type() {
    for frame in 1..=5u8 {
        assert_eq!(video_data(&[(frame << 4) | 1, 0, 0], 3), Err(FlvError::UnusedCodec));
    }
}

#[test]
fn video_command_frame_holds_its_command() {
    assert_eq!(
        video_data(&[0x52, 1], 2),
        Ok(VideoData {
            frame_type: FrameType::Video,
            codec_id: CodecID::Sorenson,
            video_data: VideoDataByFrame::U8(1),
        })
    );
    assert_eq!(video_data(&[0x57, 0, 9], 3).unwrap().video_data, VideoDataByFrame::U8(0));
    assert_eq!(video_data(&[0x52], 1), Err(FlvError::TooShort));
}

#[test]
fn video_data_errors() {
    assert_eq!(video_data(&[0x12, 1], 3), Err(FlvError::Truncated));
    assert_eq!(video_data(&[0x12, 1], 0), Err(FlvError::TooShort));
    assert_eq!(video_data(&[0x72, 1], 2), Err(FlvError::InvalidFrameType(7)));
    assert_eq!(video_data(&[0x19, 1], 2), Err(FlvError::InvalidCodec(9)));
}

#[test]
fn avc_packet_types() {
    assert_eq!(avc_packet_type(0), Ok(AVCPacketType::SequenceHeader));
    assert_eq!(avc_packet_type(1), Ok(AVCPacketType::NALU));
    assert_eq!(avc_packet_type(2), Ok(AVCPacketType::EndOfSequence));
    assert_eq!(avc_packet_type(3), Err(FlvError::InvalidPacketType(3)));
}

#[test]
fn avc_packets_keep_type_and_composition_time() {
    let cases: [(u8, AVCPacketType, i32); 5] = [
        (0, AVCPacketType::SequenceHeader, 0),
        (1, AVCPacketType::NALU, 80),
        (1, AVCPacketType::NALU, -2),
        (1, AVCPacketType::NALU, -8_388_608),
        (2, AVCPacketType::EndOfSequence, 8_388_607),
    ];
    for (code, kind, time) in cases {
        let wire = time.to_be_bytes();
        let bytes = [code, wire[1], wire[2], wire[3], 0xaa, 0xbb];
        assert_eq!(
            avc_video_packet(&bytes, 6),
            Ok(AVCVideoPacket {
                avc_packet_type: kind,
                composition_time: time,
                data: vec![0xaa, 0xbb]
            })
        );
    }
}

#[test]
fn avc_negative_offset_is_sign_extended() {
    let p = avc_video_packet(&[1, 0xff, 0xff, 0xfe], 4).unwrap();
    assert_eq!(p.composition_time, -2);
    assert_eq!(p.data, Vec::<u8>::new());
    let p = avc_video_packet(&[1, 0x7f, 0xff, 0xff], 4).unwrap();
    assert_eq!(p.composition_time, 0x7f_ffff);
}

#[test]
fn avc_packet_errors() {
    assert_eq!(avc_video_packet(&[1, 0, 0], 4), Err(FlvError::Truncated));
    assert_eq!(avc_video_packet(&[1, 0, 0, 0], 3), Err(FlvError::TooShort));
    assert_eq!(avc_video_packet(&[9, 0, 0, 0], 4), Err(FlvError::InvalidPacketType(9)));
}

#[test]
fn amf_number_keeps_its_bytes() {
    let wire = 28.133f64.to_be_bytes();
    let mut bytes = vec![0];
    bytes.extend_from_slice(&wire);
    let (value, rest) = amf_data_value(&bytes).unwrap();
    assert_eq!(rest.len(), 0);
    match value {
        AMFData::Number(bits) => {
            assert_eq!(f64::from_bits(bits), 28.133);
            assert_eq!(bits.to_be_bytes(), wire);
            assert_eq!(bits, 0x403c_220c_49ba_5e35);
        },
        other => panic!("not a number: {:?}", other),
    }
}

#[test]
fn amf_scalars() {
    assert_eq!(amf_data_value(&[1, 0, 7]), Ok((AMFData::Bool(false), &[7u8][..])));
    assert_eq!(amf_data_value(&[1, 2]), Ok((AMFData::Bool(true), &[][..])));
    assert_eq!(amf_data_value(&[5, 1]), Ok((AMFData::Null, &[1u8][..])));
    assert_eq!(amf_data_value(&[6]), Ok((AMFData::Undefined, &[][..])));
    assert_eq!(amf_data_value(&[7, 0x12, 0x34]), Ok((AMFData::Reference(0x1234), &[][..])));
    assert_eq!(amf_data_value(&[9, 3]), Ok((AMFData::ObjectEnd, &[3u8][..])));
    assert_eq!(
        amf_data_value(&[2, 0, 2, b'h', b'i', 1]),
        Ok((AMFData::String("hi".to_string()), &[1u8][..]))
    );
    assert_eq!(
        amf_data_value(&[12, 0, 0, 0, 2, b'h', b'i']),
        Ok((AMFData::LongString("hi".to_string()), &[][..]))
    );
}

#[test]
fn amf_date_has_signed_time_zone() {
    let mut bytes = vec![11];
    bytes.extend_from_slice(&1_000.0f64.to_be_bytes());
    bytes.extend_from_slice(&(-120i16).to_be_bytes());
    bytes.push(0x77);
    assert_eq!(
        amf_data_value(&bytes),
        Ok((
            AMFData::Date(AMFDate { milliseconds: 1_000.0f64.to_bits(), timezone: -120 }),
            &[0x77u8][..]
        ))
    );
    assert_eq!(
        amf_date(&bytes[1..]),
        Ok((AMFDate { milliseconds: 1_000.0f64.to_bits(), timezone: -120 }, &[0x77u8][..]))
    );
    assert_eq!(amf_date(&bytes[1..10]), Err(FlvError::Truncated));
}

#[test]
fn amf_strings() {
    assert_eq!(amf_string(&[0, 0]), Ok((String::new(), &[][..])));
    assert_eq!(amf_string(&[0, 3, b'a', b'b', b'c', b'd']), Ok(("abc".to_string(), &b"d"[..])));
    assert_eq!(
        amf_string(&[0, 2, 0xc3, 0xa9]),
        Ok(("\u{e9}".to_string(), &[][..]))
    );
    assert_eq!(amf_string(&[0]), Err(FlvError::Truncated));
    assert_eq!(amf_string(&[0, 3, b'a', b'b']), Err(FlvError::Truncated));
    assert_eq!(amf_string(&[0, 2, 0xc3, 0x28]), Err(FlvError::Utf8Error));
    assert_eq!(amf_string(&[0, 1, 0xff]), Err(FlvError::Utf8Error));
    assert_eq!(amf_long_string(&[0, 0, 0, 1, b'z', 4]), Ok(("z".to_string(), &[4u8][..])));
    assert_eq!(amf_long_string(&[0, 0, 0]), Err(FlvError::Truncated));
    assert_eq!(amf_long_string(&[0xff, 0xff, 0xff, 0xff, b'z']), Err(FlvError::Truncated));
    assert_eq!(amf_long_string(&[0, 0, 0, 1, 0x80]), Err(FlvError::Utf8Error));
}

#[test]
fn amf_type_errors() {
    assert_eq!(amf_data_value(&[]), Err(FlvError::Truncated));
    assert_eq!(amf_data_value(&[13]), Err(FlvError::UnsupportedAMFType));
    assert_eq!(amf_data_value(&[4]), Err(FlvError::ReservedAMFType(4)));
    assert_eq!(amf_data_value(&[14]), Err(FlvError::ReservedAMFType(14)));
    assert_eq!(amf_data_value(&[255, 0]), Err(FlvError::ReservedAMFType(255)));
    assert_eq!(amf_data_value(&[0, 1, 2, 3, 4, 5, 6, 7]), Err(FlvError::Truncated));
    assert_eq!(amf_data_value(&[1]), Err(FlvError::Truncated));
    assert_eq!(amf_data_value(&[7, 1]), Err(FlvError::Truncated));
}

fn pair_bytes(key: &str, value: f64) -> Vec<u8> {
    let mut out = name(key);
    out.extend_from_slice(&number_value(value));
    out
}

fn pair(key: &str, value: f64) -> AMFObject {
    AMFObject { name: key.to_string(), data: AMFData::Number(value.to_bits()) }
}

#[test]
fn amf_object_decodes_to_its_pairs() {
    for n in 0..5usize {
        let mut bytes = vec![3];
        let mut expected = Vec::new();
        for i in 0..n {
            let key = format!("k{}", i);
            bytes.extend_from_slice(&pair_bytes(&key, i as f64));
            expected.push(pair(&key, i as f64));
        }
        let open = bytes.clone();
        bytes.extend_from_slice(&[0, 0, 9, 0xee]);
        assert_eq!(amf_data_value(&bytes), Ok((AMFData::Object(expected), &[0xeeu8][..])));
        assert_eq!(amf_data_value(&open), Err(FlvError::Truncated));
    }
}

#[test]
fn amf_objects_stop_at_end_marker() {
    let mut bytes = pair_bytes("a", 1.0);
    bytes.extend_from_slice(&name("end"));
    bytes.push(9);
    bytes.extend_from_slice(&pair_bytes("b", 2.0));
    let (found, rest) = amf_objects(&bytes).unwrap();
    assert_eq!(found, vec![pair("a", 1.0)]);
    assert_eq!(rest, &pair_bytes("b", 2.0)[..]);
}

#[test]
fn amf_object_pair() {
    let mut bytes = pair_bytes("width", 464.0);
    bytes.push(1);
    assert_eq!(amf_object(&bytes), Ok((pair("width", 464.0), &[1u8][..])));
    assert_eq!(amf_object(&bytes[..7]), Err(FlvError::Truncated));
    assert_eq!(amf_object(&[0, 1, b'x', 13]), Err(FlvError::UnsupportedAMFType));
}

#[test]
fn amf_ecma_array_count_is_a_hint() {
    for count in [0u32, 1, 7, u32::MAX] {
        let mut bytes = count.to_be_bytes().to_vec();
        bytes.extend_from_slice(&pair_bytes("a", 1.0));
        bytes.extend_from_slice(&pair_bytes("b", 2.0));
        bytes.extend_from_slice(&[0, 0, 9]);
        assert_eq!(
            amf_ecma_array(&bytes),
            Ok((vec![pair("a", 1.0), pair("b", 2.0)], &[][..]))
        );
        let mut tagged = vec![8];
        tagged.extend_from_slice(&bytes);
        assert_eq!(
            amf_data_value(&tagged),
            Ok((AMFData::Mixedarray(vec![pair("a", 1.0), pair("b", 2.0)]), &[][..]))
        );
    }
    assert_eq!(amf_ecma_array(&[0, 0, 0]), Err(FlvError::Truncated));
}

#[test]
fn amf_strict_array_takes_exactly_its_count() {
    let bytes = [0, 0, 0, 2, 5, 1, 1, 6, 9];
    assert_eq!(
        amf_strict_array(&bytes),
        Ok((vec![AMFData::Null, AMFData::Bool(true)], &[6u8, 9][..]))
    );
    assert_eq!(amf_strict_array(&[0, 0, 0, 0, 9]), Ok((vec![], &[9u8][..])));
    assert_eq!(amf_strict_array(&[0, 0, 0, 3, 5, 5]), Err(FlvError::Truncated));
    assert_eq!(amf_strict_array(&[0, 0, 0]), Err(FlvError::Truncated));
    assert_eq!(
        amf_data_value(&[10, 0, 0, 0, 1, 9]),
        Ok((AMFData::Array(vec![AMFData::ObjectEnd]), &[][..]))
    );
}

#[test]
fn amf_strict_array_with_false_count_ends() {
    assert_eq!(amf_strict_array(&[0xff, 0xff, 0xff, 0xff, 5, 5, 5]), Err(FlvError::Truncated));
}

fn nested_arrays(levels: usize) -> Vec<u8> {
    let mut bytes = Vec::new();
    for _ in 0..levels {
        bytes.extend_from_slice(&[10, 0, 0, 0, 1]);
    }
    bytes.push(5);
    bytes
}

#[test]
fn amf_nesting_is_bounded() {
    assert!(amf_data_value(&nested_arrays(64)).is_ok());
    assert_eq!(amf_data_value(&nested_arrays(65)), Err(FlvError::NestingTooDeep));
    assert_eq!(amf_data_value(&nested_arrays(100_000)), Err(FlvError::NestingTooDeep));
    assert_eq!(amf_value_within(&nested_arrays(1), 0), Err(FlvError::NestingTooDeep));
    assert_eq!(
        amf_value_within(&nested_arrays(1), 1),
        Ok((AMFData::Array(vec![AMFData::Null]), &[][..]))
    );
    assert_eq!(amf_value_within(&[3, 0, 0, 9], 0), Err(FlvError::NestingTooDeep));
    assert_eq!(amf_value_within(&[8, 0, 0, 0, 0, 0, 0, 9], 0), Err(FlvError::NestingTooDeep));
    assert_eq!(amf_value_within(&[5], 0), Ok((AMFData::Null, &[][..])));
}

#[test]
fn amf_nested_values() {
    let mut bytes = vec![3];
    bytes.extend_from_slice(&name("list"));
    bytes.extend_from_slice(&[10, 0, 0, 0, 2, 1, 1]);
    bytes.extend_from_slice(&[3, 0, 0, 9]);
    bytes.extend_from_slice(&[0, 0, 9]);
    assert_eq!(
        amf_data_value(&bytes),
        Ok((
            AMFData::Object(vec![AMFObject {
                name: "list".to_string(),
                data: AMFData::Array(vec![AMFData::Bool(true), AMFData::Object(vec![])]),
            }]),
            &[][..]
        ))
    );
}

#[test]
fn amf_data_needs_string_marker() {
    assert_eq!(amf_data(&[]), Err(FlvError::Truncated));
    assert_eq!(amf_data(&[8, 0, 0]), Err(FlvError::InvalidTopLevelType));
    assert_eq!(amf_data(&[0, 0, 0]), Err(FlvError::InvalidTopLevelType));
    assert_eq!(
        amf_data(&[2, 0, 1, b'n', 5, 4]),
        Ok((AMFObject { name: "n".to_string(), data: AMFData::Null }, &[4u8][..]))
    );
}

#[test]
fn amf_decoding_of_arbitrary_bytes_ends() {
    let mut x: u32 = 0x1234_5678;
    for round in 0..2_000usize {
        let len = round % 48;
        let mut bytes = Vec::with_capacity(len);
        for _ in 0..len {
            x ^= x << 13;
            x ^= x >> 17;
            x ^= x << 5;
            bytes.push((x % 14) as u8);
        }
        if let Ok((_, rest)) = amf_data_value(&bytes) {
            assert!(rest.len() < bytes.len());
        }
        if let Ok((_, rest)) = amf_objects(&bytes) {
            assert!(rest.len() + 3 <= bytes.len());
        }
    }
}

#[test]
fn amf_value_cut_short_is_truncated() {
    let mut bytes = vec![3];
    bytes.extend_from_slice(&name("list"));
    bytes.extend_from_slice(&[10, 0, 0, 0, 2, 1, 1]);
    bytes.extend_from_slice(&[12, 0, 0, 0, 2, 0xc3, 0xa9]);
    bytes.extend_from_slice(&pair_bytes("n", 2.5));
    bytes.extend_from_slice(&name("when"));
    bytes.push(11);
    bytes.extend_from_slice(&0.0f64.to_be_bytes());
    bytes.extend_from_slice(&[0, 60]);
    bytes.extend_from_slice(&name("set"));
    bytes.extend_from_slice(&[8, 0, 0, 0, 0, 0, 0, 9]);
    bytes.extend_from_slice(&[0, 0, 9]);
    let (whole, rest) = amf_data_value(&bytes).unwrap();
    assert_eq!(rest.len(), 0);
    for n in 0..bytes.len() {
        assert_eq!(amf_data_value(&bytes[..n]), Err(FlvError::Truncated));
    }
    bytes.extend_from_slice(&[1, 2, 3]);
    assert_eq!(amf_data_value(&bytes), Ok((whole, &[1u8, 2, 3][..])));
}
