use bytes::Bytes;
use rtp_media::codec::{CodecItem, ConfigError, Depacketizer, Parameters, PayloadError};
use rtp_media::rtp::Packet;
use rtp_media::{ConnectionContext, RtspMessageContext, Timestamp};

fn packet(seq: u16, ts: u64, clock_rate: u32, loss: u16, mark: bool, payload: Vec<u8>) -> Packet {
    Packet {
        ctx: RtspMessageContext { pos: seq as u64 },
        channel_id: 0,
        stream_id: 0,
        timestamp: Timestamp { timestamp: ts, clock_rate },
        ssrc: 0x1234,
        sequence_number: seq,
        loss,
        mark,
        payload: Bytes::from(payload),
    }
}

fn drain(d: &mut Depacketizer) -> Vec<CodecItem> {
    let conn = ConnectionContext { id: 0 };
    let mut out = Vec::new();
    while let Some(item) = d.pull(&conn).unwrap() {
        out.push(item);
    }
    out
}

#[test]
fn g723_valid_24_byte_packet_is_one_frame() {
    let mut d = Depacketizer::new("audio", "g723", 8000, Some(1), None).unwrap();
    let mut payload = vec![0u8];
    payload.extend_from_slice(&[0u8; 23]);
    d.push(packet(1, 0, 8000, 0, true, payload)).unwrap();
    let items = drain(&mut d);
    assert_eq!(items.len(), 1);
    match &items[0] {
        CodecItem::AudioFrame(f) => {
            assert_eq!(f.frame_length, 240);
            assert_eq!(f.data.len(), 24);
            assert_eq!(f.loss, 0);
        }
        _ => panic!("expected an audio frame"),
    }
}

#[test]
fn g723_header_bits_disagreeing_with_length_are_rejected() {
    let mut d = Depacketizer::new("audio", "g723", 8000, Some(1), None).unwrap();
    let mut payload = vec![0x03u8];
    payload.extend_from_slice(&[0u8; 23]);
    match d.push(packet(1, 0, 8000, 0, true, payload)) {
        Err(PayloadError::G723InvalidPacket) => {}
        other => panic!("expected the G.723 payload error, got {:?}", other.is_ok()),
    }
}

#[test]
fn g723_requires_an_8khz_clock() {
    match Depacketizer::new("audio", "g723", 16000, Some(1), None) {
        Err(ConfigError::G723ClockRate { clock_rate }) => assert_eq!(clock_rate, 16000),
        other => panic!("expected a clock-rate error, got {:?}", other.is_ok()),
    }
}

#[test]
fn unknown_media_encoding_pair_is_refused() {
    match Depacketizer::new("video", "vp8", 90000, None, None) {
        Err(ConfigError::UnknownEncoding) => {}
        other => panic!("expected the unknown-encoding error, got {:?}", other.is_ok()),
    }
    match Depacketizer::new("text", "h264", 90000, None, None) {
        Err(ConfigError::UnknownEncoding) => {}
        other => panic!("expected the unknown-encoding error, got {:?}", other.is_ok()),
    }
}

#[test]
fn simple_audio_frame_length_counts_samples() {
    let mut d = Depacketizer::new("audio", "pcma", 8000, Some(1), None).unwrap();
    d.push(packet(1, 0, 8000, 0, true, vec![0u8; 160])).unwrap();
    match &drain(&mut d)[..] {
        [CodecItem::AudioFrame(f)] => {
            assert_eq!(f.frame_length, 160);
            assert_eq!(f.data.len(), 160);
        }
        _ => panic!("expected one audio frame"),
    }
    let mut d = Depacketizer::new("audio", "l16", 44100, Some(1), None).unwrap();
    d.push(packet(1, 0, 44100, 0, true, vec![0u8; 160])).unwrap();
    match &drain(&mut d)[..] {
        [CodecItem::AudioFrame(f)] => assert_eq!(f.frame_length, 80),
        _ => panic!("expected one audio frame"),
    }
    let mut d = Depacketizer::new("audio", "g726-24", 8000, Some(1), None).unwrap();
    d.push(packet(1, 0, 8000, 0, true, vec![0u8; 30])).unwrap();
    match &drain(&mut d)[..] {
        [CodecItem::AudioFrame(f)] => assert_eq!(f.frame_length, 80),
        _ => panic!("expected one audio frame"),
    }
}

#[test]
fn simple_audio_parameters_carry_the_clock_rate() {
    let d = Depacketizer::new("audio", "pcmu", 8000, Some(1), None).unwrap();
    match d.parameters() {
        Some(Parameters::Audio(a)) => {
            assert_eq!(a.clock_rate(), 8000);
            assert!(a.frame_length().is_none());
            assert!(a.extra_data().is_empty());
        }
        _ => panic!("expected audio parameters"),
    }
}

#[test]
fn onvif_message_spans_packets_until_the_mark_bit() {
    let mut d =
        Depacketizer::new("application", "vnd.onvif.metadata", 90000, None, None).unwrap();
    d.push(packet(1, 100, 90000, 0, false, b"<tt:MetadataStream>".to_vec())).unwrap();
    assert!(drain(&mut d).is_empty());
    d.push(packet(2, 100, 90000, 0, true, b"</tt:MetadataStream>".to_vec())).unwrap();
    match &drain(&mut d)[..] {
        [CodecItem::MessageFrame(f)] => {
            assert_eq!(&f.data[..], b"<tt:MetadataStream></tt:MetadataStream>".as_slice());
            assert_eq!(f.timestamp.timestamp, 100);
            assert_eq!(f.loss, 0);
        }
        _ => panic!("expected one message frame"),
    }
}

#[test]
fn onvif_loss_drops_the_partial_message_and_marks_the_next() {
    let mut d =
        Depacketizer::new("application", "vnd.onvif.metadata.gzip", 90000, None, None).unwrap();
    d.push(packet(1, 100, 90000, 0, false, b"partial".to_vec())).unwrap();
    assert!(drain(&mut d).is_empty());
    // two packets were lost; the partial message is dropped
    d.push(packet(4, 200, 90000, 2, true, b"whole".to_vec())).unwrap();
    match &drain(&mut d)[..] {
        [CodecItem::MessageFrame(f)] => {
            assert_eq!(&f.data[..], b"whole".as_slice());
            assert_eq!(f.loss, 2);
            assert_eq!(f.timestamp.timestamp, 200);
        }
        _ => panic!("expected one message frame"),
    }
}

#[test]
fn onvif_parameters_pass_the_compression_through() {
    let d = Depacketizer::new("application", "vnd.onvif.metadata.exi.onvif", 90000, None, None)
        .unwrap();
    match d.parameters() {
        Some(Parameters::Message(m)) => {
            assert_eq!(m.0, rtp_media::onvif::CompressionType::ExiDefault)
        }
        _ => panic!("expected message parameters"),
    }
}
