use bytes::Bytes;
use rtp_media::aac;
use rtp_media::codec::{CodecItem, ConfigError, Depacketizer, Parameters, PayloadError};
use rtp_media::rtp::Packet;
use rtp_media::{ConnectionContext, RtspMessageContext, Timestamp};

// AAC-LC, 48 kHz, one channel, 1024 samples per frame
const FMTP: &str =
    "profile-level-id=1;mode=AAC-hbr;sizelength=13;indexlength=3;indexdeltalength=3;config=1188";

fn audio_packet(seq: u16, ts: u64, loss: u16, mark: bool, payload: Vec<u8>) -> Packet {
    Packet {
        ctx: RtspMessageContext { pos: seq as u64 },
        channel_id: 2,
        stream_id: 1,
        timestamp: Timestamp { timestamp: ts, clock_rate: 48000 },
        ssrc: 0x7777,
        sequence_number: seq,
        loss,
        mark,
        payload: Bytes::from(payload),
    }
}

fn new_aac() -> Depacketizer {
    Depacketizer::new("audio", "mpeg4-generic", 48000, Some(1), Some(FMTP)).unwrap()
}

fn drain_audio(d: &mut Depacketizer) -> Vec<rtp_media::codec::AudioFrame> {
    let conn = ConnectionContext { id: 0 };
    let mut out = Vec::new();
    while let Some(item) = d.pull(&conn).unwrap() {
        match item {
            CodecItem::AudioFrame(f) => out.push(f),
            _ => panic!("expected audio frames"),
        }
    }
    out
}

/// AU header section for the given sizes (one thirteen-bit size and a
/// three-bit zero index per access unit), then the payload follows.
fn au_packet(sizes: &[u16], data: &[u8]) -> Vec<u8> {
    let mut v = Vec::new();
    v.extend_from_slice(&((sizes.len() as u16) * 16).to_be_bytes());
    for &s in sizes {
        v.extend_from_slice(&(s << 3).to_be_bytes());
    }
    v.extend_from_slice(data);
    v
}

#[test]
fn aac_parameters_come_from_the_config() {
    let d = new_aac();
    match d.parameters() {
        Some(Parameters::Audio(a)) => {
            assert_eq!(a.clock_rate(), 48000);
            assert_eq!(a.frame_length(), Some(1024));
            assert_eq!(a.rfc6381_codec(), Some("mp4a.40.2"));
            assert_eq!(&a.extra_data()[..], &[0x11, 0x88]);
        }
        _ => panic!("expected audio parameters"),
    }
}

#[test]
fn aggregated_access_units_become_separate_frames() {
    let mut d = new_aac();
    let payload = au_packet(&[3, 4], &[1, 2, 3, 9, 8, 7, 6]);
    d.push(audio_packet(1, 10_000, 0, true, payload)).unwrap();
    let frames = drain_audio(&mut d);
    assert_eq!(frames.len(), 2);
    assert_eq!(&frames[0].data[..], &[1, 2, 3]);
    assert_eq!(frames[0].timestamp.timestamp, 10_000);
    assert_eq!(frames[0].frame_length, 1024);
    assert_eq!(&frames[1].data[..], &[9, 8, 7, 6]);
    assert_eq!(frames[1].timestamp.timestamp, 11_024);
    assert_eq!(frames[1].loss, 0);
}

#[test]
fn fragmented_access_unit_accumulates_to_its_declared_size() {
    let mut d = new_aac();
    d.push(audio_packet(1, 5_000, 0, false, au_packet(&[5], &[1, 2]))).unwrap();
    assert!(drain_audio(&mut d).is_empty());
    d.push(audio_packet(2, 5_000, 0, true, au_packet(&[5], &[3, 4, 5]))).unwrap();
    let frames = drain_audio(&mut d);
    assert_eq!(frames.len(), 1);
    assert_eq!(&frames[0].data[..], &[1, 2, 3, 4, 5]);
    assert_eq!(frames[0].timestamp.timestamp, 5_000);
}

#[test]
fn loss_inside_a_fragment_rides_the_next_frame() {
    let mut d = new_aac();
    d.push(audio_packet(1, 5_000, 0, false, au_packet(&[5], &[1, 2]))).unwrap();
    assert!(drain_audio(&mut d).is_empty());
    // the continuation was lost; a fresh complete access unit arrives
    d.push(audio_packet(3, 7_000, 1, true, au_packet(&[2], &[8, 9]))).unwrap();
    let frames = drain_audio(&mut d);
    assert_eq!(frames.len(), 1);
    assert_eq!(&frames[0].data[..], &[8, 9]);
    assert_eq!(frames[0].loss, 1);
}

#[test]
fn au_data_longer_than_declared_is_rejected() {
    let mut d = new_aac();
    match d.push(audio_packet(1, 0, 0, true, au_packet(&[2], &[1, 2, 3]))) {
        Err(PayloadError::AacDataSection) => {}
        other => panic!("expected a data-section error, got {:?}", other.is_ok()),
    }
}

#[test]
fn interleaved_access_units_are_unsupported() {
    let mut d = new_aac();
    let mut payload = 16u16.to_be_bytes().to_vec();
    payload.extend_from_slice(&((2u16 << 3) | 1).to_be_bytes()); // index 1
    payload.extend_from_slice(&[1, 2]);
    match d.push(audio_packet(1, 0, 0, true, payload)) {
        Err(PayloadError::AacInterleaving) => {}
        other => panic!("expected an interleaving error, got {:?}", other.is_ok()),
    }
}

#[test]
fn aac_setup_checks_the_session_description() {
    match Depacketizer::new("audio", "mpeg4-generic", 44100, Some(1), Some(FMTP)) {
        Err(ConfigError::AacClockRateMismatch { sdp, config }) => {
            assert_eq!(sdp, 44100);
            assert_eq!(config, 48000);
        }
        other => panic!("expected a clock-rate mismatch, got {:?}", other.is_ok()),
    }
    match Depacketizer::new("audio", "mpeg4-generic", 48000, Some(2), Some(FMTP)) {
        Err(ConfigError::AacChannelMismatch { sdp_channels, config_channels }) => {
            assert_eq!(sdp_channels, 2);
            assert_eq!(config_channels, 1);
        }
        other => panic!("expected a channel mismatch, got {:?}", other.is_ok()),
    }
    match Depacketizer::new("audio", "mpeg4-generic", 48000, Some(1), None) {
        Err(ConfigError::AacMissingParams) => {}
        other => panic!("expected missing params, got {:?}", other.is_ok()),
    }
    let low_rate = "mode=AAC-lbr;sizelength=13;indexlength=3;indexdeltalength=3;config=1188";
    match Depacketizer::new("audio", "mpeg4-generic", 48000, Some(1), Some(low_rate)) {
        Err(ConfigError::AacUnsupportedMode) => {}
        other => panic!("expected unsupported mode, got {:?}", other.is_ok()),
    }
}

#[test]
fn aac_constant_duration_from_the_fmtp_wins() {
    let fmtp = "mode=AAC-hbr;sizelength=13;indexlength=3;indexdeltalength=3;config=1188;constantduration=960";
    let d = Depacketizer::new("audio", "mpeg4-generic", 48000, Some(1), Some(fmtp)).unwrap();
    match d.parameters() {
        Some(Parameters::Audio(a)) => assert_eq!(a.frame_length(), Some(960)),
        _ => panic!("expected audio parameters"),
    }
}

#[test]
fn an_empty_au_header_section_is_rejected() {
    let mut d = new_aac();
    let payload = vec![0u8, 0, 1, 2];
    match d.push(audio_packet(1, 0, 0, true, payload)) {
        Err(PayloadError::AacAuHeaders) => {}
        other => panic!("expected an AU-headers error, got {:?}", other.is_ok()),
    }
}

#[test]
fn an_aggregate_while_a_fragment_is_open_is_rejected() {
    let mut d = new_aac();
    d.push(audio_packet(1, 5_000, 0, false, au_packet(&[9], &[1, 2]))).unwrap();
    assert!(drain_audio(&mut d).is_empty());
    match d.push(audio_packet(2, 5_000, 0, true, au_packet(&[1, 1], &[3, 4]))) {
        Err(PayloadError::AacFragment) => {}
        other => panic!("expected a fragment error, got {:?}", other.is_ok()),
    }
}

#[test]
fn an_undersized_config_is_rejected() {
    let fmtp = "mode=AAC-hbr;sizelength=13;indexlength=3;indexdeltalength=3;config=11";
    match Depacketizer::new("audio", "mpeg4-generic", 48000, Some(1), Some(fmtp)) {
        Err(ConfigError::AacBadConfig) => {}
        other => panic!("expected a bad-config error, got {:?}", other.is_ok()),
    }
}

#[test]
fn from_config_accepts_exactly_the_matching_configuration() {
    // AAC-LC, 48 kHz, one channel
    assert!(aac::Depacketizer::from_config(48000, Some(1), None, vec![0x11, 0x88]).is_ok());
    assert!(aac::Depacketizer::from_config(48000, None, Some(960), vec![0x11, 0x88]).is_ok());
    match aac::Depacketizer::from_config(44100, Some(1), None, vec![0x11, 0x88]) {
        Err(ConfigError::AacClockRateMismatch { sdp, config }) => {
            assert_eq!(sdp, 44100);
            assert_eq!(config, 48000);
        }
        other => panic!("expected a clock-rate mismatch, got {:?}", other.is_ok()),
    }
    match aac::Depacketizer::from_config(48000, Some(2), None, vec![0x11, 0x88]) {
        Err(ConfigError::AacChannelMismatch { .. }) => {}
        other => panic!("expected a channel mismatch, got {:?}", other.is_ok()),
    }
    match aac::Depacketizer::from_config(48000, Some(1), Some(0), vec![0x11, 0x88]) {
        Err(ConfigError::AacBadConfig) => {}
        other => panic!("expected a bad-config error, got {:?}", other.is_ok()),
    }
    match aac::Depacketizer::from_config(48000, Some(1), None, vec![0x11]) {
        Err(ConfigError::AacBadConfig) => {}
        other => panic!("expected a bad-config error, got {:?}", other.is_ok()),
    }
}

#[test]
fn fmtp_parsing_tolerates_spaces_case_and_repeats() {
    // spaces after semicolons, mixed-case mode and keys, and a repeated
    // parameter whose last assignment wins
    let fmtp = "Profile-Level-ID=1; MODE=aac-HBR; SizeLength=13; indexlength=3; \
                IndexDeltaLength=3; constantduration=480; config=ffff; config=1188";
    let d = Depacketizer::new("audio", "mpeg4-generic", 48000, Some(1), Some(fmtp)).unwrap();
    match d.parameters() {
        Some(Parameters::Audio(a)) => {
            assert_eq!(a.frame_length(), Some(480));
            assert_eq!(&a.extra_data()[..], &[0x11, 0x88]);
            assert_eq!(a.rfc6381_codec(), Some("mp4a.40.2"));
        }
        _ => panic!("expected audio parameters"),
    }
}
