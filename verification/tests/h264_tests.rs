use bytes::Bytes;
use rtp_media::codec::{CodecItem, Depacketizer, Parameters, PayloadError, VideoFrame};
use rtp_media::rtp::Packet;
use rtp_media::{ConnectionContext, RtspMessageContext, Timestamp};

const SPS: [u8; 7] = [0x67, 0x42, 0x00, 0x1f, 0xf8, 0x84, 0x88];
const PPS: [u8; 4] = [0x68, 0xce, 0x38, 0x80];

fn video_packet(seq: u16, ts: u64, loss: u16, mark: bool, payload: Vec<u8>) -> Packet {
    Packet {
        ctx: RtspMessageContext { pos: seq as u64 },
        channel_id: 0,
        stream_id: 0,
        timestamp: Timestamp { timestamp: ts, clock_rate: 90000 },
        ssrc: 0x5555,
        sequence_number: seq,
        loss,
        mark,
        payload: Bytes::from(payload),
    }
}

fn new_h264() -> Depacketizer {
    Depacketizer::new("video", "h264", 90000, None, None).unwrap()
}

fn drain_video(d: &mut Depacketizer) -> Vec<VideoFrame> {
    let conn = ConnectionContext { id: 0 };
    let mut out = Vec::new();
    while let Some(item) = d.pull(&conn).unwrap() {
        match item {
            CodecItem::VideoFrame(f) => out.push(f),
            _ => panic!("expected video frames"),
        }
    }
    out
}

fn avcc(nals: &[&[u8]]) -> Vec<u8> {
    let mut out = Vec::new();
    for nal in nals {
        out.extend_from_slice(&(nal.len() as u32).to_be_bytes());
        out.extend_from_slice(nal);
    }
    out
}

fn fu_a_packets(nal: &[u8], chunk: usize, seq0: u16, ts: u64, mark_last: bool) -> Vec<Packet> {
    let indicator = (nal[0] & 0xe0) | 28;
    let typ = nal[0] & 0x1f;
    let body = &nal[1..];
    let mut packets = Vec::new();
    let mut off = 0;
    let mut seq = seq0;
    while off < body.len() {
        let end = (off + chunk).min(body.len());
        let start = off == 0;
        let last = end == body.len();
        let fu_header = (if start { 0x80 } else { 0 }) | (if last { 0x40 } else { 0 }) | typ;
        let mut payload = vec![indicator, fu_header];
        payload.extend_from_slice(&body[off..end]);
        packets.push(video_packet(seq, ts, 0, last && mark_last, payload));
        seq = seq.wrapping_add(1);
        off = end;
    }
    packets
}

#[test]
fn fu_a_reassembles_a_large_idr_nal() {
    // a 3000-byte IDR NAL split into fragments
    let mut nal = vec![0x65u8];
    for i in 0..2999usize {
        nal.push((i % 251) as u8);
    }
    let mut d = new_h264();
    for pkt in fu_a_packets(&nal, 1400, 10, 1000, true) {
        d.push(pkt).unwrap();
    }
    let frames = drain_video(&mut d);
    assert_eq!(frames.len(), 1);
    let f = &frames[0];
    assert!(f.is_random_access_point);
    assert!(!f.is_disposable);
    let mut expected = 3000u32.to_be_bytes().to_vec();
    expected.extend_from_slice(&nal);
    assert_eq!(&f.data()[..], &expected[..]);
    assert_eq!(f.timestamp.timestamp, 1000);
    assert_eq!(f.loss, 0);
}

#[test]
fn packetized_access_unit_round_trips_to_avcc() {
    // one access unit of three NAL units, sent as a single NAL packet, a
    // STAP-A aggregate, and an FU-A run, all on one timestamp
    let nal_a: Vec<u8> = vec![0x41, 1, 2, 3];
    let nal_b: Vec<u8> = vec![0x01, 9];
    let nal_c: Vec<u8> = {
        let mut v = vec![0x61u8];
        v.extend_from_slice(&[7u8; 50]);
        v
    };
    let mut d = new_h264();
    // single NAL packet
    d.push(video_packet(1, 500, 0, false, nal_a.clone())).unwrap();
    assert!(drain_video(&mut d).is_empty());
    // STAP-A holding one small NAL
    let mut stap = vec![24u8];
    stap.extend_from_slice(&(nal_b.len() as u16).to_be_bytes());
    stap.extend_from_slice(&nal_b);
    d.push(video_packet(2, 500, 0, false, stap)).unwrap();
    assert!(drain_video(&mut d).is_empty());
    // FU-A run, mark on the last fragment
    for pkt in fu_a_packets(&nal_c, 20, 3, 500, true) {
        d.push(pkt).unwrap();
    }
    let frames = drain_video(&mut d);
    assert_eq!(frames.len(), 1);
    let f = &frames[0];
    assert_eq!(&f.data()[..], &avcc(&[&nal_a, &nal_b, &nal_c])[..]);
    assert!(!f.is_random_access_point);
    assert!(f.is_disposable == false); // nal_a and nal_c have nal_ref_idc > 0
}

#[test]
fn timestamp_change_closes_an_access_unit() {
    let mut d = new_h264();
    d.push(video_packet(1, 100, 0, false, vec![0x41, 1])).unwrap();
    assert!(drain_video(&mut d).is_empty());
    // a new timestamp closes the previous access unit even without a mark
    d.push(video_packet(2, 200, 0, true, vec![0x41, 2])).unwrap();
    let frames = drain_video(&mut d);
    assert_eq!(frames.len(), 2);
    assert_eq!(frames[0].timestamp.timestamp, 100);
    assert_eq!(&frames[0].data()[..], &avcc(&[&[0x41, 1]])[..]);
    assert_eq!(frames[1].timestamp.timestamp, 200);
    assert_eq!(&frames[1].data()[..], &avcc(&[&[0x41, 2]])[..]);
}

#[test]
fn loss_drops_the_partial_access_unit_and_rides_the_next_frame() {
    let mut d = new_h264();
    d.push(video_packet(1, 100, 0, false, vec![0x41, 1])).unwrap();
    assert!(drain_video(&mut d).is_empty());
    // three packets lost; the open access unit is dropped
    d.push(video_packet(5, 300, 3, true, vec![0x41, 9])).unwrap();
    let frames = drain_video(&mut d);
    assert_eq!(frames.len(), 1);
    assert_eq!(frames[0].loss, 3);
    assert_eq!(&frames[0].data()[..], &avcc(&[&[0x41, 9]])[..]);
}

#[test]
fn inline_sps_pps_update_the_parameters() {
    let mut d = new_h264();
    assert!(d.parameters().is_none());
    // STAP-A carrying SPS, PPS and one slice, closing the access unit
    let mut stap = vec![24u8];
    for nal in [&SPS[..], &PPS[..], &[0x65u8, 0xaa][..]] {
        stap.extend_from_slice(&(nal.len() as u16).to_be_bytes());
        stap.extend_from_slice(nal);
    }
    d.push(video_packet(1, 100, 0, true, stap)).unwrap();
    let frames = drain_video(&mut d);
    assert_eq!(frames.len(), 1);
    let vp = frames[0].new_parameters.as_ref().expect("parameters should ride the frame");
    assert_eq!(vp.pixel_dimensions(), (64, 64));
    assert_eq!(vp.rfc6381_codec(), "avc1.42001F");
    let mut expected_record = vec![1u8, 0x42, 0x00, 0x1f, 0xff, 0xe1, 0x00, 0x07];
    expected_record.extend_from_slice(&SPS);
    expected_record.extend_from_slice(&[0x01, 0x00, 0x04]);
    expected_record.extend_from_slice(&PPS);
    assert_eq!(&vp.extra_data()[..], &expected_record[..]);
    match d.parameters() {
        Some(Parameters::Video(v)) => assert_eq!(v.pixel_dimensions(), (64, 64)),
        _ => panic!("expected video parameters"),
    }
    // an unchanged SPS/PPS pair does not re-attach parameters
    let mut stap2 = vec![24u8];
    for nal in [&SPS[..], &PPS[..], &[0x65u8, 0xbb][..]] {
        stap2.extend_from_slice(&(nal.len() as u16).to_be_bytes());
        stap2.extend_from_slice(nal);
    }
    d.push(video_packet(2, 200, 0, true, stap2)).unwrap();
    let frames = drain_video(&mut d);
    assert_eq!(frames.len(), 1);
    assert!(frames[0].new_parameters.is_none());
}

#[test]
fn fu_a_end_without_start_is_a_fragment_order_error() {
    let mut d = new_h264();
    match d.push(video_packet(1, 100, 0, true, vec![0x7c, 0x45, 1, 2])) {
        Err(PayloadError::H264FragmentOrder) => {}
        other => panic!("expected a fragment-order error, got {:?}", other.is_ok()),
    }
}

#[test]
fn unsupported_nal_type_is_rejected() {
    let mut d = new_h264();
    match d.push(video_packet(1, 100, 0, true, vec![0x19 | 0x60, 0x00])) {
        Err(PayloadError::H264UnsupportedNal { nal_type }) => assert_eq!(nal_type, 25),
        other => panic!("expected an unsupported-type error, got {:?}", other.is_ok()),
    }
}

#[test]
fn stap_a_with_bad_length_prefixes_is_rejected() {
    let mut d = new_h264();
    let payload = vec![24u8, 0x00, 0x09, 1, 2]; // declares 9 bytes, has 2
    match d.push(video_packet(1, 100, 0, true, payload)) {
        Err(PayloadError::H264StapAMalformed) => {}
        other => panic!("expected a malformed STAP-A error, got {:?}", other.is_ok()),
    }
}

#[test]
fn disposable_frames_have_only_zero_ref_idc_nals() {
    let mut d = new_h264();
    d.push(video_packet(1, 100, 0, true, vec![0x01, 5, 6])).unwrap();
    let frames = drain_video(&mut d);
    assert_eq!(frames.len(), 1);
    assert!(frames[0].is_disposable);
    assert!(!frames[0].is_random_access_point);
}

#[test]
fn mark_in_the_middle_of_a_fragment_is_rejected() {
    let mut d = new_h264();
    // an FU-A start fragment (no end bit) carrying the mark bit
    match d.push(video_packet(1, 100, 0, true, vec![0x7c, 0x85, 1, 2])) {
        Err(PayloadError::H264FragmentInterrupted) => {}
        other => panic!("expected a fragment-interrupted error, got {:?}", other.is_ok()),
    }
}

#[test]
fn fu_a_without_a_header_byte_is_too_short() {
    let mut d = new_h264();
    match d.push(video_packet(1, 100, 0, true, vec![0x7c])) {
        Err(PayloadError::H264TooShort) => {}
        other => panic!("expected a too-short error, got {:?}", other.is_ok()),
    }
}

#[test]
fn oversized_access_units_hit_the_reassembly_bound() {
    let mut d = new_h264();
    let mut err = None;
    for seq in 0..600u16 {
        if let Err(e) = d.push(video_packet(seq, 100, 0, false, vec![0x01, seq as u8])) {
            err = Some(e);
            break;
        }
    }
    match err {
        Some(PayloadError::H264AccessUnitLimit) => {}
        _ => panic!("expected the access-unit limit to trip"),
    }
}

#[test]
fn a_truncated_sps_is_rejected() {
    let mut d = new_h264();
    let bad_sps = [0x67u8, 0x42]; // too short to parse
    let mut stap = vec![24u8];
    for nal in [&bad_sps[..], &PPS[..]] {
        stap.extend_from_slice(&(nal.len() as u16).to_be_bytes());
        stap.extend_from_slice(nal);
    }
    match d.push(video_packet(1, 100, 0, true, stap)) {
        Err(PayloadError::H264BadSps) => {}
        other => panic!("expected a bad-sps error, got {:?}", other.is_ok()),
    }
}
