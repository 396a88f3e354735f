use bytes::Bytes;
use rtp_media::rtp::{PacketError, PacketItem, PacketReason, StrictSequenceChecker};
use rtp_media::timeline::Timeline;
use rtp_media::{ConnectionContext, RtspMessageContext, SessionOptions};

fn rtp_datagram(seq: u16, ts: u32, ssrc: u32, mark: bool, payload: &[u8]) -> Vec<u8> {
    let mut v = vec![0x80u8, if mark { 0x80 } else { 0x00 }];
    v.extend_from_slice(&seq.to_be_bytes());
    v.extend_from_slice(&ts.to_be_bytes());
    v.extend_from_slice(&ssrc.to_be_bytes());
    v.extend_from_slice(payload);
    v
}

fn opts() -> SessionOptions {
    SessionOptions { ignore_spurious_data: false }
}

fn conn() -> ConnectionContext {
    ConnectionContext { id: 7 }
}

fn msg(pos: u64) -> RtspMessageContext {
    RtspMessageContext { pos }
}

fn push_rtp(
    checker: &mut StrictSequenceChecker,
    timeline: &mut Timeline,
    options: &SessionOptions,
    data: Vec<u8>,
) -> Result<Option<PacketItem>, PacketError> {
    checker.rtp(options, &conn(), &msg(0), timeline, 0, 0, Bytes::from(data))
}

fn expect_packet(r: Result<Option<PacketItem>, PacketError>) -> rtp_media::rtp::Packet {
    match r {
        Ok(Some(PacketItem::RtpPacket(p))) => p,
        _ => panic!("expected an RTP packet item"),
    }
}

#[test]
fn rtp_parses_a_simple_packet() {
    let mut c = StrictSequenceChecker::new(None, None);
    let mut tl = Timeline::new(8000, None);
    let o = opts();
    let p = expect_packet(push_rtp(&mut c, &mut tl, &o, rtp_datagram(10, 160, 0xabcd, true, &[1, 2, 3])));
    assert_eq!(p.sequence_number, 10);
    assert_eq!(p.ssrc, 0xabcd);
    assert_eq!(p.loss, 0);
    assert!(p.mark);
    assert_eq!(&p.payload[..], &[1, 2, 3]);
    assert_eq!(p.timestamp.timestamp, 160);
}

#[test]
fn rtp_skips_csrcs_extension_and_padding() {
    // one CSRC, a one-word extension, and three padding bytes
    let mut v = vec![0xb1u8, 0x00];
    v.extend_from_slice(&5u16.to_be_bytes());
    v.extend_from_slice(&100u32.to_be_bytes());
    v.extend_from_slice(&0x1234u32.to_be_bytes());
    v.extend_from_slice(&0xccccccccu32.to_be_bytes()); // CSRC
    v.extend_from_slice(&[0xbe, 0xde, 0x00, 0x01, 9, 9, 9, 9]); // extension
    v.extend_from_slice(&[0x55, 0x66]); // payload
    v.extend_from_slice(&[0, 0, 3]); // padding, counted by its last byte
    let mut c = StrictSequenceChecker::new(None, None);
    let mut tl = Timeline::new(8000, None);
    let o = opts();
    let p = expect_packet(push_rtp(&mut c, &mut tl, &o, v));
    assert_eq!(&p.payload[..], &[0x55, 0x66]);
}

#[test]
fn sequence_wraparound_to_zero_counts_one_loss() {
    let mut c = StrictSequenceChecker::new(None, None);
    let mut tl = Timeline::new(8000, None);
    let o = opts();
    let p = expect_packet(push_rtp(&mut c, &mut tl, &o, rtp_datagram(0xfffe, 0, 1, false, &[0])));
    assert_eq!(p.loss, 0);
    // 0xffff was lost; 0x0000 arrives right after 0xfffe
    let p = expect_packet(push_rtp(&mut c, &mut tl, &o, rtp_datagram(0x0000, 160, 1, false, &[0])));
    assert_eq!(p.loss, 1);
}

#[test]
fn replaying_a_packet_is_rejected_as_out_of_order() {
    let mut c = StrictSequenceChecker::new(None, None);
    let mut tl = Timeline::new(8000, None);
    let o = opts();
    let d = rtp_datagram(42, 160, 1, false, &[0]);
    expect_packet(push_rtp(&mut c, &mut tl, &o, d.clone()));
    match push_rtp(&mut c, &mut tl, &o, d) {
        Err(PacketError::RtpPacket { reason: PacketReason::LargeLoss { expected_seq }, .. }) => {
            assert_eq!(expected_seq, 43)
        }
        other => panic!("expected a large-loss error, got {:?}", other.is_ok()),
    }
}

#[test]
fn large_sequence_gap_is_rejected() {
    let mut c = StrictSequenceChecker::new(None, None);
    let mut tl = Timeline::new(8000, None);
    let o = opts();
    expect_packet(push_rtp(&mut c, &mut tl, &o, rtp_datagram(0x0000, 0, 1, false, &[0])));
    match push_rtp(&mut c, &mut tl, &o, rtp_datagram(0x8001, 160, 1, false, &[0])) {
        Err(PacketError::RtpPacket { reason: PacketReason::LargeLoss { .. }, .. }) => {}
        other => panic!("expected a large-loss error, got {:?}", other.is_ok()),
    }
}

#[test]
fn ssrc_mismatch_without_ignore_is_an_error() {
    let mut c = StrictSequenceChecker::new(None, None);
    let mut tl = Timeline::new(8000, None);
    let o = opts();
    expect_packet(push_rtp(&mut c, &mut tl, &o, rtp_datagram(1, 0, 0x1111, false, &[0])));
    match push_rtp(&mut c, &mut tl, &o, rtp_datagram(2, 160, 0x2222, false, &[0])) {
        Err(PacketError::RtpPacket { reason: PacketReason::WrongSsrc { expected }, ssrc, .. }) => {
            assert_eq!(expected, 0x1111);
            assert_eq!(ssrc, 0x2222);
        }
        other => panic!("expected a wrong-ssrc error, got {:?}", other.is_ok()),
    }
}

#[test]
fn ssrc_mismatch_with_ignore_drops_silently() {
    let mut c = StrictSequenceChecker::new(None, None);
    let mut tl = Timeline::new(8000, None);
    let o = SessionOptions { ignore_spurious_data: true };
    expect_packet(push_rtp(&mut c, &mut tl, &o, rtp_datagram(1, 0, 0x1111, false, &[0])));
    match push_rtp(&mut c, &mut tl, &o, rtp_datagram(2, 160, 0x2222, false, &[0])) {
        Ok(None) => {}
        other => panic!("expected a silent drop, got {:?}", other.is_ok()),
    }
    // the stream goes on under the latched SSRC
    let p = expect_packet(push_rtp(&mut c, &mut tl, &o, rtp_datagram(2, 160, 0x1111, false, &[0])));
    assert_eq!(p.sequence_number, 2);
}

#[test]
fn double_wrapped_interleaved_header_is_stripped() {
    // 0x24, channel, and a 16-byte inner length wrap a valid 16-byte packet
    let inner = rtp_datagram(7, 100, 5, false, &[0xaa, 0xbb, 0xcc, 0xdd]);
    assert_eq!(inner.len(), 16);
    let mut outer = vec![0x24u8, 0x00, 0x00, 0x10];
    outer.extend_from_slice(&inner);
    let mut c1 = StrictSequenceChecker::new(None, None);
    let mut c2 = StrictSequenceChecker::new(None, None);
    let mut tl1 = Timeline::new(8000, None);
    let mut tl2 = Timeline::new(8000, None);
    let o = opts();
    let a = expect_packet(push_rtp(&mut c1, &mut tl1, &o, outer));
    let b = expect_packet(push_rtp(&mut c2, &mut tl2, &o, inner));
    assert_eq!(a.sequence_number, b.sequence_number);
    assert_eq!(a.ssrc, b.ssrc);
    assert_eq!(&a.payload[..], &b.payload[..]);
}

#[test]
fn first_packet_loss_counts_from_a_preset_sequence_number() {
    let mut c = StrictSequenceChecker::new(None, Some(5));
    let mut tl = Timeline::new(8000, None);
    let o = opts();
    let p = expect_packet(push_rtp(&mut c, &mut tl, &o, rtp_datagram(8, 0, 1, false, &[0])));
    assert_eq!(p.loss, 3);
}

#[test]
fn preset_ssrc_is_enforced_from_the_first_packet() {
    let mut c = StrictSequenceChecker::new(Some(0x9999), None);
    let mut tl = Timeline::new(8000, None);
    let o = opts();
    match push_rtp(&mut c, &mut tl, &o, rtp_datagram(1, 0, 0x1234, false, &[0])) {
        Err(PacketError::RtpPacket { reason: PacketReason::WrongSsrc { expected }, .. }) => {
            assert_eq!(expected, 0x9999)
        }
        other => panic!("expected a wrong-ssrc error, got {:?}", other.is_ok()),
    }
}

#[test]
fn malformed_header_is_a_data_message_error() {
    let mut c = StrictSequenceChecker::new(None, None);
    let mut tl = Timeline::new(8000, None);
    let o = opts();
    match push_rtp(&mut c, &mut tl, &o, vec![0x80, 0x00, 0x00]) {
        Err(PacketError::RtspDataMessage { .. }) => {}
        other => panic!("expected a malformed-frame error, got {:?}", other.is_ok()),
    }
    // wrong version byte
    match push_rtp(&mut c, &mut tl, &o, rtp_datagram(1, 0, 1, false, &[0]).split_off(1)) {
        Err(PacketError::RtspDataMessage { .. }) => {}
        other => panic!("expected a malformed-frame error, got {:?}", other.is_ok()),
    }
}

#[test]
fn empty_payload_is_rejected() {
    let mut c = StrictSequenceChecker::new(None, None);
    let mut tl = Timeline::new(8000, None);
    let o = opts();
    match push_rtp(&mut c, &mut tl, &o, rtp_datagram(1, 0, 1, false, &[])) {
        Err(PacketError::RtpPacket { reason: PacketReason::EmptyPayload, .. }) => {}
        other => panic!("expected an empty-payload error, got {:?}", other.is_ok()),
    }
}
