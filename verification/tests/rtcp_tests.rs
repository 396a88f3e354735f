use bytes::Bytes;
use rtp_media::rtcp::RtcpError;
use rtp_media::rtp::{PacketItem, StrictSequenceChecker};
use rtp_media::timeline::Timeline;
use rtp_media::{NtpTimestamp, RtspMessageContext, SessionOptions};

fn sender_report(ssrc: u32, ntp: u64, rtp_ts: u32) -> Vec<u8> {
    let mut v = vec![0x80u8, 200, 0x00, 0x06];
    v.extend_from_slice(&ssrc.to_be_bytes());
    v.extend_from_slice(&ntp.to_be_bytes());
    v.extend_from_slice(&rtp_ts.to_be_bytes());
    v.extend_from_slice(&0u32.to_be_bytes()); // packet count
    v.extend_from_slice(&0u32.to_be_bytes()); // octet count
    v
}

fn receiver_report(ssrc: u32) -> Vec<u8> {
    let mut v = vec![0x80u8, 201, 0x00, 0x01];
    v.extend_from_slice(&ssrc.to_be_bytes());
    v
}

#[test]
fn sender_report_places_without_moving_the_timeline() {
    let mut c = StrictSequenceChecker::new(Some(0x42), None);
    let mut tl = Timeline::new(90000, None);
    tl.advance_to(10_000).unwrap();
    let o = SessionOptions { ignore_spurious_data: false };
    let data = sender_report(0x42, 0x0102_0304_0506_0708, 9_100);
    let r = c.rtcp(&o, &RtspMessageContext { pos: 3 }, &mut tl, 2, Bytes::from(data)).unwrap();
    match r {
        Some(PacketItem::SenderReport(sr)) => {
            assert_eq!(sr.stream_id, 2);
            assert_eq!(sr.ntp_timestamp, NtpTimestamp(0x0102_0304_0506_0708));
            // the report references a moment 900 clock units in the past
            assert_eq!(sr.timestamp.timestamp, 9_100);
            assert_eq!(sr.timestamp.clock_rate, 90000);
        }
        _ => panic!("expected a sender report"),
    }
    // the timeline state is untouched: the next advance behaves as if the
    // report had never been placed
    let t = tl.advance_to(10_500).unwrap();
    assert_eq!(t.timestamp, 10_500);
}

#[test]
fn sender_report_must_be_first_in_the_compound() {
    let mut c = StrictSequenceChecker::new(Some(0x42), None);
    let mut tl = Timeline::new(90000, None);
    tl.advance_to(0).unwrap();
    let o = SessionOptions { ignore_spurious_data: false };
    let mut data = receiver_report(0x42);
    data.extend_from_slice(&sender_report(0x42, 1, 0));
    match c.rtcp(&o, &RtspMessageContext { pos: 0 }, &mut tl, 0, Bytes::from(data)) {
        Err(RtcpError::SrMustBeFirst) => {}
        other => panic!("expected the must-be-first error, got {:?}", other.is_ok()),
    }
}

#[test]
fn unknown_rtcp_packet_types_are_skipped() {
    let mut c = StrictSequenceChecker::new(Some(0x42), None);
    let mut tl = Timeline::new(90000, None);
    let o = SessionOptions { ignore_spurious_data: false };
    let data = receiver_report(0x42);
    let r = c.rtcp(&o, &RtspMessageContext { pos: 0 }, &mut tl, 0, Bytes::from(data)).unwrap();
    assert!(r.is_none());
}

#[test]
fn rtcp_ssrc_mismatch_is_an_error_without_ignore() {
    let mut c = StrictSequenceChecker::new(Some(0x42), None);
    let mut tl = Timeline::new(90000, None);
    tl.advance_to(0).unwrap();
    let o = SessionOptions { ignore_spurious_data: false };
    let data = sender_report(0x43, 1, 0);
    match c.rtcp(&o, &RtspMessageContext { pos: 0 }, &mut tl, 0, Bytes::from(data)) {
        Err(RtcpError::WrongSsrc { expected, got }) => {
            assert_eq!(expected, 0x42);
            assert_eq!(got, 0x43);
        }
        other => panic!("expected a wrong-ssrc error, got {:?}", other.is_ok()),
    }
    let o = SessionOptions { ignore_spurious_data: true };
    let data = sender_report(0x43, 1, 0);
    let r = c.rtcp(&o, &RtspMessageContext { pos: 0 }, &mut tl, 0, Bytes::from(data)).unwrap();
    assert!(r.is_none());
}

#[test]
fn truncated_rtcp_is_malformed() {
    let mut c = StrictSequenceChecker::new(None, None);
    let mut tl = Timeline::new(90000, None);
    let o = SessionOptions { ignore_spurious_data: false };
    let mut data = sender_report(0x42, 1, 0);
    data.truncate(20);
    match c.rtcp(&o, &RtspMessageContext { pos: 0 }, &mut tl, 0, Bytes::from(data)) {
        Err(RtcpError::Malformed) => {}
        other => panic!("expected a malformed error, got {:?}", other.is_ok()),
    }
}
