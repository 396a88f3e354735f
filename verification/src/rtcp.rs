//! RTCP compound-packet handling. Only sender reports (payload type 200)
//! are interpreted — their SSRC, NTP timestamp and RTP timestamp; every
//! other packet type is skipped after a framing check.

use vstd::prelude::*;

verus! {

use crate::buf::{bytes_at, bytes_len, bytes_seq};
use crate::rtp::{be16, be32, same_checker, PacketItem, SenderReport, StrictSequenceChecker};
use crate::timeline::{Timeline, TimelineError};
use crate::{NtpTimestamp, RtspMessageContext, SessionOptions, Timestamp};

/// Errors of the RTCP path.
#[derive(Debug, PartialEq, Eq)]
pub enum RtcpError {
    /// Malformed-frame kind: a packet of the compound could not be parsed.
    Malformed,
    /// A sender report that is not the first packet of its compound.
    SrMustBeFirst,
    /// Timeline-violation kind: the report's RTP timestamp could not be
    /// placed.
    Timeline(TimelineError),
    /// Session-continuity kind: the report's SSRC differs from the latched
    /// one.
    WrongSsrc { expected: u32, got: u32 },
}

/// The 64-bit big-endian value at `b[i..i + 8]`.
pub open spec fn be64(b: Seq<u8>, i: int) -> int {
    be32(b, i) * 0x1_0000_0000 + be32(b, i + 4)
}

/// The payload type of the RTCP packet at offset `o`.
pub open spec fn rtcp_pt(b: Seq<u8>, o: int) -> int {
    b[o + 1] as int
}

/// The total length in bytes of the RTCP packet at offset `o`: its 16-bit
/// word count plus one, times four.
pub open spec fn rtcp_total(b: Seq<u8>, o: int) -> int {
    4 * (be16(b, o + 2) + 1)
}

/// A parseable RTCP packet at offset `o`: room for its four-byte header,
/// version 2, a declared length that fits the buffer, and — for a sender
/// report — room for the fields interpreted here.
pub open spec fn rtcp_valid_at(b: Seq<u8>, o: int) -> bool {
    &&& o + 4 <= b.len()
    &&& b[o] >> 6 == 2
    &&& o + rtcp_total(b, o) <= b.len()
    &&& (rtcp_pt(b, o) == 200 ==> rtcp_total(b, o) >= 28)
}

/// What a left-to-right scan of the packets from offset `o` runs into
/// first: the end of the buffer, a malformed packet, or a sender report.
pub enum ScanOutcome {
    AllValid,
    Malformed,
    SrFound,
}

/// Scans the compound from offset `o` for the first offense.
pub open spec fn scan_from(b: Seq<u8>, o: int) -> ScanOutcome
    decreases b.len() - o,
{
    if o >= b.len() {
        ScanOutcome::AllValid
    } else if !rtcp_valid_at(b, o) {
        ScanOutcome::Malformed
    } else if rtcp_pt(b, o) == 200 {
        ScanOutcome::SrFound
    } else {
        scan_from(b, o + rtcp_total(b, o))
    }
}

/// Parses the framing of the RTCP packet at offset `o`, returning its
/// payload type and total length.
pub fn parse_rtcp_at(data: &bytes::Bytes, o: usize) -> (r: Option<(u8, usize)>)
    requires
        o <= bytes_seq(*data).len() <= usize::MAX,
    ensures
        match r {
            Some((pt, total)) => {
                &&& rtcp_valid_at(bytes_seq(*data), o as int)
                &&& pt == rtcp_pt(bytes_seq(*data), o as int)
                &&& total == rtcp_total(bytes_seq(*data), o as int)
            },
            None => !rtcp_valid_at(bytes_seq(*data), o as int),
        },
{
    let n = bytes_len(data);
    if n - o < 4 {
        return None;
    }
    if bytes_at(data, o) >> 6 != 2 {
        return None;
    }
    let pt = bytes_at(data, o + 1);
    let words = crate::rtp::read_be16(data, o + 2);
    let total: usize = 4 * (words as usize + 1);
    if total > n - o {
        return None;
    }
    if pt == 200 && total < 28 {
        return None;
    }
    Some((pt, total))
}

impl StrictSequenceChecker {
    /// Demarshals one compound RTCP message. Only a sender report yields an
    /// item, and it must be the first packet of the compound; its timestamp
    /// is placed on the timeline without moving it — the timeline is
    /// returned exactly as it was.
    #[verifier::loop_isolation(false)]
    pub fn rtcp(
        &mut self,
        session_options: &SessionOptions,
        msg_ctx: &RtspMessageContext,
        timeline: &mut Timeline,
        stream_id: usize,
        data: bytes::Bytes,
    ) -> (r: Result<Option<PacketItem>, RtcpError>)
        ensures
            *final(timeline) == *old(timeline),
            rtcp_post(
                *old(self),
                *final(self),
                *old(timeline),
                *session_options,
                *msg_ctx,
                stream_id,
                bytes_seq(data),
                r,
            ),
    {
        let ghost b = bytes_seq(data);
        let n = bytes_len(&data);
        if n == 0 {
            return Ok(None);
        }
        let (pt0, total0) = match parse_rtcp_at(&data, 0) {
            Some(x) => x,
            None => {
                return Err(RtcpError::Malformed);
            },
        };
        let mut sr: Option<SenderReport> = None;
        if pt0 == 200 {
            let rtp_ts = crate::rtp::read_be32(&data, 16);
            let timestamp = match timeline.place(rtp_ts) {
                Ok(ts) => ts,
                Err(e) => {
                    return Err(RtcpError::Timeline(e));
                },
            };
            let ssrc = crate::rtp::read_be32(&data, 4);
            let mismatch = match self.expected_ssrc_get() {
                Some(s) => s != ssrc,
                None => false,
            };
            if mismatch {
                if session_options.ignore_spurious_data {
                    return Ok(None);
                } else {
                    return Err(RtcpError::WrongSsrc {
                        expected: self.expected_ssrc_get().unwrap(),
                        got: ssrc,
                    });
                }
            }
            self.latch_ssrc(ssrc);
            let ntp_hi = crate::rtp::read_be32(&data, 8);
            let ntp_lo = crate::rtp::read_be32(&data, 12);
            let ntp: u64 = (ntp_hi as u64) * 0x1_0000_0000 + (ntp_lo as u64);
            sr = Some(SenderReport {
                stream_id,
                ctx: *msg_ctx,
                timestamp,
                ntp_timestamp: NtpTimestamp(ntp),
            });
        }
        let mut o: usize = total0;
        while o < n
            invariant
                total0 <= o <= n,
                n == b.len() <= usize::MAX,
                b == bytes_seq(data),
                scan_from(b, total0 as int) == scan_from(b, o as int),
            decreases n - o,
        {
            match parse_rtcp_at(&data, o) {
                None => {
                    return Err(RtcpError::Malformed);
                },
                Some((pt, total)) => {
                    if pt == 200 {
                        return Err(RtcpError::SrMustBeFirst);
                    }
                    o = o + total;
                },
            }
        }
        match sr {
            Some(s) => Ok(Some(PacketItem::SenderReport(s))),
            None => Ok(None),
        }
    }
}

/// What one `rtcp` call does, as a relation between the checker states,
/// the (unchanged) timeline, the input bytes, and the result.
pub open spec fn rtcp_post(
    pre: StrictSequenceChecker,
    post: StrictSequenceChecker,
    tl: Timeline,
    opts: SessionOptions,
    mc: RtspMessageContext,
    stream_id: usize,
    b: Seq<u8>,
    r: Result<Option<PacketItem>, RtcpError>,
) -> bool {
    if b.len() == 0 {
        &&& r == Ok::<Option<PacketItem>, RtcpError>(None)
        &&& same_checker(post, pre)
    } else if !rtcp_valid_at(b, 0) {
        &&& r == Err::<Option<PacketItem>, RtcpError>(RtcpError::Malformed)
        &&& same_checker(post, pre)
    } else if rtcp_pt(b, 0) == 200 {
        let ssrc = be32(b, 4);
        let ntp = be64(b, 8);
        let ts32 = be32(b, 16) as u32;
        let mismatch = match pre.expected_ssrc() {
            Some(x) => x != ssrc,
            None => false,
        };
        if tl.place_target(ts32) < 0 {
            &&& r == Err::<Option<PacketItem>, RtcpError>(
                RtcpError::Timeline(TimelineError::BeforeStart { rtp_timestamp: ts32 }),
            )
            &&& same_checker(post, pre)
        } else if tl.place_target(ts32) > u64::MAX {
            &&& r == Err::<Option<PacketItem>, RtcpError>(
                RtcpError::Timeline(TimelineError::Overflow { rtp_timestamp: ts32 }),
            )
            &&& same_checker(post, pre)
        } else if mismatch && opts.ignore_spurious_data {
            &&& r == Ok::<Option<PacketItem>, RtcpError>(None)
            &&& same_checker(post, pre)
        } else if mismatch {
            &&& r == Err::<Option<PacketItem>, RtcpError>(
                RtcpError::WrongSsrc { expected: pre.expected_ssrc()->Some_0, got: ssrc as u32 },
            )
            &&& same_checker(post, pre)
        } else {
            &&& post.expected_ssrc() == Some(ssrc as u32)
            &&& post.expected_seq() == pre.expected_seq()
            &&& match scan_from(b, rtcp_total(b, 0)) {
                ScanOutcome::AllValid => r == Ok::<Option<PacketItem>, RtcpError>(
                    Some(
                        PacketItem::SenderReport(
                            SenderReport {
                                stream_id,
                                ctx: mc,
                                timestamp: Timestamp {
                                    timestamp: tl.place_target(ts32) as u64,
                                    clock_rate: tl.clock_rate,
                                },
                                ntp_timestamp: NtpTimestamp(ntp as u64),
                            },
                        ),
                    ),
                ),
                ScanOutcome::Malformed => r == Err::<Option<PacketItem>, RtcpError>(
                    RtcpError::Malformed,
                ),
                ScanOutcome::SrFound => r == Err::<Option<PacketItem>, RtcpError>(
                    RtcpError::SrMustBeFirst,
                ),
            }
        }
    } else {
        &&& same_checker(post, pre)
        &&& match scan_from(b, rtcp_total(b, 0)) {
            ScanOutcome::AllValid => r == Ok::<Option<PacketItem>, RtcpError>(None),
            ScanOutcome::Malformed => r == Err::<Option<PacketItem>, RtcpError>(
                RtcpError::Malformed,
            ),
            ScanOutcome::SrFound => r == Err::<Option<PacketItem>, RtcpError>(
                RtcpError::SrMustBeFirst,
            ),
        }
    }
}

} // verus!
