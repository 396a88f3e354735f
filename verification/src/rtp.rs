//! RTP handling: framing sanitizer, wire-format parsing of the fixed RTP
//! header (RFC 3550 section 5.1), and the per-stream demarshaller that
//! checks SSRC continuity and sequence numbers and advances the timeline.

use vstd::prelude::*;

verus! {

use crate::buf::{bytes_at, bytes_len, bytes_seq, bytes_slice, bytes_advance};
use crate::timeline::{Timeline, TimelineError, advanced, wrap_sub};
use crate::{ConnectionContext, NtpTimestamp, RtspMessageContext, SessionOptions, Timestamp};

/// A received RTP packet.
pub struct Packet {
    pub ctx: RtspMessageContext,
    pub channel_id: u8,
    pub stream_id: usize,
    pub timestamp: Timestamp,
    pub ssrc: u32,
    pub sequence_number: u16,
    /// Number of skipped sequence numbers since the last packet on the same
    /// stream. For the first packet this counts from the expected sequence
    /// number the checker was created with, when one was given.
    pub loss: u16,
    pub mark: bool,
    /// Strictly less than 65 535 bytes; a shared view of the received buffer.
    pub payload: bytes::Bytes,
}

/// An RTCP sender report.
pub struct SenderReport {
    pub stream_id: usize,
    pub ctx: RtspMessageContext,
    pub timestamp: Timestamp,
    pub ntp_timestamp: NtpTimestamp,
}

/// One item the demarshaller can emit.
pub enum PacketItem {
    RtpPacket(Packet),
    SenderReport(SenderReport),
}

/// Errors of the demarshaller, grouped by the design's taxonomy.
pub enum PacketError {
    /// Malformed-frame kind: the RTP header could not be parsed. Carries the
    /// offending bytes and the expected next sequence number.
    RtspDataMessage {
        conn_ctx: ConnectionContext,
        msg_ctx: RtspMessageContext,
        channel_id: u8,
        stream_id: usize,
        expected_seq: Option<u16>,
        data: bytes::Bytes,
    },
    /// An error tied to a parsed packet.
    RtpPacket {
        conn_ctx: ConnectionContext,
        msg_ctx: RtspMessageContext,
        channel_id: u8,
        stream_id: usize,
        ssrc: u32,
        sequence_number: u16,
        reason: PacketReason,
    },
}

/// Why a parsed packet was refused.
pub enum PacketReason {
    /// Session-continuity kind: the SSRC differs from the latched one.
    WrongSsrc { expected: u32 },
    /// Session-continuity kind: a gap of more than half the sequence space,
    /// indistinguishable from an out-of-order packet.
    LargeLoss { expected_seq: u16 },
    /// Timeline-violation kind.
    Timeline(TimelineError),
    /// The packet carries no payload bytes.
    EmptyPayload,
}

/// The 16-bit big-endian value at `b[i..i + 2]`.
pub open spec fn be16(b: Seq<u8>, i: int) -> int {
    b[i] * 0x100 + b[i + 1]
}

/// The 32-bit big-endian value at `b[i..i + 4]`.
pub open spec fn be32(b: Seq<u8>, i: int) -> int {
    b[i] * 0x100_0000 + b[i + 1] * 0x1_0000 + b[i + 2] * 0x100 + b[i + 3]
}

/// A doubly-wrapped interleaved message: it begins with the interleaved
/// magic byte and bytes 2..4, read big-endian, fit as an inner length.
/// Genuine RTP/RTCP cannot begin with 0x24, whose version bits are 0.
pub open spec fn doubly_wrapped(b: Seq<u8>) -> bool {
    &&& b.len() > 4
    &&& b[0] == 0x24
    &&& be16(b, 2) <= b.len() - 4
}

/// The buffer after the framing sanitizer: a doubly-wrapped message loses
/// its outer four-byte interleaved header.
pub open spec fn sanitized(b: Seq<u8>) -> Seq<u8> {
    if doubly_wrapped(b) {
        b.skip(4)
    } else {
        b
    }
}

pub open spec fn rtp_version(b: Seq<u8>) -> u8 {
    b[0] >> 6
}

pub open spec fn rtp_has_padding(b: Seq<u8>) -> bool {
    (b[0] >> 5) & 1 == 1
}

pub open spec fn rtp_has_extension(b: Seq<u8>) -> bool {
    (b[0] >> 4) & 1 == 1
}

pub open spec fn rtp_csrc_count(b: Seq<u8>) -> u8 {
    b[0] & 0x0f
}

pub open spec fn rtp_mark(b: Seq<u8>) -> bool {
    b[1] >> 7 == 1
}

pub open spec fn rtp_seq(b: Seq<u8>) -> int {
    be16(b, 2)
}

pub open spec fn rtp_ts(b: Seq<u8>) -> int {
    be32(b, 4)
}

pub open spec fn rtp_ssrc(b: Seq<u8>) -> int {
    be32(b, 8)
}

/// Length of the fixed header plus the CSRC list.
pub open spec fn rtp_base_len(b: Seq<u8>) -> int {
    12 + 4 * rtp_csrc_count(b)
}

/// Length of the header including any extension, whose 16-bit word count
/// sits two bytes into the extension header.
pub open spec fn rtp_header_len(b: Seq<u8>) -> int {
    if rtp_has_extension(b) {
        rtp_base_len(b) + 4 + 4 * be16(b, rtp_base_len(b) + 2)
    } else {
        rtp_base_len(b)
    }
}

/// Number of padding bytes at the tail, counted by the final byte.
pub open spec fn rtp_pad_len(b: Seq<u8>) -> int {
    if rtp_has_padding(b) {
        b[b.len() - 1] as int
    } else {
        0
    }
}

/// A parseable RTP datagram: long enough for the fixed header, version 2,
/// a complete extension header when flagged, and a padding count that
/// leaves room for the header.
pub open spec fn rtp_valid(b: Seq<u8>) -> bool {
    &&& b.len() >= 12
    &&& rtp_version(b) == 2
    &&& b.len() >= rtp_base_len(b) + (if rtp_has_extension(b) {
        4int
    } else {
        0int
    })
    &&& (rtp_has_padding(b) ==> rtp_pad_len(b) >= 1)
    &&& rtp_header_len(b) + rtp_pad_len(b) <= b.len()
}

/// The payload bytes of a valid RTP datagram: everything between the
/// header and the padding.
pub open spec fn rtp_payload(b: Seq<u8>) -> Seq<u8> {
    b.subrange(rtp_header_len(b), b.len() - rtp_pad_len(b))
}

/// The header fields the demarshaller reads, with the payload's range.
pub struct RtpHeader {
    pub sequence_number: u16,
    pub timestamp: u32,
    pub ssrc: u32,
    pub mark: bool,
    pub payload_start: usize,
    pub payload_end: usize,
}

/// Reads the 16-bit big-endian value at `b[i..i + 2]`.
pub fn read_be16(b: &bytes::Bytes, i: usize) -> (r: u16)
    requires
        i + 2 <= bytes_seq(*b).len(),
        bytes_seq(*b).len() <= usize::MAX,
    ensures
        r == be16(bytes_seq(*b), i as int),
{
    let hi = bytes_at(b, i);
    let lo = bytes_at(b, i + 1);
    (hi as u16) * 0x100 + (lo as u16)
}

/// Reads the 32-bit big-endian value at `b[i..i + 4]`.
pub fn read_be32(b: &bytes::Bytes, i: usize) -> (r: u32)
    requires
        i + 4 <= bytes_seq(*b).len(),
        bytes_seq(*b).len() <= usize::MAX,
    ensures
        r == be32(bytes_seq(*b), i as int),
{
    let b0 = bytes_at(b, i);
    let b1 = bytes_at(b, i + 1);
    let b2 = bytes_at(b, i + 2);
    let b3 = bytes_at(b, i + 3);
    (b0 as u32) * 0x100_0000 + (b1 as u32) * 0x1_0000 + (b2 as u32) * 0x100 + (b3 as u32)
}

/// The framing sanitizer: strips the outer four bytes of a doubly-wrapped
/// interleaved message, as one camera model is known to send, and leaves
/// every other buffer untouched.
pub fn strip_double_interleaved(data: &mut bytes::Bytes)
    ensures
        bytes_seq(*final(data)) == sanitized(bytes_seq(*old(data))),
{
    let n = bytes_len(data);
    if n > 4 && bytes_at(data, 0) == 0x24 {
        let inner = read_be16(data, 2);
        if inner as usize <= n - 4 {
            bytes_advance(data, 4);
        }
    }
}

/// Parses the fixed RTP header, skipping CSRCs and any extension, and
/// locating the payload inside the buffer. Returns `None` exactly on the
/// buffers the wire format refuses.
pub fn parse_rtp_header(data: &bytes::Bytes) -> (r: Option<RtpHeader>)
    ensures
        match r {
            Some(h) => {
                &&& rtp_valid(bytes_seq(*data))
                &&& h.sequence_number == rtp_seq(bytes_seq(*data))
                &&& h.timestamp == rtp_ts(bytes_seq(*data))
                &&& h.ssrc == rtp_ssrc(bytes_seq(*data))
                &&& h.mark == rtp_mark(bytes_seq(*data))
                &&& h.payload_start == rtp_header_len(bytes_seq(*data))
                &&& h.payload_end == bytes_seq(*data).len() - rtp_pad_len(bytes_seq(*data))
                &&& h.payload_start <= h.payload_end
            },
            None => !rtp_valid(bytes_seq(*data)),
        },
{
    let n = bytes_len(data);
    if n < 12 {
        return None;
    }
    let b0 = bytes_at(data, 0);
    if b0 >> 6 != 2 {
        return None;
    }
    let cc = (b0 & 0x0f) as usize;
    let base: usize = 12 + 4 * cc;
    let has_ext = (b0 >> 4) & 1 == 1;
    if n < base + (if has_ext { 4 } else { 0 }) {
        return None;
    }
    let header_len: usize = if has_ext {
        let ext_words = read_be16(data, base + 2);
        base + 4 + 4 * (ext_words as usize)
    } else {
        base
    };
    let has_pad = (b0 >> 5) & 1 == 1;
    let pad: usize = if has_pad {
        bytes_at(data, n - 1) as usize
    } else {
        0
    };
    if has_pad && pad == 0 {
        return None;
    }
    if header_len > n || pad > n - header_len {
        return None;
    }
    let b1 = bytes_at(data, 1);
    Some(RtpHeader {
        sequence_number: read_be16(data, 2),
        timestamp: read_be32(data, 4),
        ssrc: read_be32(data, 8),
        mark: b1 >> 7 == 1,
        payload_start: header_len,
        payload_end: n - pad,
    })
}

/// RTP/RTCP demarshaller which ensures packets have the correct SSRC and
/// monotonically increasing sequence numbers. Loss is reported, not
/// prohibited, except for gaps of more than half the sequence space, which
/// cannot be told apart from reordering. The SSRC is latched from the first
/// accepted packet; a mid-session change is a hard error unless spurious
/// data is explicitly ignored.
pub struct StrictSequenceChecker {
    ssrc: Option<u32>,
    next_seq: Option<u16>,
}

/// Observable equality of two checker states.
pub open spec fn same_checker(a: StrictSequenceChecker, b: StrictSequenceChecker) -> bool {
    a.expected_ssrc() == b.expected_ssrc() && a.expected_seq() == b.expected_seq()
}

/// The gap the sequence checker attributes to a packet: the wraparound
/// distance from the expected sequence number, or zero when none was
/// expected yet.
pub open spec fn rtp_loss(expected: Option<u16>, seq: int) -> int {
    match expected {
        Some(e) => (seq - e) % 0x1_0000,
        None => 0,
    }
}

impl StrictSequenceChecker {
    /// The SSRC this stream is latched to, once one is.
    pub closed spec fn expected_ssrc(self) -> Option<u32> {
        self.ssrc
    }

    /// The next sequence number expected, once a packet was accepted or
    /// when one was given at construction.
    pub closed spec fn expected_seq(self) -> Option<u16> {
        self.next_seq
    }

    pub fn new(ssrc: Option<u32>, next_seq: Option<u16>) -> (r: Self)
        ensures
            r.expected_ssrc() == ssrc,
            r.expected_seq() == next_seq,
    {
        Self { ssrc, next_seq }
    }

    /// The latched SSRC, for the RTCP path.
    pub(crate) fn expected_ssrc_get(&self) -> (r: Option<u32>)
        ensures
            r == self.expected_ssrc(),
    {
        self.ssrc
    }

    /// Latches the SSRC, for the RTCP path.
    pub(crate) fn latch_ssrc(&mut self, ssrc: u32)
        ensures
            final(self).expected_ssrc() == Some(ssrc),
            final(self).expected_seq() == old(self).expected_seq(),
    {
        self.ssrc = Some(ssrc);
    }

    /// Demarshals one RTP message: sanitizes the framing, parses the
    /// header, checks SSRC and sequence continuity, advances the timeline,
    /// and emits the packet with its payload as a shared slice.
    pub fn rtp(
        &mut self,
        session_options: &SessionOptions,
        conn_ctx: &ConnectionContext,
        msg_ctx: &RtspMessageContext,
        timeline: &mut Timeline,
        channel_id: u8,
        stream_id: usize,
        data: bytes::Bytes,
    ) -> (r: Result<Option<PacketItem>, PacketError>)
        requires
            bytes_seq(data).len() <= 65535,
        ensures
            rtp_post(
                *old(self),
                *final(self),
                *old(timeline),
                *final(timeline),
                *session_options,
                *conn_ctx,
                *msg_ctx,
                channel_id,
                stream_id,
                bytes_seq(data),
                r,
            ),
    {
        let ghost input = bytes_seq(data);
        let mut data = data;
        strip_double_interleaved(&mut data);
        let header = match parse_rtp_header(&data) {
            Some(h) => h,
            None => {
                return Err(PacketError::RtspDataMessage {
                    conn_ctx: *conn_ctx,
                    msg_ctx: *msg_ctx,
                    channel_id,
                    stream_id,
                    expected_seq: self.next_seq,
                    data,
                });
            },
        };
        let sequence_number = header.sequence_number;
        let ssrc = header.ssrc;
        let loss: u16 = match self.next_seq {
            Some(e) => wrap_sub16(sequence_number, e),
            None => 0,
        };
        let ssrc_ok = match self.ssrc {
            Some(s) => s == ssrc,
            None => true,
        };
        if !ssrc_ok {
            if session_options.ignore_spurious_data {
                return Ok(None);
            } else {
                return Err(PacketError::RtpPacket {
                    conn_ctx: *conn_ctx,
                    msg_ctx: *msg_ctx,
                    channel_id,
                    stream_id,
                    ssrc,
                    sequence_number,
                    reason: PacketReason::WrongSsrc { expected: self.ssrc.unwrap() },
                });
            }
        }
        if loss >= 0x8000 {
            return Err(PacketError::RtpPacket {
                conn_ctx: *conn_ctx,
                msg_ctx: *msg_ctx,
                channel_id,
                stream_id,
                ssrc,
                sequence_number,
                reason: PacketReason::LargeLoss { expected_seq: self.next_seq.unwrap() },
            });
        }
        let timestamp = match timeline.advance_to(header.timestamp) {
            Ok(ts) => ts,
            Err(e) => {
                return Err(PacketError::RtpPacket {
                    conn_ctx: *conn_ctx,
                    msg_ctx: *msg_ctx,
                    channel_id,
                    stream_id,
                    ssrc,
                    sequence_number,
                    reason: PacketReason::Timeline(e),
                });
            },
        };
        self.ssrc = Some(ssrc);
        if header.payload_start == header.payload_end {
            return Err(PacketError::RtpPacket {
                conn_ctx: *conn_ctx,
                msg_ctx: *msg_ctx,
                channel_id,
                stream_id,
                ssrc,
                sequence_number,
                reason: PacketReason::EmptyPayload,
            });
        }
        let payload = bytes_slice(&data, header.payload_start, header.payload_end);
        self.next_seq = Some(wrap_add16(sequence_number, 1));
        Ok(Some(PacketItem::RtpPacket(Packet {
            ctx: *msg_ctx,
            channel_id,
            stream_id,
            timestamp,
            ssrc,
            sequence_number,
            loss,
            mark: header.mark,
            payload,
        })))
    }
}

/// What one `rtp` call does, as a relation between the states before and
/// after, the input bytes, and the result.
pub open spec fn rtp_post(
    pre: StrictSequenceChecker,
    post: StrictSequenceChecker,
    tl_pre: Timeline,
    tl_post: Timeline,
    opts: SessionOptions,
    cc: ConnectionContext,
    mc: RtspMessageContext,
    channel_id: u8,
    stream_id: usize,
    input: Seq<u8>,
    r: Result<Option<PacketItem>, PacketError>,
) -> bool {
    let s = sanitized(input);
    if !rtp_valid(s) {
        &&& (match r {
            Err(PacketError::RtspDataMessage {
                conn_ctx,
                msg_ctx,
                channel_id: ch,
                stream_id: st,
                expected_seq,
                data,
            }) => {
                &&& conn_ctx == cc
                &&& msg_ctx == mc
                &&& ch == channel_id
                &&& st == stream_id
                &&& expected_seq == pre.expected_seq()
                &&& bytes_seq(data) == s
            },
            _ => false,
        })
        &&& same_checker(post, pre)
        &&& tl_post == tl_pre
    } else {
        let seq = rtp_seq(s);
        let ssrc = rtp_ssrc(s);
        let loss = rtp_loss(pre.expected_seq(), seq);
        let mismatch = match pre.expected_ssrc() {
            Some(x) => x != ssrc,
            None => false,
        };
        if mismatch && opts.ignore_spurious_data {
            &&& r == Ok::<Option<PacketItem>, PacketError>(None)
            &&& same_checker(post, pre)
            &&& tl_post == tl_pre
        } else if mismatch {
            &&& rtp_err_is(r, cc, mc, channel_id, stream_id, ssrc, seq, PacketReason::WrongSsrc {
                expected: pre.expected_ssrc()->Some_0,
            })
            &&& same_checker(post, pre)
            &&& tl_post == tl_pre
        } else if loss >= 0x8000 {
            &&& rtp_err_is(r, cc, mc, channel_id, stream_id, ssrc, seq, PacketReason::LargeLoss {
                expected_seq: pre.expected_seq()->Some_0,
            })
            &&& same_checker(post, pre)
            &&& tl_post == tl_pre
        } else if tl_pre.advance_target(rtp_ts(s) as u32) > u64::MAX {
            &&& rtp_err_is(
                r,
                cc,
                mc,
                channel_id,
                stream_id,
                ssrc,
                seq,
                PacketReason::Timeline(TimelineError::Overflow { rtp_timestamp: rtp_ts(s) as u32 }),
            )
            &&& same_checker(post, pre)
            &&& tl_post == tl_pre
        } else {
            &&& tl_post == advanced(tl_pre, rtp_ts(s) as u32)
            &&& post.expected_ssrc() == Some(ssrc as u32)
            &&& if rtp_payload(s).len() == 0 {
                &&& rtp_err_is(
                    r,
                    cc,
                    mc,
                    channel_id,
                    stream_id,
                    ssrc,
                    seq,
                    PacketReason::EmptyPayload,
                )
                &&& post.expected_seq() == pre.expected_seq()
            } else {
                &&& post.expected_seq() == Some(((seq + 1) % 0x1_0000) as u16)
                &&& (match r {
                    Ok(Some(PacketItem::RtpPacket(p))) => {
                        &&& p.ctx == mc
                        &&& p.channel_id == channel_id
                        &&& p.stream_id == stream_id
                        &&& p.timestamp == (Timestamp {
                            timestamp: tl_pre.advance_target(rtp_ts(s) as u32) as u64,
                            clock_rate: tl_pre.clock_rate,
                        })
                        &&& p.ssrc == ssrc
                        &&& p.sequence_number == seq
                        &&& p.loss == loss
                        &&& p.mark == rtp_mark(s)
                        &&& bytes_seq(p.payload) == rtp_payload(s)
                    },
                    _ => false,
                })
            }
        }
    }
}

/// Whether `r` is the packet error with exactly these fields.
pub open spec fn rtp_err_is(
    r: Result<Option<PacketItem>, PacketError>,
    cc: ConnectionContext,
    mc: RtspMessageContext,
    channel_id: u8,
    stream_id: usize,
    ssrc: int,
    seq: int,
    reason: PacketReason,
) -> bool {
    match r {
        Err(PacketError::RtpPacket {
            conn_ctx,
            msg_ctx,
            channel_id: ch,
            stream_id: st,
            ssrc: sr,
            sequence_number: sq,
            reason: re,
        }) => {
            &&& conn_ctx == cc
            &&& msg_ctx == mc
            &&& ch == channel_id
            &&& st == stream_id
            &&& sr == ssrc
            &&& sq == seq
            &&& re == reason
        },
        _ => false,
    }
}

/// The 16-bit wraparound distance from `from` to `to`.
pub fn wrap_sub16(to: u16, from: u16) -> (r: u16)
    ensures
        r as int == (to - from) % 0x1_0000,
{
    if to >= from {
        proof {
            vstd::arithmetic::div_mod::lemma_small_mod((to - from) as nat, 0x1_0000nat);
        }
        to - from
    } else {
        let r: u16 = u16::MAX - (from - to) + 1;
        proof {
            assert(r as int == to as int - from as int + 0x1_0000);
            vstd::arithmetic::div_mod::lemma_mod_add_multiples_vanish(
                to as int - from as int,
                0x1_0000,
            );
            vstd::arithmetic::div_mod::lemma_small_mod(r as nat, 0x1_0000nat);
        }
        r
    }
}

/// Addition modulo 2^16.
pub fn wrap_add16(a: u16, b: u16) -> (r: u16)
    ensures
        r as int == (a + b) % 0x1_0000,
{
    if a <= u16::MAX - b {
        proof {
            vstd::arithmetic::div_mod::lemma_small_mod((a + b) as nat, 0x1_0000nat);
        }
        a + b
    } else {
        let r: u16 = b - (u16::MAX - a) - 1;
        proof {
            assert(r as int == a as int + b as int - 0x1_0000);
            vstd::arithmetic::div_mod::lemma_mod_sub_multiples_vanish(
                a as int + b as int,
                0x1_0000,
            );
            vstd::arithmetic::div_mod::lemma_small_mod(r as nat, 0x1_0000nat);
        }
        r
    }
}


/// Law: the framing sanitizer makes a doubly-wrapped message behave
/// exactly like its inner bytes. Genuine RTP cannot begin with the
/// interleaved magic byte — its version bits would read zero — so when
/// the inner bytes are valid RTP, stripping once reaches a fixed point,
/// and `rtp`, whose contract depends on the input only through
/// [`sanitized`], treats the wrapped and the bare message alike.
pub proof fn lemma_double_wrap_transparent(input: Seq<u8>)
    requires
        doubly_wrapped(input),
        rtp_valid(input.skip(4)),
    ensures
        sanitized(input) == input.skip(4),
        sanitized(input.skip(4)) == input.skip(4),
        sanitized(input) == sanitized(input.skip(4)),
{
    let rest = input.skip(4);
    assert(rest[0] >> 6 == 2);
    if rest[0] == 0x24 {
        assert((0x24u8 >> 6) == 0) by (bit_vector);
    }
    assert(!doubly_wrapped(rest));
}

/// Law: replaying an already-accepted packet is rejected. Once the checker
/// expects the sequence number after `seq`, a packet carrying `seq` again
/// computes a wraparound gap of 0xFFFF — more than half the sequence space
/// — and `rtp` fails with the large-loss continuity error rather than
/// emitting the packet twice.
pub proof fn lemma_replay_rejected(
    pre: StrictSequenceChecker,
    post: StrictSequenceChecker,
    tl_pre: Timeline,
    tl_post: Timeline,
    opts: SessionOptions,
    cc: ConnectionContext,
    mc: RtspMessageContext,
    channel_id: u8,
    stream_id: usize,
    input: Seq<u8>,
    r: Result<Option<PacketItem>, PacketError>,
)
    requires
        rtp_post(pre, post, tl_pre, tl_post, opts, cc, mc, channel_id, stream_id, input, r),
        rtp_valid(sanitized(input)),
        pre.expected_seq() == Some((((rtp_seq(sanitized(input)) + 1) % 0x1_0000) as u16)),
        match pre.expected_ssrc() {
            Some(x) => x == rtp_ssrc(sanitized(input)),
            None => true,
        },
    ensures
        rtp_err_is(
            r,
            cc,
            mc,
            channel_id,
            stream_id,
            rtp_ssrc(sanitized(input)),
            rtp_seq(sanitized(input)),
            PacketReason::LargeLoss { expected_seq: pre.expected_seq()->Some_0 },
        ),
        same_checker(post, pre),
        tl_post == tl_pre,
{
    let s = sanitized(input);
    let seq = rtp_seq(s);
    let e = (seq + 1) % 0x1_0000;
    vstd::arithmetic::div_mod::lemma_mod_bound(seq + 1, 0x1_0000);
    assert(0 <= seq <= 0xffff);
    if seq < 0xffff {
        vstd::arithmetic::div_mod::lemma_small_mod((seq + 1) as nat, 0x1_0000nat);
        assert(e == seq + 1);
        vstd::arithmetic::div_mod::lemma_mod_add_multiples_vanish(seq - e, 0x1_0000);
        vstd::arithmetic::div_mod::lemma_small_mod(0xffffnat, 0x1_0000nat);
        assert((seq - e) % 0x1_0000 == 0xffff);
    } else {
        assert(seq == 0xffff);
        vstd::arithmetic::div_mod::lemma_mod_self_0(0x1_0000);
        assert(e == 0);
        vstd::arithmetic::div_mod::lemma_small_mod(0xffffnat, 0x1_0000nat);
        assert((seq - e) % 0x1_0000 == 0xffff);
    }
    assert(rtp_loss(pre.expected_seq(), seq) == 0xffff);
}

} // verus!
