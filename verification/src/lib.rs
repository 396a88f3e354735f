//! RTP reception and depacketization core for an RTSP client.
//!
//! The library ingests interleaved binary media messages, checks RTP/RTCP
//! framing and sequence/SSRC continuity, maps the wrapping 32-bit RTP clock
//! onto a monotonic 64-bit logical clock, and reassembles codec-specific
//! frames (H.264 access units, AAC access units, G.723 and fixed-rate audio,
//! ONVIF metadata messages). Sender reports are surfaced with their NTP
//! timestamps. Payload bytes are carried as shared slices of the received
//! buffer; the payload body itself is never copied on the single-packet paths.

use vstd::prelude::*;

pub mod aac;
pub mod buf;
pub mod codec;
pub mod g723;
pub mod h264;
pub mod onvif;
pub mod rtcp;
pub mod rtp;
pub mod simple_audio;
pub mod timeline;

verus! {

/// Identifies the transport connection packets arrived on. The I/O layer
/// assigns the identifier; the core only carries it into errors and items.
#[derive(Clone, Copy, PartialEq, Eq, Structural, Debug)]
pub struct ConnectionContext {
    pub id: u64,
}

/// Where in the RTSP data stream a message began: enough to find the bytes
/// in a packet capture.
#[derive(Clone, Copy, PartialEq, Eq, Structural, Debug)]
pub struct RtspMessageContext {
    /// Byte position of the message within the stream.
    pub pos: u64,
}

/// A monotonic timestamp in RTP clock units, expanded from the wrapping
/// 32-bit wire value by the per-stream [`timeline::Timeline`].
#[derive(Clone, Copy, PartialEq, Eq, Structural, Debug)]
pub struct Timestamp {
    /// 64-bit logical counter; never decreases on a stream.
    pub timestamp: u64,
    /// The stream's RTP clock rate in Hz.
    pub clock_rate: u32,
}

/// An NTP timestamp in the standard 64-bit fixed-point format.
#[derive(Clone, Copy, PartialEq, Eq, Structural, Debug)]
pub struct NtpTimestamp(pub u64);

/// The session-level options the core consults.
#[derive(Clone, Copy, PartialEq, Eq, Structural, Debug)]
pub struct SessionOptions {
    /// When set, packets whose SSRC does not match the latched one are
    /// dropped silently instead of ending the stream with an error.
    pub ignore_spurious_data: bool,
}

} // verus!
