//! G.723.1 audio (RFC 3551 section 4.5.3): one RTP packet is one
//! 240-sample frame, and the payload length fixes the two low header bits.

use vstd::prelude::*;

verus! {

use crate::buf::{bytes_at, bytes_len, bytes_new, bytes_seq};
use crate::codec::{AudioFrame, AudioParameters, CodecItem, ConfigError, Parameters, PayloadError};
use crate::rtp::Packet;

/// The only clock rate G.723 is defined for.
pub const FIXED_CLOCK_RATE: u32 = 8_000;

/// A valid G.723 payload: 24 bytes with header bits 0b00 (active speech),
/// 20 bytes with 0b01 (low-rate speech), or 4 bytes with 0b10 (SID).
pub open spec fn g723_valid(p: Seq<u8>) -> bool {
    ||| (p.len() == 24 && p[0] & 0b11 == 0b00)
    ||| (p.len() == 20 && p[0] & 0b11 == 0b01)
    ||| (p.len() == 4 && p[0] & 0b11 == 0b10)
}

/// G.723 depacketizer: passes each valid packet through as one audio
/// frame of 240 samples.
pub struct Depacketizer {
    pending: Option<AudioFrame>,
}

impl Depacketizer {
    /// The frame waiting to be pulled, if any.
    pub closed spec fn pending_frame(self) -> Option<AudioFrame> {
        self.pending
    }

    /// Creates a new depacketizer; fails on any clock rate but 8000.
    pub fn new(clock_rate: u32) -> (r: Result<Self, ConfigError>)
        ensures
            match r {
                Ok(d) => clock_rate == FIXED_CLOCK_RATE && d.pending_frame() is None,
                Err(e) => {
                    &&& clock_rate != FIXED_CLOCK_RATE
                    &&& e == (ConfigError::G723ClockRate { clock_rate })
                },
            },
    {
        if clock_rate != FIXED_CLOCK_RATE {
            return Err(ConfigError::G723ClockRate { clock_rate });
        }
        Ok(Self { pending: None })
    }

    /// The stream's parameters: the fixed clock rate, a fixed frame length
    /// of 240, and no extra data.
    pub fn parameters(&self) -> (r: Option<Parameters>)
        ensures
            match r {
                Some(Parameters::Audio(a)) => {
                    &&& a.rfc6381_codec is None
                    &&& a.frame_length == Some(240u32)
                    &&& a.clock_rate == FIXED_CLOCK_RATE
                    &&& bytes_seq(a.extra_data).len() == 0
                    &&& a.sample_entry is None
                },
                _ => false,
            },
    {
        Some(Parameters::Audio(AudioParameters {
            rfc6381_codec: None,
            frame_length: Some(240),
            clock_rate: FIXED_CLOCK_RATE,
            extra_data: bytes_new(),
            sample_entry: None,
        }))
    }

    /// Whether the payload length and the two low header bits agree.
    pub fn validate(pkt: &Packet) -> (r: bool)
        ensures
            r == g723_valid(bytes_seq(pkt.payload)),
    {
        let len = bytes_len(&pkt.payload);
        let expected_hdr_bits: u8 = match len {
            24 => 0b00,
            20 => 0b01,
            4 => 0b10,
            _ => {
                return false;
            },
        };
        let actual_hdr_bits = bytes_at(&pkt.payload, 0) & 0b11;
        actual_hdr_bits == expected_hdr_bits
    }

    /// Accepts one packet as one frame of 240 samples, refusing payloads
    /// whose header bits disagree with their length.
    pub fn push(&mut self, pkt: Packet) -> (r: Result<(), PayloadError>)
        requires
            old(self).pending_frame() is None,
        ensures
            match r {
                Ok(()) => {
                    &&& g723_valid(bytes_seq(pkt.payload))
                    &&& final(self).pending_frame() == Some(
                        AudioFrame {
                            ctx: pkt.ctx,
                            stream_id: pkt.stream_id,
                            timestamp: pkt.timestamp,
                            frame_length: 240u32,
                            loss: pkt.loss,
                            data: pkt.payload,
                        },
                    )
                },
                Err(e) => {
                    &&& !g723_valid(bytes_seq(pkt.payload))
                    &&& e == PayloadError::G723InvalidPacket
                    &&& final(self).pending_frame() is None
                },
            },
    {
        if !Self::validate(&pkt) {
            return Err(PayloadError::G723InvalidPacket);
        }
        self.pending = Some(AudioFrame {
            ctx: pkt.ctx,
            loss: pkt.loss,
            stream_id: pkt.stream_id,
            timestamp: pkt.timestamp,
            frame_length: 240,
            data: pkt.payload,
        });
        Ok(())
    }

    /// Hands out the pending frame, if any.
    pub fn pull(&mut self) -> (r: Option<CodecItem>)
        ensures
            final(self).pending_frame() is None,
            match old(self).pending_frame() {
                Some(f) => r == Some(CodecItem::AudioFrame(f)),
                None => r is None,
            },
    {
        match self.pending.take() {
            Some(f) => Some(CodecItem::AudioFrame(f)),
            None => None,
        }
    }
}

} // verus!
