//! Fixed sample-size audio codecs (PCMA, PCMU, G.726, G.722, L16, DVI4,
//! U8): every packet passes through as one audio frame whose duration in
//! clock units is the number of samples it carries.

use vstd::prelude::*;

verus! {

use crate::buf::{bytes_new, bytes_len, bytes_seq};
use crate::codec::{AudioFrame, AudioParameters, CodecItem, Parameters, PayloadError};
use crate::rtp::Packet;

/// Pass-through depacketizer for codecs with a fixed number of bits per
/// sample.
pub struct Depacketizer {
    clock_rate: u32,
    bits_per_sample: u32,
    pending: Option<AudioFrame>,
}

impl Depacketizer {
    /// The frame waiting to be pulled, if any.
    pub closed spec fn pending_frame(self) -> Option<AudioFrame> {
        self.pending
    }

    pub closed spec fn spec_clock_rate(self) -> u32 {
        self.clock_rate
    }

    pub closed spec fn spec_bits_per_sample(self) -> u32 {
        self.bits_per_sample
    }

    pub fn new(clock_rate: u32, bits_per_sample: u32) -> (r: Self)
        requires
            0 < bits_per_sample,
        ensures
            r.pending_frame() is None,
            r.spec_clock_rate() == clock_rate,
            r.spec_bits_per_sample() == bits_per_sample,
    {
        Self { clock_rate, bits_per_sample, pending: None }
    }

    /// The stream's parameters: the clock rate alone, with empty extra
    /// data; the frame length varies packet by packet.
    pub fn parameters(&self) -> (r: Option<Parameters>)
        ensures
            match r {
                Some(Parameters::Audio(a)) => {
                    &&& a.rfc6381_codec is None
                    &&& a.frame_length is None
                    &&& a.clock_rate == self.spec_clock_rate()
                    &&& bytes_seq(a.extra_data).len() == 0
                    &&& a.sample_entry is None
                },
                _ => false,
            },
    {
        Some(Parameters::Audio(AudioParameters {
            rfc6381_codec: None,
            frame_length: None,
            clock_rate: self.clock_rate,
            extra_data: bytes_new(),
            sample_entry: None,
        }))
    }

    /// Passes the payload through as one audio frame whose length is
    /// `payload bits / bits per sample`, in samples.
    pub fn push(&mut self, pkt: Packet) -> (r: Result<(), PayloadError>)
        requires
            old(self).pending_frame() is None,
            0 < old(self).spec_bits_per_sample(),
            bytes_seq(pkt.payload).len() < 0x1_0000,
        ensures
            r is Ok,
            final(self).pending_frame() == Some(
                AudioFrame {
                    ctx: pkt.ctx,
                    stream_id: pkt.stream_id,
                    timestamp: pkt.timestamp,
                    frame_length: (bytes_seq(pkt.payload).len() as int * 8 / old(
                        self,
                    ).spec_bits_per_sample() as int) as u32,
                    loss: pkt.loss,
                    data: pkt.payload,
                },
            ),
            final(self).spec_clock_rate() == old(self).spec_clock_rate(),
            final(self).spec_bits_per_sample() == old(self).spec_bits_per_sample(),
    {
        let len = bytes_len(&pkt.payload);
        let frame_length: u32 = (len as u32) * 8 / self.bits_per_sample;
        self.pending = Some(AudioFrame {
            ctx: pkt.ctx,
            loss: pkt.loss,
            stream_id: pkt.stream_id,
            timestamp: pkt.timestamp,
            frame_length,
            data: pkt.payload,
        });
        Ok(())
    }

    /// Hands out the pending frame, if any.
    pub fn pull(&mut self) -> (r: Option<CodecItem>)
        ensures
            final(self).pending_frame() is None,
            final(self).spec_clock_rate() == old(self).spec_clock_rate(),
            final(self).spec_bits_per_sample() == old(self).spec_bits_per_sample(),
            match old(self).pending_frame() {
                Some(f) => r == Some(CodecItem::AudioFrame(f)),
                None => r is None,
            },
    {
        match self.pending.take() {
            Some(f) => Some(CodecItem::AudioFrame(f)),
            None => None,
        }
    }
}

} // verus!
