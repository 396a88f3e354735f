//! ONVIF metadata streams: RTP packets are concatenated until the mark
//! bit closes a message, which is emitted without inspecting its content.
//! On loss, or on a timestamp change without a closing mark bit, the
//! partial message is dropped and the loss is carried onto the next
//! emitted message.

use vstd::prelude::*;

verus! {

use crate::buf::{bytes_from_vec, bytes_len, bytes_seq, extend_from_bytes};
use crate::codec::{CodecItem, MessageFrame, MessageParameters, Parameters, PayloadError};
use crate::rtp::Packet;
use crate::{RtspMessageContext, Timestamp};

/// How the metadata payload is compressed; passed through to the consumer.
#[derive(Clone, Copy, PartialEq, Eq, Structural, Debug)]
pub enum CompressionType {
    Uncompressed,
    GzipCompressed,
    ExiDefault,
    ExiInBand,
}

/// A message being reassembled.
pub struct InProgress {
    /// Context of the message's first packet.
    pub start_ctx: RtspMessageContext,
    pub timestamp: Timestamp,
    pub data: Vec<u8>,
}

/// `a + b`, saturating at the 16-bit maximum.
pub open spec fn sat_add16(a: u16, b: u16) -> u16 {
    if a + b > 0xffff {
        0xffff
    } else {
        (a + b) as u16
    }
}

/// ONVIF metadata depacketizer.
pub struct Depacketizer {
    compression: CompressionType,
    in_progress: Option<InProgress>,
    pending_loss: u16,
    pending: Option<MessageFrame>,
}

impl Depacketizer {
    pub closed spec fn spec_compression(self) -> CompressionType {
        self.compression
    }

    /// The message being reassembled, if one is.
    pub closed spec fn reassembling(self) -> Option<InProgress> {
        self.in_progress
    }

    /// Loss not yet attributed to an emitted message.
    pub closed spec fn loss_pending(self) -> u16 {
        self.pending_loss
    }

    /// The message waiting to be pulled, if any.
    pub closed spec fn pending_message(self) -> Option<MessageFrame> {
        self.pending
    }

    pub fn new(compression: CompressionType) -> (r: Self)
        ensures
            r.spec_compression() == compression,
            r.reassembling() is None,
            r.loss_pending() == 0,
            r.pending_message() is None,
    {
        Self { compression, in_progress: None, pending_loss: 0, pending: None }
    }

    /// The stream's parameters: the compression type.
    pub fn parameters(&self) -> (r: Option<Parameters>)
        ensures
            match r {
                Some(Parameters::Message(MessageParameters(c))) => c == self.spec_compression(),
                _ => false,
            },
    {
        Some(Parameters::Message(MessageParameters(self.compression)))
    }

    /// Feeds one packet into the message being reassembled; the mark bit
    /// completes the message.
    pub fn push(&mut self, pkt: Packet) -> (r: Result<(), PayloadError>)
        requires
            old(self).pending_message() is None,
        ensures
            r is Ok,
            push_post(*old(self), *final(self), pkt),
    {
        let loss_now = add_sat16(self.pending_loss, pkt.loss);
        self.pending_loss = loss_now;
        let cont = match &self.in_progress {
            Some(m) => pkt.loss == 0 && m.timestamp == pkt.timestamp,
            None => false,
        };
        let plen = bytes_len(&pkt.payload);
        proof {
            assert(bytes_seq(pkt.payload).subrange(0, plen as int) =~= bytes_seq(pkt.payload));
        }
        if cont {
            let mut m = self.in_progress.take().unwrap();
            extend_from_bytes(&mut m.data, &pkt.payload, 0, plen);
            if pkt.mark {
                self.pending = Some(MessageFrame {
                    ctx: m.start_ctx,
                    timestamp: m.timestamp,
                    stream_id: pkt.stream_id,
                    loss: self.pending_loss,
                    data: bytes_from_vec(m.data),
                });
                self.pending_loss = 0;
            } else {
                self.in_progress = Some(m);
            }
        } else {
            // a leftover partial message, if any, is dropped here
            let mut data: Vec<u8> = Vec::new();
            extend_from_bytes(&mut data, &pkt.payload, 0, plen);
            proof {
                assert(data@ =~= bytes_seq(pkt.payload));
            }
            if pkt.mark {
                self.in_progress = None;
                self.pending = Some(MessageFrame {
                    ctx: pkt.ctx,
                    timestamp: pkt.timestamp,
                    stream_id: pkt.stream_id,
                    loss: self.pending_loss,
                    data: bytes_from_vec(data),
                });
                self.pending_loss = 0;
            } else {
                self.in_progress = Some(InProgress {
                    start_ctx: pkt.ctx,
                    timestamp: pkt.timestamp,
                    data,
                });
            }
        }
        Ok(())
    }

    /// Hands out the pending message, if any.
    pub fn pull(&mut self) -> (r: Option<CodecItem>)
        ensures
            final(self).pending_message() is None,
            final(self).reassembling() == old(self).reassembling(),
            final(self).loss_pending() == old(self).loss_pending(),
            final(self).spec_compression() == old(self).spec_compression(),
            match old(self).pending_message() {
                Some(f) => r == Some(CodecItem::MessageFrame(f)),
                None => r is None,
            },
    {
        match self.pending.take() {
            Some(f) => Some(CodecItem::MessageFrame(f)),
            None => None,
        }
    }
}

/// What one `push` does to the reassembly state: a packet either continues
/// the open message (no loss, same timestamp) or begins a new one, and the
/// mark bit turns the accumulated bytes into the pending message.
pub open spec fn push_post(pre: Depacketizer, post: Depacketizer, pkt: Packet) -> bool {
    let p = bytes_seq(pkt.payload);
    let total_loss = sat_add16(pre.loss_pending(), pkt.loss);
    let cont = match pre.reassembling() {
        Some(m) => pkt.loss == 0 && m.timestamp == pkt.timestamp,
        None => false,
    };
    let msg_ctx = if cont {
        pre.reassembling()->Some_0.start_ctx
    } else {
        pkt.ctx
    };
    let msg_ts = if cont {
        pre.reassembling()->Some_0.timestamp
    } else {
        pkt.timestamp
    };
    let msg_data = if cont {
        pre.reassembling()->Some_0.data@ + p
    } else {
        p
    };
    &&& post.spec_compression() == pre.spec_compression()
    &&& if pkt.mark {
        &&& post.reassembling() is None
        &&& post.loss_pending() == 0
        &&& (match post.pending_message() {
            Some(f) => {
                &&& f.ctx == msg_ctx
                &&& f.timestamp == msg_ts
                &&& f.stream_id == pkt.stream_id
                &&& f.loss == total_loss
                &&& bytes_seq(f.data) == msg_data
            },
            None => false,
        })
    } else {
        &&& post.loss_pending() == total_loss
        &&& post.pending_message() is None
        &&& (match post.reassembling() {
            Some(m) => {
                &&& m.start_ctx == msg_ctx
                &&& m.timestamp == msg_ts
                &&& m.data@ == msg_data
            },
            None => false,
        })
    }
}

/// Saturating 16-bit addition.
pub fn add_sat16(a: u16, b: u16) -> (r: u16)
    ensures
        r == sat_add16(a, b),
{
    if a <= 0xffff - b {
        a + b
    } else {
        0xffff
    }
}

} // verus!
