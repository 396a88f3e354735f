//! AAC (`mpeg4-generic`, RFC 3640, AAC-hbr mode) depacketization. Each
//! packet carries a two-byte AU-headers length, thirteen-bit size and
//! three-bit index headers — two bytes per access unit — then the AU data.
//! Aggregated access units become separate audio frames with timestamps
//! spaced by the constant duration; a fragmented access unit accumulates
//! until its declared size is reached. Interleaving is not supported.

use vstd::prelude::*;

verus! {

use vstd::string::StringSliceAdditionalSpecFns;

use crate::buf::{bytes_from_vec, bytes_len, bytes_seq, bytes_slice, extend_from_bytes};
use crate::codec::{AudioFrame, AudioParameters, CodecItem, ConfigError, Parameters, PayloadError};
use crate::onvif::{add_sat16, sat_add16};
use crate::rtp::{be16, Packet};
use crate::{RtspMessageContext, Timestamp};

/// The number of AU headers: the bit count must be a non-zero multiple of
/// the sixteen bits of one header.
pub open spec fn aac_count(p: Seq<u8>) -> int {
    be16(p, 0) / 16
}

/// Where the AU data section begins.
pub open spec fn aac_data_off(p: Seq<u8>) -> int {
    2 + be16(p, 0) / 8
}

/// The declared size of access unit `i`: the high thirteen bits of its
/// header.
pub open spec fn aac_size(p: Seq<u8>, i: int) -> int {
    be16(p, 2 + 2 * i) / 8
}

/// The interleaving index of access unit `i`: the low three bits.
pub open spec fn aac_index(p: Seq<u8>, i: int) -> int {
    be16(p, 2 + 2 * i) % 8
}

/// A well-formed AU header section: room for the bit count, a non-zero
/// whole number of headers that fit the payload, and no empty access unit.
pub open spec fn aac_headers_valid(p: Seq<u8>) -> bool {
    &&& p.len() >= 2
    &&& be16(p, 0) >= 16
    &&& be16(p, 0) % 16 == 0
    &&& aac_data_off(p) <= p.len()
    &&& forall|i: int| 0 <= i < aac_count(p) ==> #[trigger] aac_size(p, i) >= 1
}

/// Whether every interleaving index is zero.
pub open spec fn aac_no_interleaving(p: Seq<u8>) -> bool {
    forall|i: int| 0 <= i < aac_count(p) ==> #[trigger] aac_index(p, i) == 0
}

/// The number of data bytes the first `k` access units declare.
pub open spec fn aac_sizes_sum(p: Seq<u8>, k: int) -> int
    decreases k,
{
    if k <= 0 {
        0
    } else {
        aac_sizes_sum(p, k - 1) + aac_size(p, k - 1)
    }
}

/// The data bytes of access unit `i` in an aggregated packet.
pub open spec fn aac_au_data(p: Seq<u8>, i: int) -> Seq<u8> {
    p.subrange(aac_data_off(p) + aac_sizes_sum(p, i), aac_data_off(p) + aac_sizes_sum(p, i + 1))
}

/// `a + b`, saturating at the 64-bit maximum.
pub open spec fn sat_add64(a: u64, b: int) -> u64 {
    if a + b > u64::MAX {
        u64::MAX
    } else {
        (a + b) as u64
    }
}

/// The audio object type: the high five bits of an AudioSpecificConfig.
pub open spec fn asc_aot(c: Seq<u8>) -> u8 {
    c[0] >> 3
}

/// The four-bit sampling frequency index.
pub open spec fn asc_freq_index(c: Seq<u8>) -> u8 {
    ((c[0] & 0x07) << 1) | (c[1] >> 7)
}

/// The sampling frequency a table index stands for; zero for the two
/// reserved indexes.
pub open spec fn freq_of_index(i: u8) -> u32 {
    if i == 0 {
        96000
    } else if i == 1 {
        88200
    } else if i == 2 {
        64000
    } else if i == 3 {
        48000
    } else if i == 4 {
        44100
    } else if i == 5 {
        32000
    } else if i == 6 {
        24000
    } else if i == 7 {
        22050
    } else if i == 8 {
        16000
    } else if i == 9 {
        12000
    } else if i == 10 {
        11025
    } else if i == 11 {
        8000
    } else if i == 12 {
        7350
    } else {
        0
    }
}

/// The 24-bit explicit sampling frequency that follows index 15.
pub open spec fn asc_explicit_freq(c: Seq<u8>) -> int {
    (c[1] & 0x7f) * 0x2_0000 + c[2] * 0x200 + c[3] * 2 + (c[4] >> 7)
}

/// The sampling frequency the config declares.
pub open spec fn asc_freq(c: Seq<u8>) -> int {
    if asc_freq_index(c) == 15 {
        asc_explicit_freq(c)
    } else {
        freq_of_index(asc_freq_index(c)) as int
    }
}

/// The four-bit channel configuration.
pub open spec fn asc_channels(c: Seq<u8>) -> u8 {
    if asc_freq_index(c) == 15 {
        (c[4] >> 3) & 0x0f
    } else {
        (c[1] >> 3) & 0x0f
    }
}

/// The frame-length flag: 960 samples per frame when set, else 1024.
pub open spec fn asc_frame_length(c: Seq<u8>) -> u32 {
    if (if asc_freq_index(c) == 15 {
        (c[4] >> 2) & 1
    } else {
        (c[1] >> 2) & 1
    }) == 1 {
        960
    } else {
        1024
    }
}

/// An AudioSpecificConfig this depacketizer accepts: long enough for its
/// fields, an ordinary object type, a known frequency index (or the
/// explicit form), and a plain channel configuration.
pub open spec fn asc_valid(c: Seq<u8>) -> bool {
    &&& c.len() >= 2
    &&& 1 <= asc_aot(c) <= 30
    &&& (asc_freq_index(c) == 15 ==> c.len() >= 5)
    &&& (asc_freq_index(c) != 15 ==> asc_freq_index(c) <= 12)
    &&& asc_channels(c) != 0
}

/// The ASCII bytes of the RFC 6381 codec string `mp4a.40.` plus the audio
/// object type in decimal.
pub open spec fn mp4a_codec_bytes(aot: u8) -> Seq<u8> {
    seq![0x6du8, 0x70u8, 0x34u8, 0x61u8, 0x2eu8, 0x34u8, 0x30u8, 0x2eu8] + (if aot >= 10 {
        seq![(0x30 + aot / 10) as u8, (0x30 + aot % 10) as u8]
    } else {
        seq![(0x30 + aot % 10) as u8]
    })
}

/// An access unit being reassembled from fragments.
pub struct FragBuf {
    /// The size every fragment of this access unit declared.
    pub size: u16,
    pub timestamp: Timestamp,
    /// Context of the fragment run's first packet.
    pub ctx: RtspMessageContext,
    pub data: Vec<u8>,
}

/// AAC depacketizer state.
pub struct Depacketizer {
    clock_rate: u32,
    constant_duration: u32,
    rfc6381_codec: String,
    config: Vec<u8>,
    frag: Option<FragBuf>,
    pending: Vec<AudioFrame>,
    pending_loss: u16,
}

/// Observable equality of two depacketizer states.
pub open spec fn unchanged_state(a: Depacketizer, b: Depacketizer) -> bool {
    &&& a.spec_clock_rate() == b.spec_clock_rate()
    &&& a.spec_constant_duration() == b.spec_constant_duration()
    &&& a.spec_config() == b.spec_config()
    &&& a.spec_rfc6381() == b.spec_rfc6381()
    &&& a.frag_state() == b.frag_state()
    &&& a.pending_frames() == b.pending_frames()
    &&& a.loss_pending() == b.loss_pending()
}

/// The first offense a packet commits against the AU layout, in the order
/// the depacketizer checks them; `None` when the packet is acceptable.
pub open spec fn aac_push_error(pre: Depacketizer, pkt: Packet) -> Option<PayloadError> {
    let p = bytes_seq(pkt.payload);
    let frag0 = if pkt.loss > 0 {
        None
    } else {
        pre.frag_state()
    };
    if !aac_headers_valid(p) {
        Some(PayloadError::AacAuHeaders)
    } else if !aac_no_interleaving(p) {
        Some(PayloadError::AacInterleaving)
    } else {
        let count = aac_count(p);
        let avail = p.len() - aac_data_off(p);
        if count > 1 {
            if frag0 is Some {
                Some(PayloadError::AacFragment)
            } else if aac_sizes_sum(p, count) != avail {
                Some(PayloadError::AacDataSection)
            } else {
                None
            }
        } else {
            let size = aac_size(p, 0);
            match frag0 {
                Some(fr) => {
                    if fr.timestamp != pkt.timestamp {
                        Some(PayloadError::AacFragment)
                    } else if fr.size != size {
                        Some(PayloadError::AacFragment)
                    } else if fr.data@.len() + avail > size {
                        Some(PayloadError::AacDataSection)
                    } else {
                        None
                    }
                },
                None => {
                    if avail > size {
                        Some(PayloadError::AacDataSection)
                    } else {
                        None
                    }
                },
            }
        }
    }
}

/// What an accepted packet does: aggregated access units are emitted with
/// timestamps spaced by the constant duration, fragments accumulate until
/// the declared size is reached, and pending loss rides on the next
/// emitted frame.
pub open spec fn aac_push_ok_post(pre: Depacketizer, post: Depacketizer, pkt: Packet) -> bool {
    let p = bytes_seq(pkt.payload);
    let frag0 = if pkt.loss > 0 {
        None
    } else {
        pre.frag_state()
    };
    let loss_in = sat_add16(pre.loss_pending(), pkt.loss);
    let count = aac_count(p);
    let avail = p.len() - aac_data_off(p);
    let cd = pre.spec_constant_duration();
    &&& post.spec_clock_rate() == pre.spec_clock_rate()
    &&& post.spec_constant_duration() == pre.spec_constant_duration()
    &&& post.spec_config() == pre.spec_config()
    &&& post.spec_rfc6381() == pre.spec_rfc6381()
    &&& if count > 1 {
        &&& post.frag_state() is None
        &&& post.loss_pending() == 0
        &&& post.pending_frames().len() == count
        &&& (forall|i: int|
            0 <= i < count ==> {
                let f = #[trigger] post.pending_frames()[i];
                &&& f.ctx == pkt.ctx
                &&& f.stream_id == pkt.stream_id
                &&& f.frame_length == cd
                &&& f.loss == (if i == 0 {
                    loss_in
                } else {
                    0u16
                })
                &&& f.timestamp == (Timestamp {
                    timestamp: sat_add64(pkt.timestamp.timestamp, i * cd),
                    clock_rate: pkt.timestamp.clock_rate,
                })
                &&& bytes_seq(f.data) == aac_au_data(p, i)
            })
    } else {
        let size = aac_size(p, 0);
        let start_ctx = match frag0 {
            Some(fr) => fr.ctx,
            None => pkt.ctx,
        };
        let start_ts = match frag0 {
            Some(fr) => fr.timestamp,
            None => pkt.timestamp,
        };
        let acc = match frag0 {
            Some(fr) => fr.data@ + p.skip(aac_data_off(p)),
            None => p.skip(aac_data_off(p)),
        };
        if acc.len() == size {
            &&& post.frag_state() is None
            &&& post.loss_pending() == 0
            &&& post.pending_frames().len() == 1
            &&& {
                let f = post.pending_frames()[0];
                &&& f.ctx == start_ctx
                &&& f.stream_id == pkt.stream_id
                &&& f.frame_length == cd
                &&& f.loss == loss_in
                &&& f.timestamp == start_ts
                &&& bytes_seq(f.data) == acc
            }
        } else {
            &&& post.loss_pending() == loss_in
            &&& post.pending_frames().len() == 0
            &&& (match post.frag_state() {
                Some(fr) => {
                    &&& fr.size == size
                    &&& fr.timestamp == start_ts
                    &&& fr.ctx == start_ctx
                    &&& fr.data@ == acc
                },
                None => false,
            })
        }
    }
}

impl Depacketizer {
    pub closed spec fn spec_clock_rate(self) -> u32 {
        self.clock_rate
    }

    /// Clock units per access unit.
    pub closed spec fn spec_constant_duration(self) -> u32 {
        self.constant_duration
    }

    /// The RFC 6381 codec string, `mp4a.40.` plus the audio object type.
    pub closed spec fn spec_rfc6381(self) -> Seq<char> {
        self.rfc6381_codec@
    }

    /// The AudioSpecificConfig bytes from the session description.
    pub closed spec fn spec_config(self) -> Seq<u8> {
        self.config@
    }

    /// The access unit being reassembled, if any.
    pub closed spec fn frag_state(self) -> Option<FragBuf> {
        self.frag
    }

    /// The frames waiting to be pulled, oldest first.
    pub closed spec fn pending_frames(self) -> Seq<AudioFrame> {
        self.pending@
    }

    /// Loss not yet attributed to an emitted frame.
    pub closed spec fn loss_pending(self) -> u16 {
        self.pending_loss
    }

    /// A fragment never reaches its declared thirteen-bit size, and the
    /// duration is positive.
    pub open spec fn wf(self) -> bool {
        &&& (match self.frag_state() {
            Some(fr) => 1 <= fr.size <= 0x1fff && fr.data@.len() < fr.size,
            None => true,
        })
        &&& self.spec_constant_duration() > 0
    }

    /// Builds a depacketizer from already-extracted session parameters:
    /// the AudioSpecificConfig bytes and the optional constant duration.
    /// Succeeds if and only if the config is one this depacketizer
    /// accepts, its sampling frequency equals the clock rate, its channel
    /// count matches any announced one, and an explicit duration is
    /// non-zero; every resulting field is a function of the inputs.
    pub fn from_config(
        clock_rate: u32,
        channels: Option<u16>,
        constant_duration: Option<u32>,
        config: Vec<u8>,
    ) -> (r: Result<Self, ConfigError>)
        ensures
            match r {
                Ok(d) => {
                    &&& asc_valid(config@)
                    &&& asc_freq(config@) == clock_rate
                    &&& (channels matches Some(ch) ==> ch == asc_channels(config@))
                    &&& (constant_duration matches Some(x) ==> x > 0 && d.spec_constant_duration()
                        == x)
                    &&& (constant_duration is None ==> d.spec_constant_duration()
                        == asc_frame_length(config@))
                    &&& d.spec_config() == config@
                    &&& d.spec_rfc6381() == mp4a_codec_bytes(asc_aot(config@)).map_values(
                        |b: u8| b as char,
                    )
                    &&& d.spec_clock_rate() == clock_rate
                    &&& d.wf()
                    &&& d.frag_state() is None
                    &&& d.pending_frames().len() == 0
                    &&& d.loss_pending() == 0
                },
                Err(e) => if !asc_valid(config@) {
                    e == ConfigError::AacBadConfig
                } else if asc_freq(config@) != clock_rate {
                    asc_freq(config@) <= u32::MAX && e == (ConfigError::AacClockRateMismatch {
                        sdp: clock_rate,
                        config: asc_freq(config@) as u32,
                    })
                } else if (match channels {
                    Some(ch) => ch != asc_channels(config@),
                    None => false,
                }) {
                    e == (ConfigError::AacChannelMismatch {
                        sdp_channels: channels->Some_0,
                        config_channels: asc_channels(config@) as u16,
                    })
                } else {
                    constant_duration == Some(0u32) && e == ConfigError::AacBadConfig
                },
            },
    {
        let asc = match parse_audio_specific_config(&config) {
            Some(a) => a,
            None => {
                return Err(ConfigError::AacBadConfig);
            },
        };
        if asc.sampling_frequency != clock_rate {
            return Err(ConfigError::AacClockRateMismatch {
                sdp: clock_rate,
                config: asc.sampling_frequency,
            });
        }
        match channels {
            Some(c) => {
                if c != asc.channels as u16 {
                    return Err(ConfigError::AacChannelMismatch {
                        sdp_channels: c,
                        config_channels: asc.channels as u16,
                    });
                }
            },
            None => {},
        }
        let cd: u32 = match constant_duration {
            Some(x) => {
                if x == 0 {
                    return Err(ConfigError::AacBadConfig);
                }
                x
            },
            None => asc.frame_length,
        };
        // codec string "mp4a.40." plus the audio object type in decimal
        let mut cs: Vec<u8> = Vec::new();
        cs.push(0x6d);  // 'm'
        cs.push(0x70);  // 'p'
        cs.push(0x34);  // '4'
        cs.push(0x61);  // 'a'
        cs.push(0x2e);  // '.'
        cs.push(0x34);  // '4'
        cs.push(0x30);  // '0'
        cs.push(0x2e);  // '.'
        let aot = asc.audio_object_type;
        if aot >= 10 {
            cs.push(0x30 + aot / 10);
        }
        cs.push(0x30 + aot % 10);
        proof {
            assert(cs@ =~= mp4a_codec_bytes(asc_aot(config@)));
        }
        let rfc6381_codec = crate::buf::string_from_ascii(cs);
        Ok(Self {
            clock_rate,
            constant_duration: cd,
            rfc6381_codec,
            config,
            frag: None,
            pending: Vec::new(),
            pending_loss: 0,
        })
    }

    /// Creates a depacketizer from the session description: the mode must
    /// be AAC-hbr with its thirteen/three/three-bit AU headers, and the
    /// hex `config` parameter must satisfy [`Self::from_config`], whose
    /// guarantees carry over to the state.
    pub fn new(
        clock_rate: u32,
        channels: Option<u16>,
        format_specific_params: Option<&str>,
    ) -> (r: Result<Self, ConfigError>)
        ensures
            match r {
                Ok(d) => {
                    &&& d.wf()
                    &&& d.spec_clock_rate() == clock_rate
                    &&& d.frag_state() is None
                    &&& d.pending_frames().len() == 0
                    &&& d.loss_pending() == 0
                    &&& asc_valid(d.spec_config())
                    &&& asc_freq(d.spec_config()) == clock_rate
                    &&& (channels matches Some(ch) ==> ch == asc_channels(d.spec_config()))
                    &&& d.spec_rfc6381() == mp4a_codec_bytes(asc_aot(d.spec_config())).map_values(
                        |b: u8| b as char,
                    )
                    &&& d.spec_constant_duration() > 0
                    &&& (match format_specific_params {
                        Some(f) => {
                            &&& fmtp_layout_ok(f.spec_bytes())
                            &&& fmtp_config(f.spec_bytes()) == Some(d.spec_config())
                            &&& (match fmtp_constant_duration(f.spec_bytes()) {
                                Some(x) => d.spec_constant_duration() == x,
                                None => d.spec_constant_duration() == asc_frame_length(
                                    d.spec_config(),
                                ),
                            })
                        },
                        None => false,
                    })
                },
                Err(e) => {
                    &&& !(e is UnknownEncoding)
                    &&& !(e is G723ClockRate)
                    &&& (match format_specific_params {
                        None => e == ConfigError::AacMissingParams,
                        Some(f) => if !fmtp_layout_ok(f.spec_bytes()) {
                            e == ConfigError::AacUnsupportedMode
                        } else {
                            match fmtp_config(f.spec_bytes()) {
                                None => e == ConfigError::AacMissingParams,
                                Some(c) => if !asc_valid(c) {
                                    e == ConfigError::AacBadConfig
                                } else if asc_freq(c) != clock_rate {
                                    asc_freq(c) <= u32::MAX && e == (
                                    ConfigError::AacClockRateMismatch {
                                        sdp: clock_rate,
                                        config: asc_freq(c) as u32,
                                    })
                                } else if (match channels {
                                    Some(ch) => ch != asc_channels(c),
                                    None => false,
                                }) {
                                    e == (ConfigError::AacChannelMismatch {
                                        sdp_channels: channels->Some_0,
                                        config_channels: asc_channels(c) as u16,
                                    })
                                } else {
                                    fmtp_constant_duration(f.spec_bytes()) == Some(0int) && e
                                        == ConfigError::AacBadConfig
                                },
                            }
                        },
                    })
                },
            },
    {
        let fsp = match format_specific_params {
            Some(s) => s,
            None => {
                return Err(ConfigError::AacMissingParams);
            },
        };
        let parsed = match parse_format_specific_params(fsp) {
            Ok(x) => x,
            Err(e) => {
                return Err(e);
            },
        };
        Self::from_config(clock_rate, channels, parsed.constant_duration, parsed.config)
    }

    /// The stream's parameters: codec string, fixed frame length, clock
    /// rate and the AudioSpecificConfig as extra data.
    pub fn parameters(&self) -> (r: Option<Parameters>)
        ensures
            match r {
                Some(Parameters::Audio(a)) => {
                    &&& (match a.rfc6381_codec {
                        Some(c) => c@ == self.spec_rfc6381(),
                        None => false,
                    })
                    &&& a.frame_length == Some(self.spec_constant_duration())
                    &&& a.clock_rate == self.spec_clock_rate()
                    &&& bytes_seq(a.extra_data) == self.spec_config()
                    &&& a.sample_entry is None
                },
                _ => false,
            },
    {
        let mut cfg: Vec<u8> = Vec::new();
        append_bytes(&mut cfg, &self.config);
        Some(Parameters::Audio(AudioParameters {
            rfc6381_codec: Some(self.rfc6381_codec.clone()),
            frame_length: Some(self.constant_duration),
            clock_rate: self.clock_rate,
            extra_data: bytes_from_vec(cfg),
            sample_entry: None,
        }))
    }

    /// Hands out the oldest pending frame, if any.
    pub fn pull(&mut self) -> (r: Option<CodecItem>)
        requires
            old(self).wf(),
        ensures
            final(self).wf(),
            final(self).frag_state() == old(self).frag_state(),
            final(self).loss_pending() == old(self).loss_pending(),
            final(self).spec_clock_rate() == old(self).spec_clock_rate(),
            final(self).spec_constant_duration() == old(self).spec_constant_duration(),
            match r {
                Some(CodecItem::AudioFrame(f)) => {
                    &&& old(self).pending_frames().len() > 0
                    &&& f == old(self).pending_frames()[0]
                    &&& final(self).pending_frames() == old(self).pending_frames().skip(1)
                },
                None => {
                    &&& old(self).pending_frames().len() == 0
                    &&& final(self).pending_frames() == old(self).pending_frames()
                },
                _ => false,
            },
    {
        if self.pending.len() == 0 {
            return None;
        }
        let f = self.pending.remove(0);
        proof {
            assert(self.pending@ =~= old(self).pending@.skip(1));
        }
        Some(CodecItem::AudioFrame(f))
    }
}

/// One byte, ASCII-lowercased.
pub open spec fn lower_byte(b: u8) -> u8 {
    if 0x41 <= b <= 0x5a {
        (b + 0x20) as u8
    } else {
        b
    }
}

/// A byte run, ASCII-lowercased.
pub open spec fn lower(s: Seq<u8>) -> Seq<u8> {
    s.map_values(|b: u8| lower_byte(b))
}

/// The semicolon-separated segments of a parameter string, `acc` being
/// the segment under construction.
pub open spec fn fmtp_segments_acc(s: Seq<u8>, acc: Seq<u8>) -> Seq<Seq<u8>>
    decreases s.len(),
{
    if s.len() == 0 {
        seq![acc]
    } else if s[0] == 0x3b {
        seq![acc] + fmtp_segments_acc(s.skip(1), Seq::<u8>::empty())
    } else {
        fmtp_segments_acc(s.skip(1), acc.push(s[0]))
    }
}

/// The semicolon-separated segments of a parameter string.
pub open spec fn fmtp_segments(s: Seq<u8>) -> Seq<Seq<u8>> {
    fmtp_segments_acc(s, Seq::<u8>::empty())
}

/// The first non-space position at or after `k`.
pub open spec fn first_non_space(g: Seq<u8>, k: int) -> int
    decreases g.len() - k,
{
    if k >= g.len() {
        g.len() as int
    } else if g[k] != 0x20 {
        k
    } else {
        first_non_space(g, k + 1)
    }
}

/// One past the last non-space position strictly below `k`.
pub open spec fn last_non_space(g: Seq<u8>, k: int) -> int
    decreases k,
{
    if k <= 0 {
        0
    } else if g[k - 1] != 0x20 {
        k
    } else {
        last_non_space(g, k - 1)
    }
}

/// The segment with its surrounding spaces removed.
pub open spec fn trimmed(g: Seq<u8>) -> Seq<u8> {
    let a = first_non_space(g, 0);
    let b = last_non_space(g, g.len() as int);
    if a <= b {
        g.subrange(a, b)
    } else {
        Seq::<u8>::empty()
    }
}

/// The first `=` position at or after `k`.
pub open spec fn eq_at(g: Seq<u8>, k: int) -> int
    decreases g.len() - k,
{
    if k >= g.len() {
        g.len() as int
    } else if g[k] == 0x3d {
        k
    } else {
        eq_at(g, k + 1)
    }
}

/// The lowercased key of a trimmed `key=value` segment.
pub open spec fn seg_key(g: Seq<u8>) -> Seq<u8> {
    let t = trimmed(g);
    lower(t.subrange(0, eq_at(t, 0)))
}

/// The raw value of a trimmed `key=value` segment; `None` without an `=`.
pub open spec fn seg_val(g: Seq<u8>) -> Option<Seq<u8>> {
    let t = trimmed(g);
    let e = eq_at(t, 0);
    if e < t.len() {
        Some(t.subrange(e + 1, t.len() as int))
    } else {
        None
    }
}

/// The value of the last segment that assigns `key`.
pub open spec fn fmtp_lookup_in(gs: Seq<Seq<u8>>, key: Seq<u8>) -> Option<Seq<u8>>
    decreases gs.len(),
{
    if gs.len() == 0 {
        None
    } else if seg_key(gs.last()) == key && seg_val(gs.last()) is Some {
        seg_val(gs.last())
    } else {
        fmtp_lookup_in(gs.drop_last(), key)
    }
}

/// The value the parameter string assigns to `key`, last assignment wins.
pub open spec fn fmtp_lookup(s: Seq<u8>, key: Seq<u8>) -> Option<Seq<u8>> {
    fmtp_lookup_in(fmtp_segments(s), key)
}

pub open spec fn is_digit(b: u8) -> bool {
    0x30 <= b <= 0x39
}

/// The number an ASCII digit run spells.
pub open spec fn dec_val(s: Seq<u8>) -> int
    decreases s.len(),
{
    if s.len() == 0 {
        0
    } else {
        dec_val(s.drop_last()) * 10 + (s.last() - 0x30)
    }
}

/// A decimal value: one to eight digits.
pub open spec fn dec_of(s: Seq<u8>) -> Option<int> {
    if 1 <= s.len() <= 8 && (forall|i: int| 0 <= i < s.len() ==> is_digit(#[trigger] s[i])) {
        Some(dec_val(s))
    } else {
        None
    }
}

pub open spec fn is_hex_digit(b: u8) -> bool {
    is_digit(b) || (0x41 <= b <= 0x46) || (0x61 <= b <= 0x66)
}

/// A hex digit's value.
pub open spec fn hex_nibble_of(b: u8) -> u8 {
    if is_digit(b) {
        (b - 0x30) as u8
    } else if 0x41 <= b <= 0x46 {
        (b - 0x41 + 10) as u8
    } else if 0x61 <= b <= 0x66 {
        (b - 0x61 + 10) as u8
    } else {
        0
    }
}

/// The bytes an even-length hex run spells.
pub open spec fn hex_bytes_val(s: Seq<u8>) -> Seq<u8>
    decreases s.len(),
{
    if s.len() < 2 {
        Seq::<u8>::empty()
    } else {
        hex_bytes_val(s.subrange(0, s.len() - 2)) + seq![
            ((hex_nibble_of(s[s.len() - 2]) as int) * 16 + hex_nibble_of(s[s.len() - 1])) as u8,
        ]
    }
}

/// A hex-decoded value: an even number of hex digits.
pub open spec fn hex_of(s: Seq<u8>) -> Option<Seq<u8>> {
    if s.len() % 2 == 0 && (forall|i: int| 0 <= i < s.len() ==> is_hex_digit(#[trigger] s[i])) {
        Some(hex_bytes_val(s))
    } else {
        None
    }
}

/// The decimal value the parameter string assigns to `key`.
pub open spec fn fmtp_dec(s: Seq<u8>, key: Seq<u8>) -> Option<int> {
    match fmtp_lookup(s, key) {
        Some(v) => dec_of(v),
        None => None,
    }
}

/// Whether the string announces plain AAC-hbr: a case-insensitive
/// `mode=AAC-hbr` with the thirteen/three/three-bit AU-header layout.
pub open spec fn fmtp_layout_ok(s: Seq<u8>) -> bool {
    &&& (match fmtp_lookup(s, seq![0x6du8, 0x6fu8, 0x64u8, 0x65u8]) {
        Some(v) => lower(v) == seq![0x61u8, 0x61u8, 0x63u8, 0x2du8, 0x68u8, 0x62u8, 0x72u8],
        None => false,
    })
    &&& fmtp_dec(
        s,
        seq![0x73u8, 0x69u8, 0x7au8, 0x65u8, 0x6cu8, 0x65u8, 0x6eu8, 0x67u8, 0x74u8, 0x68u8],
    ) == Some(13int)
    &&& fmtp_dec(
        s,
        seq![
            0x69u8, 0x6eu8, 0x64u8, 0x65u8, 0x78u8, 0x6cu8, 0x65u8, 0x6eu8, 0x67u8, 0x74u8,
            0x68u8,
        ],
    ) == Some(3int)
    &&& fmtp_dec(
        s,
        seq![
            0x69u8, 0x6eu8, 0x64u8, 0x65u8, 0x78u8, 0x64u8, 0x65u8, 0x6cu8, 0x74u8, 0x61u8,
            0x6cu8, 0x65u8, 0x6eu8, 0x67u8, 0x74u8, 0x68u8,
        ],
    ) == Some(3int)
}

/// The hex-decoded `config` parameter.
pub open spec fn fmtp_config(s: Seq<u8>) -> Option<Seq<u8>> {
    match fmtp_lookup(s, seq![0x63u8, 0x6fu8, 0x6eu8, 0x66u8, 0x69u8, 0x67u8]) {
        Some(v) => hex_of(v),
        None => None,
    }
}

/// The decimal `constantduration` parameter.
pub open spec fn fmtp_constant_duration(s: Seq<u8>) -> Option<int> {
    fmtp_dec(
        s,
        seq![
            0x63u8, 0x6fu8, 0x6eu8, 0x73u8, 0x74u8, 0x61u8, 0x6eu8, 0x74u8, 0x64u8, 0x75u8,
            0x72u8, 0x61u8, 0x74u8, 0x69u8, 0x6fu8, 0x6eu8,
        ],
    )
}

/// What a decimal ASCII run or the fmtp parsing produced.
struct ParsedParams {
    constant_duration: Option<u32>,
    config: Vec<u8>,
}

/// What the AudioSpecificConfig declares.
struct AscInfo {
    audio_object_type: u8,
    sampling_frequency: u32,
    channels: u8,
    /// 960 or 1024 samples per frame, from the frame-length flag.
    frame_length: u32,
}

/// Appends a byte vector onto another.
fn append_bytes(dst: &mut Vec<u8>, src: &Vec<u8>)
    ensures
        final(dst)@ == old(dst)@ + src@,
{
    let n = src.len();
    let mut i: usize = 0;
    while i < n
        invariant
            i <= n == src@.len(),
            dst@ == old(dst)@ + src@.take(i as int),
        decreases n - i,
    {
        let b = src[i];
        dst.push(b);
        proof {
            assert(src@.take(i + 1) =~= src@.take(i as int) + seq![src@[i as int]]);
            assert(dst@ =~= old(dst)@ + src@.take(i + 1));
        }
        i = i + 1;
    }
    proof {
        assert(src@.take(n as int) =~= src@);
    }
}

/// ASCII lowercase.
fn to_lower(b: u8) -> (r: u8)
    ensures
        r == (if 0x41 <= b <= 0x5a {
            (b + 0x20) as u8
        } else {
            b
        }),
{
    if 0x41 <= b && b <= 0x5a {
        b + 0x20
    } else {
        b
    }
}

/// Whether the bytes in `v[start..end]`, lowercased, spell the same ASCII
/// Parses an unsigned decimal run; `None` when empty, too long, or not
/// One hex digit's value.
fn hex_val(b: u8) -> (r: Option<u8>)
    ensures
        match r {
            Some(x) => is_hex_digit(b) && x == hex_nibble_of(b) && x < 16,
            None => !is_hex_digit(b),
        },
{
    if 0x30 <= b && b <= 0x39 {
        Some(b - 0x30)
    } else if 0x41 <= b && b <= 0x46 {
        Some(b - 0x41 + 10)
    } else if 0x61 <= b && b <= 0x66 {
        Some(b - 0x61 + 10)
    } else {
        None
    }
}

/// Splits a parameter string into its semicolon-separated segments.
fn split_segments(v: &Vec<u8>) -> (r: Vec<Vec<u8>>)
    ensures
        crate::h264::vecs_view(r@) == fmtp_segments(v@),
{
    let n = v.len();
    let mut out: Vec<Vec<u8>> = Vec::new();
    let mut cur: Vec<u8> = Vec::new();
    let mut i: usize = 0;
    proof {
        assert(v@.skip(0) =~= v@);
        assert(crate::h264::vecs_view(out@) =~= Seq::<Seq<u8>>::empty());
        assert(Seq::<Seq<u8>>::empty() + fmtp_segments_acc(v@, Seq::<u8>::empty())
            =~= fmtp_segments_acc(v@, Seq::<u8>::empty()));
    }
    while i < n
        invariant
            i <= n == v@.len(),
            fmtp_segments(v@) == crate::h264::vecs_view(out@) + fmtp_segments_acc(
                v@.skip(i as int),
                cur@,
            ),
        decreases n - i,
    {
        let ghost rest = v@.skip(i as int);
        let b = v[i];
        proof {
            assert(rest[0] == b);
            assert(rest.skip(1) =~= v@.skip(i as int + 1));
        }
        if b == 0x3b {
            let ghost old_out = out@;
            let ghost curv = cur@;
            out.push(cur);
            cur = Vec::new();
            proof {
                assert(crate::h264::vecs_view(out@) =~= crate::h264::vecs_view(old_out) + seq![
                    curv,
                ]);
                assert(crate::h264::vecs_view(old_out) + (seq![curv] + fmtp_segments_acc(
                    v@.skip(i as int + 1),
                    Seq::<u8>::empty(),
                )) =~= (crate::h264::vecs_view(old_out) + seq![curv]) + fmtp_segments_acc(
                    v@.skip(i as int + 1),
                    Seq::<u8>::empty(),
                ));
            }
        } else {
            cur.push(b);
        }
        i = i + 1;
    }
    proof {
        assert(v@.skip(n as int) =~= Seq::<u8>::empty());
    }
    let ghost old_out = out@;
    let ghost curv = cur@;
    out.push(cur);
    proof {
        assert(crate::h264::vecs_view(out@) =~= crate::h264::vecs_view(old_out) + seq![curv]);
    }
    out
}

/// Whether two byte vectors hold the same bytes.
fn bytes_eq(a: &Vec<u8>, b: &Vec<u8>) -> (r: bool)
    ensures
        r == (a@ == b@),
{
    if a.len() != b.len() {
        proof {
            assert(a@.len() != b@.len());
        }
        return false;
    }
    let n = a.len();
    let mut i: usize = 0;
    while i < n
        invariant
            i <= n == a@.len() == b@.len(),
            forall|j: int| 0 <= j < i ==> a@[j] == b@[j],
        decreases n - i,
    {
        if a[i] != b[i] {
            return false;
        }
        i = i + 1;
    }
    proof {
        assert(a@ =~= b@);
    }
    true
}

/// Whether `v`, lowercased, spells exactly the (lowercase) word `w`.
fn lower_eq(v: &Vec<u8>, w: &Vec<u8>) -> (r: bool)
    ensures
        r == (lower(v@) == w@),
{
    if v.len() != w.len() {
        proof {
            assert(lower(v@).len() == v@.len());
        }
        return false;
    }
    let n = v.len();
    let mut i: usize = 0;
    while i < n
        invariant
            i <= n == v@.len() == w@.len(),
            forall|j: int| 0 <= j < i ==> lower_byte(v@[j]) == w@[j],
        decreases n - i,
    {
        if to_lower(v[i]) != w[i] {
            proof {
                assert(lower(v@)[i as int] != w@[i as int]);
            }
            return false;
        }
        i = i + 1;
    }
    proof {
        assert(lower(v@) =~= w@);
    }
    true
}

/// The trimmed `key=value` reading of one segment: the lowercased key and
/// the raw value; `None` when the segment assigns nothing.
fn seg_key_val(g: &Vec<u8>) -> (r: Option<(Vec<u8>, Vec<u8>)>)
    ensures
        match r {
            Some((k, v)) => seg_key(g@) == k@ && seg_val(g@) == Some(v@),
            None => seg_val(g@) is None,
        },
{
    let n = g.len();
    let mut a: usize = 0;
    while a < n && g[a] == 0x20
        invariant
            a <= n == g@.len(),
            first_non_space(g@, 0) == first_non_space(g@, a as int),
        decreases n - a,
    {
        a = a + 1;
    }
    proof {
        assert(first_non_space(g@, 0) == a);
    }
    let mut b: usize = n;
    while b > 0 && g[b - 1] == 0x20
        invariant
            b <= n == g@.len(),
            last_non_space(g@, n as int) == last_non_space(g@, b as int),
        decreases b,
    {
        b = b - 1;
    }
    proof {
        assert(last_non_space(g@, n as int) == b);
    }
    if a > b {
        return None;
    }
    let ghost t = g@.subrange(a as int, b as int);
    let mut e: usize = a;
    while e < b && g[e] != 0x3d
        invariant
            a <= e <= b <= n == g@.len(),
            t == g@.subrange(a as int, b as int),
            eq_at(t, 0) == eq_at(t, e - a),
        decreases b - e,
    {
        proof {
            assert(t[e - a] == g@[e as int]);
        }
        e = e + 1;
    }
    proof {
        if e < b {
            assert(t[e - a] == g@[e as int]);
        }
        assert(eq_at(t, 0) == e - a);
    }
    if e == b {
        return None;
    }
    let mut key: Vec<u8> = Vec::new();
    let mut k = a;
    while k < e
        invariant
            a <= k <= e <= n == g@.len(),
            key@ == lower(g@.subrange(a as int, k as int)),
        decreases e - k,
    {
        let c = to_lower(g[k]);
        key.push(c);
        proof {
            assert(g@.subrange(a as int, k as int + 1) =~= g@.subrange(a as int, k as int).push(
                g@[k as int],
            ));
            assert(key@ =~= lower(g@.subrange(a as int, k as int + 1)));
        }
        k = k + 1;
    }
    let mut val: Vec<u8> = Vec::new();
    let mut m = e + 1;
    while m < b
        invariant
            e + 1 <= m <= b <= n == g@.len(),
            val@ == g@.subrange(e as int + 1, m as int),
        decreases b - m,
    {
        let c = g[m];
        val.push(c);
        proof {
            assert(g@.subrange(e as int + 1, m as int + 1) =~= g@.subrange(
                e as int + 1,
                m as int,
            ).push(g@[m as int]));
        }
        m = m + 1;
    }
    proof {
        assert(t.subrange(0, e - a) =~= g@.subrange(a as int, e as int));
        assert(t.subrange(e - a + 1, t.len() as int) =~= g@.subrange(e as int + 1, b as int));
        assert(key@ =~= lower(t.subrange(0, eq_at(t, 0))));
        assert(val@ =~= t.subrange(eq_at(t, 0) + 1, t.len() as int));
    }
    Some((key, val))
}

/// Ten to the `n`.
pub open spec fn pow10(n: nat) -> int
    decreases n,
{
    if n == 0 {
        1
    } else {
        10 * pow10((n - 1) as nat)
    }
}

/// A digit run's value is bounded by ten to its length.
proof fn lemma_dec_val_bound(s: Seq<u8>)
    requires
        forall|i: int| 0 <= i < s.len() ==> is_digit(#[trigger] s[i]),
    ensures
        0 <= dec_val(s) < pow10(s.len()),
    decreases s.len(),
{
    if s.len() > 0 {
        lemma_dec_val_bound(s.drop_last());
    }
}

/// Parses a decimal digit run of one to eight digits.
fn parse_dec_seq(v: &Vec<u8>) -> (r: Option<u32>)
    ensures
        match r {
            Some(x) => dec_of(v@) == Some(x as int),
            None => dec_of(v@) is None,
        },
{
    let n = v.len();
    if n < 1 || n > 8 {
        return None;
    }
    proof {
        assert(pow10(0) == 1);
        assert(pow10(1) == 10);
        assert(pow10(2) == 100);
        assert(pow10(3) == 1000);
        assert(pow10(4) == 10000);
        assert(pow10(5) == 100000);
        assert(pow10(6) == 1000000);
        assert(pow10(7) == 10000000);
        assert(pow10(8) == 100000000);
    }
    let mut val: u64 = 0;
    let mut i: usize = 0;
    while i < n
        invariant
            i <= n == v@.len() <= 8,
            forall|j: int| 0 <= j < i ==> is_digit(#[trigger] v@[j]),
            val == dec_val(v@.take(i as int)),
            pow10(8) == 100000000,
            forall|k: nat| k <= 8 ==> #[trigger] pow10(k) <= 100000000,
        decreases n - i,
    {
        let b = v[i];
        if b < 0x30 || b > 0x39 {
            proof {
                assert(!is_digit(v@[i as int]));
            }
            return None;
        }
        proof {
            lemma_dec_val_bound(v@.take(i as int));
            assert(v@.take(i as int + 1).drop_last() =~= v@.take(i as int));
            assert(v@.take(i as int + 1).last() == v@[i as int]);
        }
        val = val * 10 + (b - 0x30) as u64;
        i = i + 1;
    }
    proof {
        assert(v@.take(n as int) =~= v@);
        lemma_dec_val_bound(v@);
    }
    Some(val as u32)
}

/// Decodes an even-length hex digit run.
fn parse_hex_seq(v: &Vec<u8>) -> (r: Option<Vec<u8>>)
    ensures
        match r {
            Some(out) => hex_of(v@) == Some(out@),
            None => hex_of(v@) is None,
        },
{
    let n = v.len();
    if n % 2 != 0 {
        return None;
    }
    let mut out: Vec<u8> = Vec::new();
    let mut i: usize = 0;
    while i < n
        invariant
            i <= n == v@.len(),
            i % 2 == 0 && n % 2 == 0,
            forall|j: int| 0 <= j < i ==> is_hex_digit(#[trigger] v@[j]),
            out@ == hex_bytes_val(v@.take(i as int)),
        decreases n - i,
    {
        let hi = match hex_val(v[i]) {
            Some(x) => x,
            None => {
                return None;
            },
        };
        let lo = match hex_val(v[i + 1]) {
            Some(x) => x,
            None => {
                return None;
            },
        };
        out.push(hi * 16 + lo);
        proof {
            let t = v@.take(i as int + 2);
            assert(t.subrange(0, t.len() - 2) =~= v@.take(i as int));
            assert(t[t.len() - 2] == v@[i as int] && t[t.len() - 1] == v@[i as int + 1]);
            assert(out@ =~= hex_bytes_val(v@.take(i as int + 2)));
        }
        i = i + 2;
    }
    proof {
        assert(v@.take(n as int) =~= v@);
    }
    Some(out)
}

/// Parses the fmtp parameter list: `key=value` pairs separated by
/// semicolons, spaces tolerated. Requires mode AAC-hbr with the
/// Parses the fmtp parameter list: semicolon-separated `key=value`
/// segments, spaces trimmed, keys case-insensitive, the last assignment
/// of a key winning. Exactly the strings [`fmtp_layout_ok`] accepts with
/// a hex-decodable `config` succeed.
fn parse_format_specific_params(fsp: &str) -> (r: Result<ParsedParams, ConfigError>)
    ensures
        match r {
            Ok(pp) => {
                &&& fmtp_layout_ok(fsp.spec_bytes())
                &&& (match fmtp_config(fsp.spec_bytes()) {
                    Some(c) => pp.config@ == c,
                    None => false,
                })
                &&& (match fmtp_constant_duration(fsp.spec_bytes()) {
                    Some(x) => pp.constant_duration matches Some(y) && y == x,
                    None => pp.constant_duration is None,
                })
            },
            Err(e) => if !fmtp_layout_ok(fsp.spec_bytes()) {
                e == ConfigError::AacUnsupportedMode
            } else {
                fmtp_config(fsp.spec_bytes()) is None && e == ConfigError::AacMissingParams
            },
        },
{
    let v = fsp.as_bytes_vec();
    let segs = split_segments(&v);
    let ghost segsv = fmtp_segments(v@);
    // the keywords, and the expected mode word, as byte vectors
    let mut kw_mode: Vec<u8> = Vec::new();
    push_word(&mut kw_mode, &[0x6d, 0x6f, 0x64, 0x65]);
    let mut kw_size: Vec<u8> = Vec::new();
    push_word(&mut kw_size, &[0x73, 0x69, 0x7a, 0x65, 0x6c, 0x65, 0x6e, 0x67, 0x74, 0x68]);
    let mut kw_il: Vec<u8> = Vec::new();
    push_word(&mut kw_il, &[0x69, 0x6e, 0x64, 0x65, 0x78, 0x6c, 0x65, 0x6e, 0x67, 0x74, 0x68]);
    let mut kw_idl: Vec<u8> = Vec::new();
    push_word(
        &mut kw_idl,
        &[
            0x69, 0x6e, 0x64, 0x65, 0x78, 0x64, 0x65, 0x6c, 0x74, 0x61, 0x6c, 0x65, 0x6e, 0x67,
            0x74, 0x68,
        ],
    );
    let mut kw_cd: Vec<u8> = Vec::new();
    push_word(
        &mut kw_cd,
        &[
            0x63, 0x6f, 0x6e, 0x73, 0x74, 0x61, 0x6e, 0x74, 0x64, 0x75, 0x72, 0x61, 0x74, 0x69,
            0x6f, 0x6e,
        ],
    );
    let mut kw_config: Vec<u8> = Vec::new();
    push_word(&mut kw_config, &[0x63, 0x6f, 0x6e, 0x66, 0x69, 0x67]);
    let mut hbr: Vec<u8> = Vec::new();
    push_word(&mut hbr, &[0x61, 0x61, 0x63, 0x2d, 0x68, 0x62, 0x72]);
    let mut mode_ok = false;
    let mut sizelength: Option<u32> = None;
    let mut indexlength: Option<u32> = None;
    let mut indexdeltalength: Option<u32> = None;
    let mut constant_duration: Option<u32> = None;
    let mut config: Option<Vec<u8>> = None;
    let m = segs.len();
    let mut idx: usize = 0;
    proof {
        assert(segsv.take(0) =~= Seq::<Seq<u8>>::empty());
    }
    while idx < m
        invariant
            idx <= m == segs@.len(),
            crate::h264::vecs_view(segs@) == segsv,
            kw_mode@ == seq![0x6du8, 0x6fu8, 0x64u8, 0x65u8],
            kw_size@ == seq![
                0x73u8, 0x69u8, 0x7au8, 0x65u8, 0x6cu8, 0x65u8, 0x6eu8, 0x67u8, 0x74u8, 0x68u8,
            ],
            kw_il@ == seq![
                0x69u8, 0x6eu8, 0x64u8, 0x65u8, 0x78u8, 0x6cu8, 0x65u8, 0x6eu8, 0x67u8, 0x74u8,
                0x68u8,
            ],
            kw_idl@ == seq![
                0x69u8, 0x6eu8, 0x64u8, 0x65u8, 0x78u8, 0x64u8, 0x65u8, 0x6cu8, 0x74u8, 0x61u8,
                0x6cu8, 0x65u8, 0x6eu8, 0x67u8, 0x74u8, 0x68u8,
            ],
            kw_cd@ == seq![
                0x63u8, 0x6fu8, 0x6eu8, 0x73u8, 0x74u8, 0x61u8, 0x6eu8, 0x74u8, 0x64u8, 0x75u8,
                0x72u8, 0x61u8, 0x74u8, 0x69u8, 0x6fu8, 0x6eu8,
            ],
            kw_config@ == seq![0x63u8, 0x6fu8, 0x6eu8, 0x66u8, 0x69u8, 0x67u8],
            hbr@ == seq![0x61u8, 0x61u8, 0x63u8, 0x2du8, 0x68u8, 0x62u8, 0x72u8],
            mode_ok == (match fmtp_lookup_in(segsv.take(idx as int), kw_mode@) {
                Some(w) => lower(w) == hbr@,
                None => false,
            }),
            opt_dec_matches(sizelength, fmtp_lookup_in(segsv.take(idx as int), kw_size@)),
            opt_dec_matches(indexlength, fmtp_lookup_in(segsv.take(idx as int), kw_il@)),
            opt_dec_matches(indexdeltalength, fmtp_lookup_in(segsv.take(idx as int), kw_idl@)),
            opt_dec_matches(constant_duration, fmtp_lookup_in(segsv.take(idx as int), kw_cd@)),
            (match fmtp_lookup_in(segsv.take(idx as int), kw_config@) {
                Some(w) => match &config {
                    Some(c) => hex_of(w) == Some(c@),
                    None => hex_of(w) is None,
                },
                None => config is None,
            }),
        decreases m - idx,
    {
        proof {
            assert(segsv.take(idx as int + 1).drop_last() =~= segsv.take(idx as int));
            assert(segsv.take(idx as int + 1).last() == segsv[idx as int]);
            assert(segsv[idx as int] == segs@[idx as int]@);
        }
        match seg_key_val(&segs[idx]) {
            None => {},
            Some((key, val)) => {
                if bytes_eq(&key, &kw_mode) {
                    mode_ok = lower_eq(&val, &hbr);
                } else if bytes_eq(&key, &kw_size) {
                    sizelength = parse_dec_seq(&val);
                } else if bytes_eq(&key, &kw_il) {
                    indexlength = parse_dec_seq(&val);
                } else if bytes_eq(&key, &kw_idl) {
                    indexdeltalength = parse_dec_seq(&val);
                } else if bytes_eq(&key, &kw_cd) {
                    constant_duration = parse_dec_seq(&val);
                } else if bytes_eq(&key, &kw_config) {
                    config = parse_hex_seq(&val);
                }
            },
        }
        idx = idx + 1;
    }
    proof {
        assert(segsv.take(m as int) =~= segsv);
    }
    if !mode_ok {
        return Err(ConfigError::AacUnsupportedMode);
    }
    let sl_ok = match sizelength {
        Some(x) => x == 13,
        None => false,
    };
    let il_ok = match indexlength {
        Some(x) => x == 3,
        None => false,
    };
    let idl_ok = match indexdeltalength {
        Some(x) => x == 3,
        None => false,
    };
    if !sl_ok || !il_ok || !idl_ok {
        return Err(ConfigError::AacUnsupportedMode);
    }
    match config {
        Some(c) => Ok(ParsedParams { constant_duration, config: c }),
        None => Err(ConfigError::AacMissingParams),
    }
}

/// Whether a parsed decimal agrees with the looked-up raw value.
pub open spec fn opt_dec_matches(parsed: Option<u32>, raw: Option<Seq<u8>>) -> bool {
    match raw {
        Some(w) => match parsed {
            Some(x) => dec_of(w) == Some(x as int),
            None => dec_of(w) is None,
        },
        None => parsed is None,
    }
}

/// Appends fixed word bytes onto an empty vector.
fn push_word(dst: &mut Vec<u8>, w: &[u8])
    ensures
        final(dst)@ == old(dst)@ + w@,
{
    let n = w.len();
    let mut i: usize = 0;
    while i < n
        invariant
            i <= n == w@.len(),
            dst@ == old(dst)@ + w@.take(i as int),
        decreases n - i,
    {
        let b = w[i];
        dst.push(b);
        proof {
            assert(w@.take(i as int + 1) =~= w@.take(i as int).push(w@[i as int]));
            assert(dst@ =~= old(dst)@ + w@.take(i as int + 1));
        }
        i = i + 1;
    }
    proof {
        assert(w@.take(n as int) =~= w@);
    }
}

/// Parses the identification fields of an AudioSpecificConfig: object
/// type, sampling frequency, channel configuration, frame-length flag.
fn parse_audio_specific_config(c: &Vec<u8>) -> (r: Option<AscInfo>)
    ensures
        match r {
            Some(a) => {
                &&& asc_valid(c@)
                &&& a.audio_object_type == asc_aot(c@)
                &&& 1 <= a.audio_object_type <= 30
                &&& a.sampling_frequency == asc_freq(c@)
                &&& a.channels == asc_channels(c@)
                &&& a.frame_length == asc_frame_length(c@)
                &&& (a.frame_length == 960 || a.frame_length == 1024)
            },
            None => !asc_valid(c@),
        },
{
    if c.len() < 2 {
        return None;
    }
    let c0 = c[0];
    let aot = c0 >> 3;
    proof {
        assert(c0 >> 3 < 32) by (bit_vector);
    }
    if aot == 0 || aot == 31 {
        return None;
    }
    let freq_idx = ((c[0] & 0x07) << 1) | (c[1] >> 7);
    let (sampling_frequency, channels_bits, fl_bit): (u32, u8, u8) = if freq_idx == 15 {
        // a 24-bit explicit frequency follows
        if c.len() < 5 {
            return None;
        }
        let f: u32 = ((c[1] & 0x7f) as u32) * 0x2_0000 + (c[2] as u32) * 0x200 + (c[3] as u32) * 2
            + ((c[4] >> 7) as u32);
        (f, (c[4] >> 3) & 0x0f, (c[4] >> 2) & 1)
    } else {
        let f: u32 = match freq_idx {
            0 => 96000,
            1 => 88200,
            2 => 64000,
            3 => 48000,
            4 => 44100,
            5 => 32000,
            6 => 24000,
            7 => 22050,
            8 => 16000,
            9 => 12000,
            10 => 11025,
            11 => 8000,
            12 => 7350,
            _ => {
                return None;
            },
        };
        (f, (c[1] >> 3) & 0x0f, (c[1] >> 2) & 1)
    };
    if channels_bits == 0 {
        return None;
    }
    let frame_length: u32 = if fl_bit == 1 {
        960
    } else {
        1024
    };
    Some(AscInfo {
        audio_object_type: aot,
        sampling_frequency,
        channels: channels_bits,
        frame_length,
    })
}


/// Partial sums of the declared sizes only grow.
proof fn lemma_sizes_sum_mono(p: Seq<u8>, a: int, b: int)
    requires
        0 <= a <= b,
        forall|i: int| 0 <= i < b ==> #[trigger] aac_size(p, i) >= 0,
    ensures
        aac_sizes_sum(p, a) <= aac_sizes_sum(p, b),
    decreases b - a,
{
    if a < b {
        lemma_sizes_sum_mono(p, a, b - 1);
    }
}

/// `a + b`, saturating at the 64-bit maximum.
fn sat_add_u64(a: u64, b: u64) -> (r: u64)
    ensures
        r == sat_add64(a, b as int),
{
    if a <= u64::MAX - b {
        a + b
    } else {
        u64::MAX
    }
}

impl Depacketizer {
    /// Feeds one packet in. Aggregated packets leave one frame pending per
    /// access unit; fragments accumulate until their declared size.
    /// Errors follow [`aac_push_error`] exactly.
    #[verifier::rlimit(100)]
    #[verifier::loop_isolation(false)]
    pub fn push(&mut self, pkt: Packet) -> (r: Result<(), PayloadError>)
        requires
            old(self).wf(),
            old(self).pending_frames().len() == 0,
            0 < bytes_seq(pkt.payload).len() < 0x1_0000,
        ensures
            final(self).wf(),
            match r {
                Ok(()) => {
                    &&& aac_push_error(*old(self), pkt) is None
                    &&& aac_push_ok_post(*old(self), *final(self), pkt)
                },
                Err(e) => {
                    &&& aac_push_error(*old(self), pkt) == Some(e)
                    &&& unchanged_state(*old(self), *final(self))
                },
            },
    {
        let ghost pre = *self;
        let ghost p = bytes_seq(pkt.payload);
        let plen = bytes_len(&pkt.payload);
        if plen < 2 {
            return Err(PayloadError::AacAuHeaders);
        }
        let bits = crate::rtp::read_be16(&pkt.payload, 0);
        if bits < 16 || bits % 16 != 0 {
            return Err(PayloadError::AacAuHeaders);
        }
        let count: usize = (bits / 16) as usize;
        proof {
            vstd::arithmetic::div_mod::lemma_fundamental_div_mod(bits as int, 16);
            assert(bits == 16 * (bits as int / 16));
            assert(16 * (bits as int / 16) / 8 == 2 * (bits as int / 16)) by (nonlinear_arith);
        }
        let data_off: usize = 2 + (bits / 8) as usize;
        if data_off > plen {
            return Err(PayloadError::AacAuHeaders);
        }
        proof {
            assert(data_off == aac_data_off(p));
            assert(count == aac_count(p));
            assert(data_off == 2 + 2 * count);
        }
        // first pass: the declared sizes
        let mut sizes: Vec<u16> = Vec::new();
        let mut i: usize = 0;
        while i < count
            invariant
                i <= count,
                p == bytes_seq(pkt.payload),
                plen == p.len() < 0x1_0000,
                bits == be16(p, 0),
                count == aac_count(p),
                data_off == 2 + 2 * count <= plen,
                sizes@.len() == i,
                forall|j: int| 0 <= j < i ==> #[trigger] sizes@[j] == aac_size(p, j),
                forall|j: int| 0 <= j < i ==> #[trigger] aac_size(p, j) >= 1,
            decreases count - i,
        {
            let h = crate::rtp::read_be16(&pkt.payload, 2 + 2 * i);
            let size = h / 8;
            if size == 0 {
                proof {
                    assert(aac_size(p, i as int) == 0);
                    assert(!aac_headers_valid(p));
                }
                return Err(PayloadError::AacAuHeaders);
            }
            sizes.push(size);
            i = i + 1;
        }
        proof {
            assert(aac_headers_valid(p));
        }
        // second pass: no interleaving
        let mut i2: usize = 0;
        while i2 < count
            invariant
                i2 <= count,
                p == bytes_seq(pkt.payload),
                plen == p.len() < 0x1_0000,
                bits == be16(p, 0),
                count == aac_count(p),
                data_off == 2 + 2 * count <= plen,
                forall|j: int| 0 <= j < i2 ==> #[trigger] aac_index(p, j) == 0,
            decreases count - i2,
        {
            let h = crate::rtp::read_be16(&pkt.payload, 2 + 2 * i2);
            if h % 8 != 0 {
                proof {
                    assert(aac_index(p, i2 as int) != 0);
                    assert(!aac_no_interleaving(p));
                }
                return Err(PayloadError::AacInterleaving);
            }
            i2 = i2 + 1;
        }
        proof {
            assert(aac_no_interleaving(p));
        }
        let avail = plen - data_off;
        let dropped = pkt.loss > 0;
        let frag_is = !dropped && self.frag.is_some();
        let loss_in = add_sat16(self.pending_loss, pkt.loss);
        if count > 1 {
            if frag_is {
                return Err(PayloadError::AacFragment);
            }
            // the declared sizes must tile the data section exactly
            let mut total: u32 = 0;
            let mut k: usize = 0;
            while k < count
                invariant
                    k <= count,
                    p == bytes_seq(pkt.payload),
                    count == aac_count(p),
                    sizes@.len() == count,
                    forall|j: int| 0 <= j < count ==> #[trigger] sizes@[j] == aac_size(p, j),
                    total == aac_sizes_sum(p, k as int),
                    total <= 0x2000 * k,
                    count < 0x1_0000,
                decreases count - k,
            {
                let sz = sizes[k];
                proof {
                    assert(sz == aac_size(p, k as int));
                    assert(aac_size(p, k as int) <= 0x1fff);
                }
                total = total + sz as u32;
                k = k + 1;
            }
            if total as usize != avail {
                return Err(PayloadError::AacDataSection);
            }
            // emit one frame per access unit
            let ghost snap = *self;
            let cd = self.constant_duration;
            let mut off: usize = data_off;
            let mut k2: usize = 0;
            while k2 < count
                invariant
                    k2 <= count,
                    p == bytes_seq(pkt.payload),
                    plen == p.len() < 0x1_0000,
                    count == aac_count(p),
                    count < 0x1_0000,
                    sizes@.len() == count,
                    forall|j: int| 0 <= j < count ==> #[trigger] sizes@[j] == aac_size(p, j),
                    forall|j: int| 0 <= j < count ==> #[trigger] aac_size(p, j) >= 1,
                    data_off == aac_data_off(p),
                    aac_sizes_sum(p, count as int) == plen - data_off,
                    off == data_off + aac_sizes_sum(p, k2 as int),
                    cd == snap.constant_duration,
                    self.clock_rate == snap.clock_rate,
                    self.constant_duration == snap.constant_duration,
                    self.rfc6381_codec == snap.rfc6381_codec,
                    self.config == snap.config,
                    self.frag == snap.frag,
                    self.pending_loss == snap.pending_loss,
                    self.pending@.len() == k2,
                    forall|j: int|
                        0 <= j < k2 ==> {
                            let f = #[trigger] self.pending@[j];
                            &&& f.ctx == pkt.ctx
                            &&& f.stream_id == pkt.stream_id
                            &&& f.frame_length == snap.constant_duration
                            &&& f.loss == (if j == 0 {
                                sat_add16(pre.loss_pending(), pkt.loss)
                            } else {
                                0u16
                            })
                            &&& f.timestamp == (Timestamp {
                                timestamp: sat_add64(pkt.timestamp.timestamp, j * snap.constant_duration),
                                clock_rate: pkt.timestamp.clock_rate,
                            })
                            &&& bytes_seq(f.data) == aac_au_data(p, j)
                        },
                    loss_in == sat_add16(pre.loss_pending(), pkt.loss),
                decreases count - k2,
            {
                let size = sizes[k2] as usize;
                proof {
                    lemma_sizes_sum_mono(p, k2 as int + 1, count as int);
                    assert(aac_sizes_sum(p, k2 as int + 1) == aac_sizes_sum(p, k2 as int)
                        + aac_size(p, k2 as int));
                }
                let data = bytes_slice(&pkt.payload, off, off + size);
                proof {
                    let kk = k2 as u64;
                    let cc = cd as u64;
                    assert(kk < 0x1_0000 && cc <= 0xffff_ffffu64 ==> kk * cc <= 0xffff_ffff_ffffu64)
                        by (nonlinear_arith);
                }
                let ts = sat_add_u64(pkt.timestamp.timestamp, (k2 as u64) * (cd as u64));
                self.pending.push(AudioFrame {
                    ctx: pkt.ctx,
                    stream_id: pkt.stream_id,
                    timestamp: Timestamp { timestamp: ts, clock_rate: pkt.timestamp.clock_rate },
                    frame_length: cd,
                    loss: if k2 == 0 {
                        loss_in
                    } else {
                        0
                    },
                    data,
                });
                off = off + size;
                k2 = k2 + 1;
            }
            self.frag = None;
            self.pending_loss = 0;
            return Ok(());
        }
        // a single access unit, possibly one fragment of it
        let size = sizes[0];
        if frag_is {
            let ts_ok = match self.frag.as_ref() {
                Some(fr) => fr.timestamp == pkt.timestamp,
                None => false,
            };
            if !ts_ok {
                return Err(PayloadError::AacFragment);
            }
            let size_ok = match self.frag.as_ref() {
                Some(fr) => fr.size == size,
                None => false,
            };
            if !size_ok {
                return Err(PayloadError::AacFragment);
            }
            let too_long = match self.frag.as_ref() {
                Some(fr) => fr.data.len() + avail > size as usize,
                None => false,
            };
            if too_long {
                return Err(PayloadError::AacDataSection);
            }
            let mut fr = match self.frag.take() {
                Some(fr) => fr,
                None => {
                    return Err(PayloadError::AacFragment);
                },
            };
            extend_from_bytes(&mut fr.data, &pkt.payload, data_off, plen);
            proof {
                assert(p.subrange(data_off as int, plen as int) =~= p.skip(data_off as int));
            }
            if fr.data.len() == size as usize {
                self.pending.push(AudioFrame {
                    ctx: fr.ctx,
                    stream_id: pkt.stream_id,
                    timestamp: fr.timestamp,
                    frame_length: self.constant_duration,
                    loss: loss_in,
                    data: bytes_from_vec(fr.data),
                });
                self.pending_loss = 0;
            } else {
                self.frag = Some(fr);
                self.pending_loss = loss_in;
            }
        } else {
            if avail > size as usize {
                return Err(PayloadError::AacDataSection);
            }
            // a stale fragment, dropped by loss, ends here
            self.frag = None;
            proof {
                assert(p.subrange(data_off as int, plen as int) =~= p.skip(data_off as int));
            }
            if avail == size as usize {
                let data = bytes_slice(&pkt.payload, data_off, plen);
                self.pending.push(AudioFrame {
                    ctx: pkt.ctx,
                    stream_id: pkt.stream_id,
                    timestamp: pkt.timestamp,
                    frame_length: self.constant_duration,
                    loss: loss_in,
                    data,
                });
                self.pending_loss = 0;
            } else {
                let mut d: Vec<u8> = Vec::new();
                extend_from_bytes(&mut d, &pkt.payload, data_off, plen);
                self.frag = Some(FragBuf { size, timestamp: pkt.timestamp, ctx: pkt.ctx, data: d });
                self.pending_loss = loss_in;
            }
        }
        Ok(())
    }
}

} // verus!
