//! Codec-shared data types: parameters, frames, emitted items, the error
//! kinds of codec parsing and stream setup, and the depacketizer dispatcher.

use vstd::prelude::*;

verus! {

use crate::buf::bytes_seq;
use crate::rtp::{Packet, SenderReport};
use vstd::string::StrSliceExecFns;
use vstd::string::StringSliceAdditionalSpecFns;
use crate::{RtspMessageContext, Timestamp};

/// One decoded-codec-ready item.
pub enum CodecItem {
    VideoFrame(VideoFrame),
    AudioFrame(AudioFrame),
    MessageFrame(MessageFrame),
    SenderReport(SenderReport),
}

/// The best-known parameters of a stream.
pub enum Parameters {
    Video(VideoParameters),
    Audio(AudioParameters),
    Message(MessageParameters),
}

/// Parameters of a video stream, as recovered from in-band configuration.
pub struct VideoParameters {
    /// Overall frame size in pixels, as `(width, height)`.
    pub pixel_dimensions: (u32, u32),
    /// Codec description in RFC 6381 form, eg `avc1.4D401E`.
    pub rfc6381_codec: String,
    /// Displayed size of a pixel, if known, as a ratio `(h_spacing, v_spacing)`.
    pub pixel_aspect_ratio: Option<(u32, u32)>,
    /// Maximum frame rate as `(numerator, denominator)` seconds, if known.
    pub frame_rate: Option<(u32, u32)>,
    /// Codec-specific decoder configuration; for H.264 an
    /// AVCDecoderConfigurationRecord.
    pub extra_data: bytes::Bytes,
}

impl VideoParameters {
    /// Returns the codec description in RFC 6381 form.
    pub fn rfc6381_codec(&self) -> (r: &str)
        ensures
            r@ == self.rfc6381_codec@,
    {
        self.rfc6381_codec.as_str()
    }

    /// Returns the overall dimensions of the video frame in pixels.
    pub fn pixel_dimensions(&self) -> (r: (u32, u32))
        ensures
            r == self.pixel_dimensions,
    {
        self.pixel_dimensions
    }

    /// Returns the displayed size of a pixel, if known.
    pub fn pixel_aspect_ratio(&self) -> (r: Option<(u32, u32)>)
        ensures
            r == self.pixel_aspect_ratio,
    {
        self.pixel_aspect_ratio
    }

    /// Returns the maximum frame rate, if known.
    pub fn frame_rate(&self) -> (r: Option<(u32, u32)>)
        ensures
            r == self.frame_rate,
    {
        self.frame_rate
    }

    /// The codec-specific extra data needed to configure a decoder.
    pub fn extra_data(&self) -> (r: &bytes::Bytes)
        ensures
            bytes_seq(*r) == bytes_seq(self.extra_data),
    {
        &self.extra_data
    }
}

/// Parameters of an audio stream.
pub struct AudioParameters {
    pub rfc6381_codec: Option<String>,
    /// The length of each frame in clock-rate units, if fixed. Always
    /// non-zero when present.
    pub frame_length: Option<u32>,
    pub clock_rate: u32,
    /// Codec-specific decoder configuration; for AAC a serialized
    /// AudioSpecificConfig.
    pub extra_data: bytes::Bytes,
    /// An MP4 audio sample-entry box, when one can be built.
    pub sample_entry: Option<bytes::Bytes>,
}

impl AudioParameters {
    pub fn rfc6381_codec(&self) -> (r: Option<&str>)
        ensures
            match r {
                Some(s) => self.rfc6381_codec matches Some(c) && s@ == c@,
                None => self.rfc6381_codec is None,
            },
    {
        match &self.rfc6381_codec {
            Some(c) => Some(c.as_str()),
            None => None,
        }
    }

    /// The length of each frame in clock-rate units, if fixed.
    pub fn frame_length(&self) -> (r: Option<u32>)
        ensures
            r == self.frame_length,
    {
        self.frame_length
    }

    pub fn clock_rate(&self) -> (r: u32)
        ensures
            r == self.clock_rate,
    {
        self.clock_rate
    }

    /// The codec-specific extra data needed to configure a decoder.
    pub fn extra_data(&self) -> (r: &bytes::Bytes)
        ensures
            bytes_seq(*r) == bytes_seq(self.extra_data),
    {
        &self.extra_data
    }

    /// An MP4 audio sample-entry box, when one can be built.
    pub fn sample_entry(&self) -> (r: Option<&bytes::Bytes>)
        ensures
            match r {
                Some(b) => self.sample_entry matches Some(s) && bytes_seq(*b) == bytes_seq(s),
                None => self.sample_entry is None,
            },
    {
        match &self.sample_entry {
            Some(b) => Some(b),
            None => None,
        }
    }
}

/// An audio frame: one or more samples of one stream.
pub struct AudioFrame {
    pub ctx: RtspMessageContext,
    pub stream_id: usize,
    pub timestamp: Timestamp,
    /// Duration of the frame in clock-rate units; never zero.
    pub frame_length: u32,
    /// Lost RTP packets right before this frame.
    pub loss: u16,
    pub data: bytes::Bytes,
}

/// Parameters of an ONVIF metadata stream: only the compression type.
pub struct MessageParameters(pub crate::onvif::CompressionType);

/// A timed metadata message.
pub struct MessageFrame {
    /// Context of the first packet of the message.
    pub ctx: RtspMessageContext,
    pub timestamp: Timestamp,
    pub stream_id: usize,
    /// Lost RTP packets before this frame; when non-zero a prefix of the
    /// message may be missing.
    pub loss: u16,
    pub data: bytes::Bytes,
}

/// A single encoded video frame (picture, access unit).
pub struct VideoFrame {
    /// Populated only when in-band configuration changed with this frame.
    pub new_parameters: Option<Box<VideoParameters>>,
    /// Lost RTP packets before this frame.
    pub loss: u16,
    pub start_ctx: RtspMessageContext,
    pub end_ctx: RtspMessageContext,
    pub timestamp: Timestamp,
    pub stream_id: usize,
    /// True when the access unit contains an IDR picture: decodable on its
    /// own, and nothing after it depends on anything before it.
    pub is_random_access_point: bool,
    /// True when no other picture requires this one: every NAL unit has
    /// `nal_ref_idc == 0`.
    pub is_disposable: bool,
    /// The access unit's NAL units, each with a four-byte big-endian
    /// length prefix (AVCC form).
    pub data: bytes::Bytes,
}

impl VideoFrame {
    /// Context of the packet that began the frame.
    pub fn start_ctx(&self) -> (r: RtspMessageContext)
        ensures
            r == self.start_ctx,
    {
        self.start_ctx
    }

    /// Context of the packet that completed the frame.
    pub fn end_ctx(&self) -> (r: RtspMessageContext)
        ensures
            r == self.end_ctx,
    {
        self.end_ctx
    }

    pub fn data(&self) -> (r: &bytes::Bytes)
        ensures
            bytes_seq(*r) == bytes_seq(self.data),
    {
        &self.data
    }

    pub fn into_data(self) -> (r: bytes::Bytes)
        ensures
            bytes_seq(r) == bytes_seq(self.data),
    {
        self.data
    }
}

/// Codec-specific parse failures (the payload-structure error kind).
#[derive(Debug, PartialEq, Eq)]
pub enum PayloadError {
    /// G.723: the payload length is not one of the three frame sizes, or
    /// the low two header bits disagree with the length.
    G723InvalidPacket,
    /// H.264: a NAL unit header type this depacketizer does not handle.
    H264UnsupportedNal { nal_type: u8 },
    /// H.264: a fragmentation unit out of order — a continuation or end
    /// without a start, or a new start while a fragment is open.
    H264FragmentOrder,
    /// H.264: a fragmented NAL still open at an access-unit boundary.
    H264FragmentInterrupted,
    /// H.264: an aggregation packet whose length prefixes do not fit it.
    H264StapAMalformed,
    /// H.264: a payload too short for its packet type.
    H264TooShort,
    /// H.264: the access unit exceeds the reassembly bounds.
    H264AccessUnitLimit,
    /// H.264: an in-band parameter set that could not be parsed.
    H264BadSps,
    /// AAC: the AU header section is malformed or truncated.
    AacAuHeaders,
    /// AAC: access-unit interleaving (a non-zero AU index) is unsupported.
    AacInterleaving,
    /// AAC: the data section disagrees with the sizes the headers declare.
    AacDataSection,
    /// AAC: a fragment continued with a different timestamp, or several
    /// access units were declared for a fragmented packet.
    AacFragment,
}

/// Stream-setup failures (the unsupported-configuration error kind).
#[derive(Debug, PartialEq, Eq)]
pub enum ConfigError {
    /// No depacketizer for the media/encoding pair.
    UnknownEncoding,
    /// G.723 requires a clock rate of 8000.
    G723ClockRate { clock_rate: u32 },
    /// mpeg4-generic without its required fmtp parameters.
    AacMissingParams,
    /// mpeg4-generic with a mode other than AAC-hbr.
    AacUnsupportedMode,
    /// The AudioSpecificConfig could not be parsed.
    AacBadConfig,
    /// The AudioSpecificConfig disagrees with the SDP clock rate.
    AacClockRateMismatch { sdp: u32, config: u32 },
    /// The AudioSpecificConfig disagrees with the SDP channel count.
    AacChannelMismatch { sdp_channels: u16, config_channels: u16 },
}


/// Compares two strings character by character.
fn str_eq(a: &str, b: &str) -> (r: bool)
    ensures
        r == (a@ == b@),
{
    let n = a.unicode_len();
    if n != b.unicode_len() {
        proof {
            assert(a@.len() != b@.len());
        }
        return false;
    }
    let mut i: usize = 0;
    while i < n
        invariant
            i <= n == a@.len() == b@.len(),
            forall|j: int| 0 <= j < i ==> a@[j] == b@[j],
        decreases n - i,
    {
        if a.get_char(i) != b.get_char(i) {
            return false;
        }
        i = i + 1;
    }
    proof {
        assert(a@ =~= b@);
    }
    true
}

/// Which codec a depacketizer serves.
#[derive(Clone, Copy, PartialEq, Eq, Structural, Debug)]
pub enum CodecKind {
    Aac,
    SimpleAudio,
    G723,
    H264,
    Onvif,
}

/// Turns RTP packets into [`CodecItem`]s: a closed sum over the supported
/// codecs, selected at stream setup.
pub struct Depacketizer(DepacketizerInner);

enum DepacketizerInner {
    Aac(Box<crate::aac::Depacketizer>),
    SimpleAudio(Box<crate::simple_audio::Depacketizer>),
    G723(Box<crate::g723::Depacketizer>),
    H264(Box<crate::h264::Depacketizer>),
    Onvif(Box<crate::onvif::Depacketizer>),
}

/// The media/encoding pairs a depacketizer exists for.
pub open spec fn supported_encoding(media: Seq<char>, enc: Seq<char>) -> bool {
    ||| (media == "video"@ && enc == "h264"@)
    ||| (media == "audio"@ && (enc == "mpeg4-generic"@ || enc == "g726-16"@ || enc == "g726-24"@
        || enc == "dvi4"@ || enc == "g726-32"@ || enc == "g726-40"@ || enc == "pcma"@ || enc
        == "pcmu"@ || enc == "u8"@ || enc == "g722"@ || enc == "l16"@ || enc == "g723"@))
    ||| (media == "application"@ && (enc == "vnd.onvif.metadata"@ || enc
        == "vnd.onvif.metadata.gzip"@ || enc == "vnd.onvif.metadata.exi.onvif"@ || enc
        == "vnd.onvif.metadata.exi.ext"@))
}

/// Bits per sample of the fixed-size audio encodings.
pub open spec fn simple_audio_bits(enc: Seq<char>) -> u32 {
    if enc == "g726-16"@ {
        2
    } else if enc == "g726-24"@ {
        3
    } else if enc == "dvi4"@ || enc == "g726-32"@ {
        4
    } else if enc == "g726-40"@ {
        5
    } else if enc == "l16"@ {
        16
    } else {
        8
    }
}

/// The compression type of the ONVIF encodings.
pub open spec fn onvif_compression(enc: Seq<char>) -> crate::onvif::CompressionType {
    if enc == "vnd.onvif.metadata"@ {
        crate::onvif::CompressionType::Uncompressed
    } else if enc == "vnd.onvif.metadata.gzip"@ {
        crate::onvif::CompressionType::GzipCompressed
    } else if enc == "vnd.onvif.metadata.exi.onvif"@ {
        crate::onvif::CompressionType::ExiDefault
    } else {
        crate::onvif::CompressionType::ExiInBand
    }
}

impl Depacketizer {
    pub closed spec fn kind(self) -> CodecKind {
        match self.0 {
            DepacketizerInner::Aac(_) => CodecKind::Aac,
            DepacketizerInner::SimpleAudio(_) => CodecKind::SimpleAudio,
            DepacketizerInner::G723(_) => CodecKind::G723,
            DepacketizerInner::H264(_) => CodecKind::H264,
            DepacketizerInner::Onvif(_) => CodecKind::Onvif,
        }
    }

    pub closed spec fn as_aac(self) -> Option<crate::aac::Depacketizer> {
        match self.0 {
            DepacketizerInner::Aac(d) => Some(*d),
            _ => None,
        }
    }

    pub closed spec fn as_simple_audio(self) -> Option<crate::simple_audio::Depacketizer> {
        match self.0 {
            DepacketizerInner::SimpleAudio(d) => Some(*d),
            _ => None,
        }
    }

    pub closed spec fn as_g723(self) -> Option<crate::g723::Depacketizer> {
        match self.0 {
            DepacketizerInner::G723(d) => Some(*d),
            _ => None,
        }
    }

    pub closed spec fn as_h264(self) -> Option<crate::h264::Depacketizer> {
        match self.0 {
            DepacketizerInner::H264(d) => Some(*d),
            _ => None,
        }
    }

    pub closed spec fn as_onvif(self) -> Option<crate::onvif::Depacketizer> {
        match self.0 {
            DepacketizerInner::Onvif(d) => Some(*d),
            _ => None,
        }
    }

    /// Internal invariants of the chosen codec.
    pub open spec fn wf(self) -> bool {
        &&& (match self.as_h264() {
            Some(d) => d.wf(),
            None => true,
        })
        &&& (match self.as_aac() {
            Some(d) => d.wf(),
            None => true,
        })
        &&& (match self.as_simple_audio() {
            Some(d) => d.spec_bits_per_sample() > 0,
            None => true,
        })
    }

    /// Whether every emitted item has been drained, as `push` demands.
    pub open spec fn ready(self) -> bool {
        &&& (match self.as_g723() {
            Some(d) => d.pending_frame() is None,
            None => true,
        })
        &&& (match self.as_simple_audio() {
            Some(d) => d.pending_frame() is None,
            None => true,
        })
        &&& (match self.as_onvif() {
            Some(d) => d.pending_message() is None,
            None => true,
        })
        &&& (match self.as_h264() {
            Some(d) => d.pending_frames().len() == 0,
            None => true,
        })
        &&& (match self.as_aac() {
            Some(d) => d.pending_frames().len() == 0,
            None => true,
        })
    }

    /// Selects the depacketizer for a media/encoding pair, as announced in
    /// the session description. Fails on an unknown pair or on parameters
    /// the chosen codec refuses.
    pub fn new(
        media: &str,
        encoding_name: &str,
        clock_rate: u32,
        channels: Option<u16>,
        format_specific_params: Option<&str>,
    ) -> (r: Result<Self, ConfigError>)
        requires
            channels matches Some(c) ==> c > 0,
        ensures
            !supported_encoding(media@, encoding_name@) ==> r == Err::<Depacketizer, ConfigError>(
                ConfigError::UnknownEncoding,
            ),
            media@ == "video"@ && encoding_name@ == "h264"@ ==> r is Ok,
            media@ == "audio"@ && encoding_name@ != "mpeg4-generic"@ && encoding_name@ != "g723"@
                && supported_encoding(media@, encoding_name@) ==> r is Ok,
            media@ == "audio"@ && encoding_name@ == "g723"@ && clock_rate
                == crate::g723::FIXED_CLOCK_RATE ==> r is Ok,
            media@ == "audio"@ && encoding_name@ == "mpeg4-generic"@ && (match
            format_specific_params {
                Some(f) => {
                    &&& crate::aac::fmtp_layout_ok(f.spec_bytes())
                    &&& (match crate::aac::fmtp_config(f.spec_bytes()) {
                        Some(c) => {
                            &&& crate::aac::asc_valid(c)
                            &&& crate::aac::asc_freq(c) == clock_rate
                            &&& (match channels {
                                Some(ch) => ch == crate::aac::asc_channels(c),
                                None => true,
                            })
                        },
                        None => false,
                    })
                    &&& crate::aac::fmtp_constant_duration(f.spec_bytes()) != Some(0int)
                },
                None => false,
            }) ==> r is Ok,
            media@ == "application"@ && supported_encoding(media@, encoding_name@) ==> r is Ok,
            match r {
                Ok(d) => {
                    &&& supported_encoding(media@, encoding_name@)
                    &&& d.wf()
                    &&& d.ready()
                    &&& (media@ == "video"@ && encoding_name@ == "h264"@ ==> d.kind()
                        == CodecKind::H264 && d.as_h264() is Some)
                    &&& (media@ == "audio"@ && encoding_name@ == "mpeg4-generic"@ ==> {
                        &&& d.kind() == CodecKind::Aac
                        &&& d.as_aac() is Some
                        &&& d.as_aac()->Some_0.spec_clock_rate() == clock_rate
                    })
                    &&& (media@ == "audio"@ && encoding_name@ == "g723"@ ==> d.kind()
                        == CodecKind::G723 && d.as_g723() is Some && clock_rate
                        == crate::g723::FIXED_CLOCK_RATE)
                    &&& (media@ == "audio"@ && encoding_name@ != "mpeg4-generic"@
                        && encoding_name@ != "g723"@ && supported_encoding(
                        media@,
                        encoding_name@,
                    ) ==> {
                        &&& d.kind() == CodecKind::SimpleAudio
                        &&& d.as_simple_audio() is Some
                        &&& d.as_simple_audio()->Some_0.spec_clock_rate() == clock_rate
                        &&& d.as_simple_audio()->Some_0.spec_bits_per_sample()
                            == simple_audio_bits(encoding_name@)
                    })
                    &&& (media@ == "application"@ && supported_encoding(media@, encoding_name@)
                        ==> {
                        &&& d.kind() == CodecKind::Onvif
                        &&& d.as_onvif() is Some
                        &&& d.as_onvif()->Some_0.spec_compression() == onvif_compression(
                            encoding_name@,
                        )
                    })
                },
                Err(e) => {
                    &&& (media@ == "audio"@ && encoding_name@ == "g723"@ ==> e == (
                    ConfigError::G723ClockRate { clock_rate }) && clock_rate
                        != crate::g723::FIXED_CLOCK_RATE)
                    &&& (supported_encoding(media@, encoding_name@) ==> e
                        != ConfigError::UnknownEncoding)
                },
            },
    {
        proof {
            // the selection contract tells the encodings apart, so the
            // literal views must be known distinct
            broadcast use vstd::string::group_string_axioms;

            reveal_strlit("video");
            reveal_strlit("audio");
            reveal_strlit("application");
            reveal_strlit("h264");
            reveal_strlit("mpeg4-generic");
            reveal_strlit("g726-16");
            reveal_strlit("g726-24");
            reveal_strlit("dvi4");
            reveal_strlit("g726-32");
            reveal_strlit("g726-40");
            reveal_strlit("pcma");
            reveal_strlit("pcmu");
            reveal_strlit("u8");
            reveal_strlit("g722");
            reveal_strlit("l16");
            reveal_strlit("g723");
            reveal_strlit("vnd.onvif.metadata");
            reveal_strlit("vnd.onvif.metadata.gzip");
            reveal_strlit("vnd.onvif.metadata.exi.onvif");
            reveal_strlit("vnd.onvif.metadata.exi.ext");
            assert("audio"@.len() == 5 && "video"@.len() == 5 && "application"@.len() == 11);
            assert("audio"@[0] == 'a' && "video"@[0] == 'v');
            assert("audio"@ != "video"@);
            assert("audio"@ != "application"@);
            assert("video"@ != "application"@);
            assert("mpeg4-generic"@.len() == 13 && "g723"@.len() == 4 && "l16"@.len() == 3);
            assert("mpeg4-generic"@ != "g723"@);
            assert("pcma"@.len() == 4 && "pcmu"@.len() == 4 && "u8"@.len() == 2 && "g722"@.len()
                == 4);
            assert("pcma"@ != "l16"@);
            assert("pcmu"@ != "l16"@);
            assert("u8"@ != "l16"@);
            assert("g722"@ != "l16"@);
            assert("pcma"@ != "mpeg4-generic"@ && "pcmu"@ != "mpeg4-generic"@ && "u8"@
                != "mpeg4-generic"@ && "g722"@ != "mpeg4-generic"@);
            assert("pcma"@[0] == 'p' && "pcmu"@[0] == 'p' && "g723"@[0] == 'g');
            assert("pcma"@ != "g723"@ && "pcmu"@ != "g723"@ && "u8"@ != "g723"@);
            assert("g722"@[3] == '2' && "g723"@[3] == '3');
            assert("g722"@ != "g723"@);
        }
        if str_eq(media, "video") && str_eq(encoding_name, "h264") {
            return match crate::h264::Depacketizer::new(clock_rate, format_specific_params) {
                Ok(d) => Ok(Depacketizer(DepacketizerInner::H264(Box::new(d)))),
                Err(e) => Err(e),
            };
        }
        if str_eq(media, "audio") {
            if str_eq(encoding_name, "mpeg4-generic") {
                return match crate::aac::Depacketizer::new(
                    clock_rate,
                    channels,
                    format_specific_params,
                ) {
                    Ok(d) => Ok(Depacketizer(DepacketizerInner::Aac(Box::new(d)))),
                    Err(e) => Err(e),
                };
            }
            if str_eq(encoding_name, "g723") {
                return match crate::g723::Depacketizer::new(clock_rate) {
                    Ok(d) => Ok(Depacketizer(DepacketizerInner::G723(Box::new(d)))),
                    Err(e) => Err(e),
                };
            }
            let bits: u32 = if str_eq(encoding_name, "g726-16") {
                2
            } else if str_eq(encoding_name, "g726-24") {
                3
            } else if str_eq(encoding_name, "dvi4") || str_eq(encoding_name, "g726-32") {
                4
            } else if str_eq(encoding_name, "g726-40") {
                5
            } else if str_eq(encoding_name, "pcma") || str_eq(encoding_name, "pcmu") || str_eq(
                encoding_name,
                "u8",
            ) || str_eq(encoding_name, "g722") {
                8
            } else if str_eq(encoding_name, "l16") {
                16
            } else {
                return Err(ConfigError::UnknownEncoding);
            };
            return Ok(Depacketizer(DepacketizerInner::SimpleAudio(Box::new(
                crate::simple_audio::Depacketizer::new(clock_rate, bits),
            ))));
        }
        if str_eq(media, "application") {
            let compression: crate::onvif::CompressionType = if str_eq(
                encoding_name,
                "vnd.onvif.metadata",
            ) {
                crate::onvif::CompressionType::Uncompressed
            } else if str_eq(encoding_name, "vnd.onvif.metadata.gzip") {
                crate::onvif::CompressionType::GzipCompressed
            } else if str_eq(encoding_name, "vnd.onvif.metadata.exi.onvif") {
                crate::onvif::CompressionType::ExiDefault
            } else if str_eq(encoding_name, "vnd.onvif.metadata.exi.ext") {
                crate::onvif::CompressionType::ExiInBand
            } else {
                return Err(ConfigError::UnknownEncoding);
            };
            return Ok(Depacketizer(DepacketizerInner::Onvif(Box::new(
                crate::onvif::Depacketizer::new(compression),
            ))));
        }
        Err(ConfigError::UnknownEncoding)
    }

    /// The best-known stream parameters, asked of the chosen codec.
    pub fn parameters(&self) -> (r: Option<Parameters>)
        ensures
            (match self.as_g723() {
                Some(_) => match r {
                    Some(Parameters::Audio(a)) => {
                        &&& a.rfc6381_codec is None
                        &&& a.frame_length == Some(240u32)
                        &&& a.clock_rate == crate::g723::FIXED_CLOCK_RATE
                        &&& crate::buf::bytes_seq(a.extra_data).len() == 0
                        &&& a.sample_entry is None
                    },
                    _ => false,
                },
                None => true,
            }),
            (match self.as_simple_audio() {
                Some(d) => match r {
                    Some(Parameters::Audio(a)) => {
                        &&& a.rfc6381_codec is None
                        &&& a.frame_length is None
                        &&& a.clock_rate == d.spec_clock_rate()
                        &&& crate::buf::bytes_seq(a.extra_data).len() == 0
                        &&& a.sample_entry is None
                    },
                    _ => false,
                },
                None => true,
            }),
            (match self.as_aac() {
                Some(d) => match r {
                    Some(Parameters::Audio(a)) => {
                        &&& (match a.rfc6381_codec {
                            Some(c) => c@ == d.spec_rfc6381(),
                            None => false,
                        })
                        &&& a.clock_rate == d.spec_clock_rate()
                        &&& a.frame_length == Some(d.spec_constant_duration())
                        &&& crate::buf::bytes_seq(a.extra_data) == d.spec_config()
                        &&& a.sample_entry is None
                    },
                    _ => false,
                },
                None => true,
            }),
            (match self.as_onvif() {
                Some(d) => match r {
                    Some(Parameters::Message(MessageParameters(c))) => c == d.spec_compression(),
                    _ => false,
                },
                None => true,
            }),
            (match self.as_h264() {
                Some(d) => match (r, d.spec_parameters()) {
                    (Some(Parameters::Video(a)), Some(b)) => crate::h264::vp_equiv(a, b),
                    (None, None) => true,
                    _ => false,
                },
                None => true,
            }),
    {
        match &self.0 {
            DepacketizerInner::Aac(d) => d.parameters(),
            DepacketizerInner::G723(d) => d.parameters(),
            DepacketizerInner::H264(d) => d.parameters(),
            DepacketizerInner::Onvif(d) => d.parameters(),
            DepacketizerInner::SimpleAudio(d) => d.parameters(),
        }
    }

    /// Feeds one packet into the chosen codec. Every prior item must have
    /// been drained through [`Self::pull`] first.
    pub fn push(&mut self, input: Packet) -> (r: Result<(), PayloadError>)
        requires
            old(self).wf(),
            old(self).ready(),
            0 < crate::buf::bytes_seq(input.payload).len() < 0x1_0000,
        ensures
            final(self).wf(),
            final(self).kind() == old(self).kind(),
            (match (old(self).as_g723(), final(self).as_g723()) {
                (Some(a), Some(b)) => match r {
                    Ok(()) => {
                        &&& crate::g723::g723_valid(crate::buf::bytes_seq(input.payload))
                        &&& b.pending_frame() == Some(
                            AudioFrame {
                                ctx: input.ctx,
                                stream_id: input.stream_id,
                                timestamp: input.timestamp,
                                frame_length: 240u32,
                                loss: input.loss,
                                data: input.payload,
                            },
                        )
                    },
                    Err(e) => {
                        &&& !crate::g723::g723_valid(crate::buf::bytes_seq(input.payload))
                        &&& e == PayloadError::G723InvalidPacket
                        &&& b.pending_frame() is None
                    },
                },
                (None, None) => true,
                _ => false,
            }),
            (match (old(self).as_simple_audio(), final(self).as_simple_audio()) {
                (Some(a), Some(b)) => {
                    &&& r is Ok
                    &&& b.pending_frame() == Some(
                        AudioFrame {
                            ctx: input.ctx,
                            stream_id: input.stream_id,
                            timestamp: input.timestamp,
                            frame_length: (crate::buf::bytes_seq(input.payload).len() as int * 8
                                / a.spec_bits_per_sample() as int) as u32,
                            loss: input.loss,
                            data: input.payload,
                        },
                    )
                },
                (None, None) => true,
                _ => false,
            }),
            (match (old(self).as_onvif(), final(self).as_onvif()) {
                (Some(a), Some(b)) => r is Ok && crate::onvif::push_post(a, b, input),
                (None, None) => true,
                _ => false,
            }),
            (match (old(self).as_h264(), final(self).as_h264()) {
                (Some(a), Some(b)) => match r {
                    Ok(()) => {
                        &&& crate::h264::push_error_spec(a, input) is None
                        &&& crate::h264::push_ok_post(a, b, input)
                    },
                    Err(e) => {
                        &&& crate::h264::unchanged_state(a, b)
                        &&& {
                            ||| crate::h264::push_error_spec(a, input) == Some(e)
                            ||| (e == PayloadError::H264BadSps && crate::h264::push_error_spec(
                                a,
                                input,
                            ) is None && crate::h264::spec_params_refused(a, input))
                        }
                    },
                },
                (None, None) => true,
                _ => false,
            }),
            (match (old(self).as_aac(), final(self).as_aac()) {
                (Some(a), Some(b)) => match r {
                    Ok(()) => {
                        &&& crate::aac::aac_push_error(a, input) is None
                        &&& crate::aac::aac_push_ok_post(a, b, input)
                    },
                    Err(e) => {
                        &&& crate::aac::aac_push_error(a, input) == Some(e)
                        &&& crate::aac::unchanged_state(a, b)
                    },
                },
                (None, None) => true,
                _ => false,
            }),
    {
        match &mut self.0 {
            DepacketizerInner::Aac(d) => d.push(input),
            DepacketizerInner::G723(d) => d.push(input),
            DepacketizerInner::H264(d) => d.push(input),
            DepacketizerInner::Onvif(d) => d.push(input),
            DepacketizerInner::SimpleAudio(d) => d.push(input),
        }
    }

    /// Pulls the next ready item out of the chosen codec; drain until
    /// `None` before the next push.
    pub fn pull(&mut self, _conn_ctx: &crate::ConnectionContext) -> (r: Result<
        Option<CodecItem>,
        PayloadError,
    >)
        requires
            old(self).wf(),
        ensures
            final(self).wf(),
            final(self).kind() == old(self).kind(),
            r is Ok,
            (match (old(self).as_g723(), final(self).as_g723()) {
                (Some(a), Some(b)) => b.pending_frame() is None && (match a.pending_frame() {
                    Some(f) => r == Ok::<Option<CodecItem>, PayloadError>(
                        Some(CodecItem::AudioFrame(f)),
                    ),
                    None => r == Ok::<Option<CodecItem>, PayloadError>(None),
                }),
                (None, None) => true,
                _ => false,
            }),
            (match (old(self).as_simple_audio(), final(self).as_simple_audio()) {
                (Some(a), Some(b)) => b.pending_frame() is None && (match a.pending_frame() {
                    Some(f) => r == Ok::<Option<CodecItem>, PayloadError>(
                        Some(CodecItem::AudioFrame(f)),
                    ),
                    None => r == Ok::<Option<CodecItem>, PayloadError>(None),
                }),
                (None, None) => true,
                _ => false,
            }),
            (match (old(self).as_onvif(), final(self).as_onvif()) {
                (Some(a), Some(b)) => b.pending_message() is None && (match a.pending_message() {
                    Some(f) => r == Ok::<Option<CodecItem>, PayloadError>(
                        Some(CodecItem::MessageFrame(f)),
                    ),
                    None => r == Ok::<Option<CodecItem>, PayloadError>(None),
                }),
                (None, None) => true,
                _ => false,
            }),
            (match (old(self).as_h264(), final(self).as_h264()) {
                (Some(a), Some(b)) => if a.pending_frames().len() > 0 {
                    &&& r == Ok::<Option<CodecItem>, PayloadError>(
                        Some(CodecItem::VideoFrame(a.pending_frames()[0])),
                    )
                    &&& b.pending_frames() == a.pending_frames().skip(1)
                } else {
                    r == Ok::<Option<CodecItem>, PayloadError>(None) && b.pending_frames()
                        == a.pending_frames()
                },
                (None, None) => true,
                _ => false,
            }),
            (match (old(self).as_aac(), final(self).as_aac()) {
                (Some(a), Some(b)) => if a.pending_frames().len() > 0 {
                    &&& r == Ok::<Option<CodecItem>, PayloadError>(
                        Some(CodecItem::AudioFrame(a.pending_frames()[0])),
                    )
                    &&& b.pending_frames() == a.pending_frames().skip(1)
                } else {
                    r == Ok::<Option<CodecItem>, PayloadError>(None) && b.pending_frames()
                        == a.pending_frames()
                },
                (None, None) => true,
                _ => false,
            }),
    {
        match &mut self.0 {
            DepacketizerInner::Aac(d) => Ok(d.pull()),
            DepacketizerInner::G723(d) => Ok(d.pull()),
            DepacketizerInner::H264(d) => Ok(d.pull()),
            DepacketizerInner::Onvif(d) => Ok(d.pull()),
            DepacketizerInner::SimpleAudio(d) => Ok(d.pull()),
        }
    }
}

} // verus!
