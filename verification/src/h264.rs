//! H.264 depacketization (RFC 6184): single NAL units, STAP-A aggregation
//! and FU-A fragmentation, grouped into access units by the RTP timestamp
//! and the mark bit, and emitted in length-prefixed (AVCC) form. In-band
//! SPS/PPS pairs are parsed into stream parameters.

use vstd::prelude::*;

verus! {

use crate::buf::{
    bytes_at, bytes_from_vec, bytes_len, bytes_seq, extend_from_bytes, string_from_ascii,
};
use crate::codec::{CodecItem, ConfigError, Parameters, PayloadError, VideoFrame, VideoParameters};
use crate::rtp::{be16, Packet};
use crate::{RtspMessageContext, Timestamp};

/// Bound on a single reassembled NAL unit, so a malicious fragment stream
/// cannot grow a buffer without limit.
pub const MAX_NAL_SIZE: usize = 2 * 1024 * 1024;

/// Bound on the NAL units of one access unit.
pub const MAX_NALS_PER_AU: usize = 512;

/// The type of a NAL unit: the low five bits of its first byte.
pub open spec fn nal_type(n: Seq<u8>) -> u8 {
    n[0] & 0x1f
}

/// The `nal_ref_idc` of a NAL unit: the high two bits of its first byte.
pub open spec fn nal_ref_idc(n: Seq<u8>) -> u8 {
    n[0] >> 5
}

/// The four big-endian bytes of `n`.
pub open spec fn be32_bytes(n: int) -> Seq<u8> {
    seq![
        ((n / 0x100_0000) % 0x100) as u8,
        ((n / 0x1_0000) % 0x100) as u8,
        ((n / 0x100) % 0x100) as u8,
        (n % 0x100) as u8,
    ]
}

/// An access unit in AVCC form: each NAL unit prefixed with its four-byte
/// big-endian length.
pub open spec fn avcc_encode(ns: Seq<Seq<u8>>) -> Seq<u8>
    decreases ns.len(),
{
    if ns.len() == 0 {
        Seq::<u8>::empty()
    } else {
        avcc_encode(ns.drop_last()) + be32_bytes(ns.last().len() as int) + ns.last()
    }
}

/// Whether an access unit contains an IDR picture (NAL type 5).
pub open spec fn has_idr(ns: Seq<Seq<u8>>) -> bool {
    exists|i: int| 0 <= i < ns.len() && nal_type(#[trigger] ns[i]) == 5
}

/// Whether every NAL unit of an access unit has `nal_ref_idc == 0`.
pub open spec fn all_disposable(ns: Seq<Seq<u8>>) -> bool {
    forall|i: int| 0 <= i < ns.len() ==> nal_ref_idc(#[trigger] ns[i]) == 0
}

/// The NAL units of a STAP-A payload from offset `off`: a run of
/// `(u16 length, NAL bytes)` records that ends exactly at the payload's
/// end, each record at least one byte long.
pub open spec fn stap_items(p: Seq<u8>, off: int) -> Option<Seq<Seq<u8>>>
    decreases p.len() - off,
{
    if off == p.len() {
        Some(Seq::<Seq<u8>>::empty())
    } else if off + 2 <= p.len() && 1 <= be16(p, off) && off + 2 + be16(p, off) <= p.len() {
        match stap_items(p, off + 2 + be16(p, off)) {
            Some(rest) => Some(seq![p.subrange(off + 2, off + 2 + be16(p, off))] + rest),
            None => None,
        }
    } else {
        None
    }
}

/// The byte sequence with H.264 emulation-prevention bytes removed: every
/// `00 00 03` becomes `00 00`.
pub open spec fn unescape_rbsp(b: Seq<u8>) -> Seq<u8>
    decreases b.len(),
{
    if b.len() == 0 {
        Seq::<u8>::empty()
    } else if b.len() >= 3 && b[0] == 0 && b[1] == 0 && b[2] == 3 {
        seq![0u8, 0u8] + unescape_rbsp(b.skip(3))
    } else {
        seq![b[0]] + unescape_rbsp(b.skip(1))
    }
}

/// The RBSP of a NAL unit: its bytes after the one-byte header, unescaped.
pub open spec fn nal_rbsp(n: Seq<u8>) -> Seq<u8> {
    unescape_rbsp(n.skip(1))
}

/// One uppercase hex digit.
pub open spec fn hex_nibble(n: u8) -> u8 {
    if n < 10 {
        (0x30 + n) as u8
    } else {
        (0x41 + n - 10) as u8
    }
}

/// The ASCII bytes of the RFC 6381 codec string `avc1.PPCCLL` built from
/// the profile, constraint and level bytes.
pub open spec fn rfc6381_bytes(profile: u8, constraints: u8, level: u8) -> Seq<u8> {
    seq![
        0x61u8, 0x76u8, 0x63u8, 0x31u8, 0x2eu8,
        hex_nibble(profile >> 4), hex_nibble(profile & 0xf),
        hex_nibble(constraints >> 4), hex_nibble(constraints & 0xf),
        hex_nibble(level >> 4), hex_nibble(level & 0xf),
    ]
}

/// The AVCDecoderConfigurationRecord for one SPS and one PPS: version 1,
/// the SPS's profile/constraint/level, four-byte NAL lengths, then the two
/// parameter sets with two-byte length prefixes.
pub open spec fn avcc_record(sps: Seq<u8>, pps: Seq<u8>) -> Seq<u8> {
    let rb = nal_rbsp(sps);
    seq![
        1u8, rb[0], rb[1], rb[2], 0xffu8, 0xe1u8,
        ((sps.len() / 0x100) % 0x100) as u8, (sps.len() % 0x100) as u8,
    ] + sps + seq![1u8, ((pps.len() / 0x100) % 0x100) as u8, (pps.len() % 0x100) as u8] + pps
}

/// Dimensions and identification parsed from a sequence parameter set.
pub struct SpsInfo {
    pub profile_idc: u8,
    pub constraint_flags: u8,
    pub level_idc: u8,
    pub width: u32,
    pub height: u32,
}

/// The view of a list of owned NAL units.
pub open spec fn vecs_view(v: Seq<Vec<u8>>) -> Seq<Seq<u8>> {
    v.map_values(|n: Vec<u8>| n@)
}

/// Splits a STAP-A payload into its NAL units; `None` exactly when the
/// length prefixes do not tile the payload.
fn split_stap_a(p: &bytes::Bytes) -> (r: Option<Vec<Vec<u8>>>)
    requires
        bytes_seq(*p).len() >= 1,
        bytes_seq(*p).len() <= usize::MAX,
    ensures
        match r {
            Some(v) => stap_items(bytes_seq(*p), 1) == Some(vecs_view(v@)),
            None => stap_items(bytes_seq(*p), 1) is None,
        },
{
    let ghost s = bytes_seq(*p);
    let n = bytes_len(p);
    let mut acc: Vec<Vec<u8>> = Vec::new();
    let mut off: usize = 1;
    loop
        invariant
            1 <= off <= n,
            n == s.len() <= usize::MAX,
            s == bytes_seq(*p),
            match stap_items(s, off as int) {
                Some(rest) => stap_items(s, 1) == Some(vecs_view(acc@) + rest),
                None => stap_items(s, 1) is None,
            },
        decreases n - off,
    {
        if off == n {
            proof {
                assert(stap_items(s, off as int) == Some(Seq::<Seq<u8>>::empty()));
                assert(vecs_view(acc@) + Seq::<Seq<u8>>::empty() =~= vecs_view(acc@));
            }
            return Some(acc);
        }
        if n - off < 2 {
            return None;
        }
        let sz = crate::rtp::read_be16(p, off) as usize;
        if sz < 1 || sz > n - off - 2 {
            return None;
        }
        let mut item: Vec<u8> = Vec::new();
        extend_from_bytes(&mut item, p, off + 2, off + 2 + sz);
        proof {
            assert(item@ =~= s.subrange(off + 2, off + 2 + sz));
        }
        let ghost old_acc = acc@;
        acc.push(item);
        proof {
            assert(vecs_view(acc@) =~= vecs_view(old_acc) + seq![s.subrange(off + 2, off + 2 + sz)]);
            if stap_items(s, (off + 2 + sz) as int) is Some {
                assert(vecs_view(old_acc) + (seq![s.subrange(off + 2, off + 2 + sz)]
                    + stap_items(s, (off + 2 + sz) as int)->Some_0) =~= vecs_view(acc@)
                    + stap_items(s, (off + 2 + sz) as int)->Some_0);
            }
        }
        off = off + 2 + sz;
    }
}

/// Removes emulation-prevention bytes from `v[start..]`.
fn unescape(v: &Vec<u8>, start: usize) -> (r: Vec<u8>)
    requires
        start <= v@.len(),
    ensures
        r@ == unescape_rbsp(v@.skip(start as int)),
{
    let n = v.len();
    let mut out: Vec<u8> = Vec::new();
    let mut i: usize = start;
    loop
        invariant
            start <= i <= n,
            n == v@.len(),
            unescape_rbsp(v@.skip(start as int)) == out@ + unescape_rbsp(v@.skip(i as int)),
        decreases n - i,
    {
        if i == n {
            proof {
                assert(v@.skip(i as int) =~= Seq::<u8>::empty());
                assert(out@ + unescape_rbsp(v@.skip(i as int)) =~= out@);
            }
            return out;
        }
        let ghost rest = v@.skip(i as int);
        if n - i > 2 && v[i] == 0 && v[i + 1] == 0 && v[i + 2] == 3 {
            out.push(0);
            out.push(0);
            proof {
                assert(rest.len() >= 3 && rest[0] == 0 && rest[1] == 0 && rest[2] == 3);
                assert(rest.skip(3) =~= v@.skip(i + 3));
                assert(out@ + unescape_rbsp(v@.skip(i + 3)) =~= (out@.subrange(
                    0,
                    out@.len() - 2,
                ) + seq![0u8, 0u8]) + unescape_rbsp(v@.skip(i + 3)));
                assert(out@.subrange(0, out@.len() - 2) + (seq![0u8, 0u8] + unescape_rbsp(
                    v@.skip(i + 3),
                )) =~= (out@.subrange(0, out@.len() - 2) + seq![0u8, 0u8]) + unescape_rbsp(
                    v@.skip(i + 3),
                ));
            }
            i = i + 3;
        } else {
            let b = v[i];
            out.push(b);
            proof {
                assert(rest.len() >= 1 && rest[0] == b);
                assert(!(rest.len() >= 3 && rest[0] == 0 && rest[1] == 0 && rest[2] == 3));
                assert(rest.skip(1) =~= v@.skip(i + 1));
                assert(out@ + unescape_rbsp(v@.skip(i + 1)) =~= (out@.subrange(
                    0,
                    out@.len() - 1,
                ) + seq![b]) + unescape_rbsp(v@.skip(i + 1)));
                assert(out@.subrange(0, out@.len() - 1) + (seq![b] + unescape_rbsp(v@.skip(i + 1)))
                    =~= (out@.subrange(0, out@.len() - 1) + seq![b]) + unescape_rbsp(
                    v@.skip(i + 1),
                ));
            }
            i = i + 1;
        }
    }
}

/// The bit at position `i` of a byte run, most significant first.
pub open spec fn sbit(b: Seq<u8>, i: int) -> u8 {
    (b[i / 8] >> ((7 - (i % 8)) as u32)) & 1
}

/// The `n` bits at position `s`, read big-endian.
pub open spec fn sbits(b: Seq<u8>, s: int, n: int) -> int
    decreases n,
{
    if n <= 0 {
        0
    } else {
        sbits(b, s, n - 1) * 2 + sbit(b, s + n - 1)
    }
}

/// Reading `n` bits at `s`: the value and the next position, when they fit.
pub open spec fn sread(b: Seq<u8>, s: int, n: int) -> Option<(int, int)> {
    if s + n <= b.len() * 8 {
        Some((sbits(b, s, n), s + n))
    } else {
        None
    }
}

/// The count of zero bits before the first one-bit at or after `s + k`;
/// negative when the bits run out or the count passes 31.
pub open spec fn szeros(b: Seq<u8>, s: int, k: int) -> int
    decreases 32 - k,
{
    if k > 31 {
        -1
    } else if s + k >= b.len() * 8 {
        -1
    } else if sbit(b, s + k) == 1 {
        k
    } else {
        szeros(b, s, k + 1)
    }
}

/// Reading one unsigned exp-Golomb value at `s`: the value and the next
/// position.
pub open spec fn sue(b: Seq<u8>, s: int) -> Option<(int, int)> {
    let z = szeros(b, s, 0);
    if z < 0 {
        None
    } else if s + 2 * z + 1 > b.len() * 8 {
        None
    } else {
        Some((((1u64 << (z as u64)) - 1) + sbits(b, s + z + 1, z), s + 2 * z + 1))
    }
}

/// Skipping `k` exp-Golomb values from `s`: the next position.
pub open spec fn s_skip_ues(b: Seq<u8>, s: int, k: int) -> Option<int>
    decreases k,
{
    if k <= 0 {
        Some(s)
    } else {
        match sue(b, s) {
            Some((_, s2)) => s_skip_ues(b, s2, k - 1),
            None => None,
        }
    }
}

/// The profile values whose SPS carries the chroma/bit-depth block.
pub open spec fn high_profile(profile: u8) -> bool {
    ||| profile == 100
    ||| profile == 110
    ||| profile == 122
    ||| profile == 244
    ||| profile == 44
    ||| profile == 83
    ||| profile == 86
    ||| profile == 118
    ||| profile == 128
    ||| profile == 138
    ||| profile == 139
    ||| profile == 134
    ||| profile == 135
}

/// The high-profile prefix after the parameter-set id: the chroma format
/// and the position after it. An SPS with its own scaling matrix is not
/// accepted.
#[verifier::opaque]
pub open spec fn sps_high_block(rb: Seq<u8>, p: int, profile: u8) -> Option<(int, int)> {
    if !high_profile(profile) {
        Some((1, p))
    } else {
        match sue(rb, p) {
            None => None,
            Some((chroma, p2)) => if chroma > 3 {
                None
            } else {
                let p3 = if chroma == 3 {
                    p2 + 1
                } else {
                    p2
                };
                if p3 > rb.len() * 8 {
                    None
                } else {
                    match s_skip_ues(rb, p3, 2) {
                        None => None,
                        Some(p4) => match sread(rb, p4, 1) {
                            None => None,
                            Some((_, p5)) => match sread(rb, p5, 1) {
                                None => None,
                                Some((scaling, p6)) => if scaling == 1 {
                                    None
                                } else {
                                    Some((chroma, p6))
                                },
                            },
                        },
                    }
                }
            },
        }
    }
}

/// The picture-order-count block: the position after it.
#[verifier::opaque]
pub open spec fn sps_poc_block(rb: Seq<u8>, p: int) -> Option<int> {
    match sue(rb, p) {
        None => None,
        Some((poc_type, p2)) => if poc_type == 0 {
            match sue(rb, p2) {
                None => None,
                Some((_, p3)) => Some(p3),
            }
        } else if poc_type == 1 {
            match sread(rb, p2, 1) {
                None => None,
                Some((_, p3)) => match s_skip_ues(rb, p3, 2) {
                    None => None,
                    Some(p4) => match sue(rb, p4) {
                        None => None,
                        Some((cycles, p5)) => if cycles > 255 {
                            None
                        } else {
                            s_skip_ues(rb, p5, cycles)
                        },
                    },
                },
            }
        } else {
            Some(p2)
        },
    }
}

/// The dimensions tail: width and height from the macroblock counts, the
/// frame-mbs flag and the cropping rectangle.
#[verifier::opaque]
pub open spec fn sps_dims(rb: Seq<u8>, p: int, chroma: int) -> Option<(int, int)> {
    match sue(rb, p) {
        None => None,
        Some((_, p2)) => match sread(rb, p2, 1) {
            None => None,
            Some((_, p3)) => match sue(rb, p3) {
                None => None,
                Some((pw, p4)) => match sue(rb, p4) {
                    None => None,
                    Some((ph, p5)) => if pw >= 4096 || ph >= 4096 {
                        None
                    } else {
                        match sread(rb, p5, 1) {
                            None => None,
                            Some((fmo, p6)) => {
                                let p7 = if fmo == 0 {
                                    p6 + 1
                                } else {
                                    p6
                                };
                                if p7 + 2 > rb.len() * 8 {
                                    None
                                } else {
                                    let cropping = sbits(rb, p7 + 1, 1);
                                    let p8 = p7 + 2;
                                    match (if cropping == 1 {
                                        match sue(rb, p8) {
                                            None => None,
                                            Some((cl, q1)) => match sue(rb, q1) {
                                                None => None,
                                                Some((cr, q2)) => match sue(rb, q2) {
                                                    None => None,
                                                    Some((ct, q3)) => match sue(rb, q3) {
                                                        None => None,
                                                        Some((cb, _)) => Some((cl, cr, ct, cb)),
                                                    },
                                                },
                                            },
                                        }
                                    } else {
                                        Some((0int, 0int, 0int, 0int))
                                    }) {
                                        None => None,
                                        Some((cl, cr, ct, cb)) => if cl > 0xffff || cr > 0xffff
                                            || ct > 0xffff || cb > 0xffff {
                                            None
                                        } else {
                                            let sub_w: int = if chroma == 1 || chroma == 2 {
                                                2
                                            } else {
                                                1
                                            };
                                            let sub_h: int = if chroma == 1 {
                                                2
                                            } else {
                                                1
                                            };
                                            let unit_y = sub_h * (2 - fmo);
                                            let width_total = (pw + 1) * 16;
                                            let height_total = (2 - fmo) * (ph + 1) * 16;
                                            let crop_x = sub_w * (cl + cr);
                                            let crop_y = unit_y * (ct + cb);
                                            if crop_x >= width_total || crop_y >= height_total {
                                                None
                                            } else {
                                                Some((width_total - crop_x, height_total - crop_y))
                                            }
                                        },
                                    }
                                }
                            },
                        }
                    },
                },
            },
        },
    }
}

/// The sequence parameter sets this library accepts, and what it reads
/// from them: bit-exact over the unescaped RBSP. Scaling matrices and the
/// reserved chroma and cycle ranges are refused.
#[verifier::opaque]
pub open spec fn sps_spec(n: Seq<u8>) -> Option<SpsInfo> {
    if n.len() < 4 {
        None
    } else {
        let rb = nal_rbsp(n);
        if rb.len() < 4 || rb.len() > 0x1_0000 {
            None
        } else {
            match sue(rb, 24) {
                None => None,
                Some((_, p1)) => match sps_high_block(rb, p1, rb[0]) {
                    None => None,
                    Some((chroma, p2)) => match sue(rb, p2) {
                        None => None,
                        Some((_, p3)) => match sps_poc_block(rb, p3) {
                            None => None,
                            Some(p4) => match sps_dims(rb, p4, chroma) {
                                None => None,
                                Some((w, h)) => Some(
                                    SpsInfo {
                                        profile_idc: rb[0],
                                        constraint_flags: rb[1],
                                        level_idc: rb[2],
                                        width: w as u32,
                                        height: h as u32,
                                    },
                                ),
                            },
                        },
                    },
                },
            }
        }
    }
}

/// A sequence parameter set the parser accepts.
pub open spec fn sps_acceptable(n: Seq<u8>) -> bool {
    sps_spec(n) is Some
}

/// Reads `count` bits at bit position `*pos` of `v`, big-endian, and
/// advances the position; `None`, leaving the position alone, when the
/// bits run out.
fn read_bits(v: &Vec<u8>, pos: &mut usize, count: usize) -> (r: Option<u32>)
    requires
        count <= 32,
        v@.len() <= 0x1_0000,
        old(pos) <= 0x10_0000,
    ensures
        match r {
            Some(x) => {
                &&& *final(pos) == *old(pos) + count
                &&& (count > 0 ==> *old(pos) + count <= v@.len() * 8)
                &&& x < (1u64 << count as u64)
                &&& x == sbits(v@, *old(pos) as int, count as int)
            },
            None => *final(pos) == *old(pos) && *old(pos) + count > v@.len() * 8,
        },
{
    if count == 0 {
        proof {
            assert(0u64 < (1u64 << 0u64)) by (bit_vector);
        }
        return Some(0);
    }
    if v.len() * 8 < count || *pos > v.len() * 8 - count {
        return None;
    }
    let mut acc: u32 = 0;
    let mut k: usize = 0;
    proof {
        assert(0u64 < (1u64 << 0u64)) by (bit_vector);
    }
    while k < count
        invariant
            k <= count <= 32,
            *pos + count <= v@.len() * 8,
            v@.len() <= 0x1_0000,
            *pos == *old(pos),
            acc < (1u64 << k as u64),
            acc == sbits(v@, *pos as int, k as int),
        decreases count - k,
    {
        let byte_idx = (*pos + k) / 8;
        let bit_idx = (*pos + k) % 8;
        let byte = v[byte_idx];
        let bit = (byte >> (7 - bit_idx) as u32) & 1;
        proof {
            let b8 = byte;
            let sh = (7 - bit_idx) as u32;
            assert((b8 >> sh) & 1 <= 1) by (bit_vector);
            let a = acc as u64;
            let kk = k as u64;
            let bb = bit as u64;
            assert(a < (1u64 << kk) && kk < 32 && bb <= 1 ==> 2 * a + bb < (1u64 << (kk + 1))
                && 2 * a + bb <= 0xffff_ffffu64) by (bit_vector);
            assert(bit == sbit(v@, *pos as int + k as int));
        }
        acc = acc * 2 + bit as u32;
        k = k + 1;
    }
    *pos = *pos + count;
    Some(acc)
}

/// Reads one unsigned exp-Golomb value: exactly [`sue`] at the position.
#[verifier::rlimit(100)]
fn read_ue(v: &Vec<u8>, pos: &mut usize) -> (r: Option<u32>)
    requires
        v@.len() <= 0x1_0000,
        old(pos) <= 0x10_0000,
    ensures
        *final(pos) <= *old(pos) + 65,
        match r {
            Some(x) => {
                &&& sue(v@, *old(pos) as int) == Some((x as int, *final(pos) as int))
                &&& *old(pos) < *final(pos) <= v@.len() * 8
                &&& x <= 0xffff_fffe
            },
            None => sue(v@, *old(pos) as int) is None,
        },
{
    let mut zeros: usize = 0;
    loop
        invariant
            zeros <= 32,
            *pos == *old(pos) + zeros,
            zeros > 0 ==> *pos <= v@.len() * 8,
            v@.len() <= 0x1_0000,
            *old(pos) <= 0x10_0000,
            szeros(v@, *old(pos) as int, 0) == szeros(v@, *old(pos) as int, zeros as int),
        decreases 33 - zeros,
    {
        if zeros > 31 {
            proof {
                assert(szeros(v@, *old(pos) as int, zeros as int) == -1);
            }
            return None;
        }
        match read_bits(v, pos, 1) {
            None => {
                proof {
                    assert(szeros(v@, *old(pos) as int, zeros as int) == -1);
                }
                return None;
            },
            Some(b) => {
                proof {
                    let p = *old(pos) as int + zeros as int;
                    assert(sbits(v@, p, 0) == 0);
                    assert(sbits(v@, p, 1) == sbit(v@, p));
                    assert(b == sbit(v@, p));
                }
                if b == 1 {
                    proof {
                        assert(szeros(v@, *old(pos) as int, 0) == zeros);
                        assert((1u64 << 0u64) == 1) by (bit_vector);
                        assert(sbits(v@, *old(pos) as int + 1, 0) == 0);
                    }
                    if zeros == 0 {
                        return Some(0);
                    }
                    return match read_bits(v, pos, zeros) {
                        None => None,
                        Some(tail) => {
                            proof {
                                let z = zeros as u64;
                                let t = tail as u64;
                                assert(1u64 <= z <= 31 ==> (1u64 << z) >= 1 && (1u64 << z)
                                    <= 0x8000_0000u64) by (bit_vector);
                                assert(1u64 <= z <= 31 && t < (1u64 << z) ==> (1u64 << z) - 1 + t
                                    <= 0xffff_fffeu64) by (bit_vector);
                            }
                            let base: u64 = 1u64 << zeros as u64;
                            Some(((base - 1) + tail as u64) as u32)
                        },
                    };
                }
                zeros = zeros + 1;
            },
        }
    }
}

/// Skips one signed exp-Golomb value, which shares its layout with the
/// unsigned one.
fn skip_se(v: &Vec<u8>, pos: &mut usize) -> (r: bool)
    requires
        v@.len() <= 0x1_0000,
        old(pos) <= 0x10_0000,
    ensures
        *final(pos) <= *old(pos) + 65,
        r ==> (sue(v@, *old(pos) as int) matches Some((_, p)) && *final(pos) == p && *old(pos)
            < *final(pos) <= v@.len() * 8),
        !r ==> sue(v@, *old(pos) as int) is None,
{
    read_ue(v, pos).is_some()
}

/// Skips a run of exp-Golomb values: exactly [`s_skip_ues`].
#[verifier::rlimit(100)]
fn skip_ues_run(rbsp: &Vec<u8>, pos: &mut usize, count: u32) -> (r: bool)
    requires
        4 <= rbsp@.len() <= 0x1_0000,
        *old(pos) <= rbsp@.len() * 8,
        count <= 255,
    ensures
        r ==> s_skip_ues(rbsp@, *old(pos) as int, count as int) == Some(*final(pos) as int)
            && *final(pos) <= rbsp@.len() * 8,
        !r ==> s_skip_ues(rbsp@, *old(pos) as int, count as int) is None,
{
    let ghost rb = rbsp@;
    let ghost p0 = *pos as int;
    let mut ci: u32 = 0;
    while ci < count
        invariant
            ci <= count <= 255,
            rb == rbsp@,
            p0 == *old(pos) as int,
            4 <= rbsp@.len() <= 0x1_0000,
            *pos <= rbsp@.len() * 8,
            s_skip_ues(rb, p0, count as int) == s_skip_ues(
                rb,
                *pos as int,
                count as int - ci as int,
            ),
        decreases count - ci,
    {
        let ghost pc = *pos as int;
        if !skip_se(rbsp, pos) {
            proof {
                assert(s_skip_ues(rb, pc, count as int - ci as int) is None);
            }
            return false;
        }
        proof {
            assert(s_skip_ues(rb, pc, count as int - ci as int) == s_skip_ues(
                rb,
                *pos as int,
                count as int - ci as int - 1,
            ));
        }
        ci = ci + 1;
    }
    proof {
        assert(s_skip_ues(rb, *pos as int, 0) == Some(*pos as int));
    }
    true
}

/// Parses the tail of an SPS after the high-profile block: the
/// picture-order-count block, then the dimension fields; the result is
/// exactly what [`sps_poc_block`] and [`sps_dims`] give.
#[verifier::rlimit(100)]
fn parse_sps_tail(rbsp: &Vec<u8>, pos0: usize, chroma: u32) -> (r: Option<(u32, u32)>)
    requires
        4 <= rbsp@.len() <= 0x1_0000,
        pos0 <= rbsp@.len() * 8,
        chroma <= 3,
    ensures
        match r {
            Some((w, h)) => ({
                &&& 0 < w <= 0x1_0000
                &&& 0 < h <= 0x2_0000
                &&& (match sue(rbsp@, pos0 as int) {
                    Some((_, p)) => match sps_poc_block(rbsp@, p) {
                        Some(p2) => sps_dims(rbsp@, p2, chroma as int) == Some(
                            (w as int, h as int),
                        ),
                        None => false,
                    },
                    None => false,
                })
            }),
            None => (match sue(rbsp@, pos0 as int) {
                Some((_, p)) => match sps_poc_block(rbsp@, p) {
                    Some(p2) => sps_dims(rbsp@, p2, chroma as int) is None,
                    None => true,
                },
                None => true,
            }),
        },
{
    proof {
        reveal(sps_poc_block);
    }
    let ghost rb = rbsp@;
    let mut pos = pos0;
    // log2_max_frame_num_minus4
    if read_ue(rbsp, &mut pos).is_none() {
        return None;
    }
    let ghost p_poc = pos as int;
    let pic_order_cnt_type = match read_ue(rbsp, &mut pos) {
        Some(t) => t,
        None => {
            return None;
        },
    };
    if pic_order_cnt_type == 0 {
        if read_ue(rbsp, &mut pos).is_none() {
            return None;
        }
    } else if pic_order_cnt_type == 1 {
        if read_bits(rbsp, &mut pos, 1).is_none() {
            return None;
        }
        let ghost p_off = pos as int;
        if !skip_se(rbsp, &mut pos) {
            proof {
                assert(s_skip_ues(rb, p_off, 2) is None);
            }
            return None;
        }
        let ghost p_mid = pos as int;
        if !skip_se(rbsp, &mut pos) {
            proof {
                assert(s_skip_ues(rb, p_mid, 1) is None);
                assert(s_skip_ues(rb, p_off, 2) is None);
            }
            return None;
        }
        proof {
            assert(s_skip_ues(rb, pos as int, 0) == Some(pos as int));
            assert(s_skip_ues(rb, p_mid, 1) == Some(pos as int));
            assert(s_skip_ues(rb, p_off, 2) == Some(pos as int));
        }
        let cycles = match read_ue(rbsp, &mut pos) {
            Some(c) => c,
            None => {
                return None;
            },
        };
        if cycles > 255 {
            return None;
        }
        if !skip_ues_run(rbsp, &mut pos, cycles) {
            return None;
        }
    }
    let ghost p_dims = pos as int;
    proof {
        assert(sps_poc_block(rb, p_poc) == Some(p_dims));
    }
    parse_sps_dims(rbsp, pos, chroma)
}

/// Parses the dimension fields of an SPS: exactly [`sps_dims`].
#[verifier::rlimit(100)]
fn parse_sps_dims(rbsp: &Vec<u8>, pos0: usize, chroma: u32) -> (r: Option<(u32, u32)>)
    requires
        4 <= rbsp@.len() <= 0x1_0000,
        pos0 <= rbsp@.len() * 8,
        chroma <= 3,
    ensures
        match r {
            Some((w, h)) => 0 < w <= 0x1_0000 && 0 < h <= 0x2_0000 && sps_dims(
                rbsp@,
                pos0 as int,
                chroma as int,
            ) == Some((w as int, h as int)),
            None => sps_dims(rbsp@, pos0 as int, chroma as int) is None,
        },
{
    proof {
        reveal(sps_dims);
    }
    let ghost rb = rbsp@;
    let mut pos = pos0;
    // max_num_ref_frames and gaps_in_frame_num_value_allowed_flag
    if read_ue(rbsp, &mut pos).is_none() {
        return None;
    }
    if read_bits(rbsp, &mut pos, 1).is_none() {
        return None;
    }
    let pw_mbs_m1 = match read_ue(rbsp, &mut pos) {
        Some(w) => w,
        None => {
            return None;
        },
    };
    let ph_map_m1 = match read_ue(rbsp, &mut pos) {
        Some(h) => h,
        None => {
            return None;
        },
    };
    if pw_mbs_m1 >= 4096 || ph_map_m1 >= 4096 {
        return None;
    }
    let frame_mbs_only = match read_bits(rbsp, &mut pos, 1) {
        Some(f) => f,
        None => {
            return None;
        },
    };
    proof {
        assert(frame_mbs_only < (1u64 << 1u64) ==> frame_mbs_only <= 1) by (bit_vector);
    }
    let ghost p6 = pos as int;
    if frame_mbs_only == 0 {
        // mb_adaptive_frame_field_flag
        if read_bits(rbsp, &mut pos, 1).is_none() {
            return None;
        }
    }
    // direct_8x8_inference_flag
    if read_bits(rbsp, &mut pos, 1).is_none() {
        return None;
    }
    let cropping = match read_bits(rbsp, &mut pos, 1) {
        Some(c) => c,
        None => {
            return None;
        },
    };
    proof {
        assert(sbits(rb, pos as int - 1, 0) == 0);
        assert(sbits(rb, pos as int - 1, 1) == sbit(rb, pos as int - 1));
    }
    let mut crop_left: u32 = 0;
    let mut crop_right: u32 = 0;
    let mut crop_top: u32 = 0;
    let mut crop_bottom: u32 = 0;
    if cropping == 1 {
        crop_left = match read_ue(rbsp, &mut pos) {
            Some(c) => c,
            None => {
                return None;
            },
        };
        crop_right = match read_ue(rbsp, &mut pos) {
            Some(c) => c,
            None => {
                return None;
            },
        };
        crop_top = match read_ue(rbsp, &mut pos) {
            Some(c) => c,
            None => {
                return None;
            },
        };
        crop_bottom = match read_ue(rbsp, &mut pos) {
            Some(c) => c,
            None => {
                return None;
            },
        };
    }
    if crop_left > 0xffff || crop_right > 0xffff || crop_top > 0xffff || crop_bottom > 0xffff {
        return None;
    }
    let (sub_width_c, sub_height_c): (u32, u32) = match chroma {
        0 => (1, 1),
        1 => (2, 2),
        2 => (2, 1),
        _ => (1, 1),
    };
    let crop_unit_y: u32 = sub_height_c * (2 - frame_mbs_only);
    let width_total: u32 = (pw_mbs_m1 + 1) * 16;
    let height_total: u32 = (2 - frame_mbs_only) * (ph_map_m1 + 1) * 16;
    proof {
        let cy = crop_unit_y as u64;
        let ct = crop_top as u64;
        let cb = crop_bottom as u64;
        assert(cy <= 4 && ct <= 0xffff && cb <= 0xffff ==> cy * (ct + cb) <= 0x7_fff8)
            by (nonlinear_arith);
    }
    let crop_x: u64 = sub_width_c as u64 * (crop_left as u64 + crop_right as u64);
    let crop_y: u64 = crop_unit_y as u64 * (crop_top as u64 + crop_bottom as u64);
    if crop_x >= width_total as u64 || crop_y >= height_total as u64 {
        return None;
    }
    let width: u32 = width_total - crop_x as u32;
    let height: u32 = height_total - crop_y as u32;
    Some((width, height))
}

/// Parses a sequence parameter set NAL unit: exactly [`sps_spec`] of its
/// bytes, so the identification bytes are the first three RBSP bytes and
/// the dimensions are the spec-level functions of the bitstream fields.
#[verifier::rlimit(100)]
pub fn parse_sps(nal: &Vec<u8>) -> (r: Option<SpsInfo>)
    ensures
        match r {
            Some(i) => {
                &&& sps_spec(nal@) == Some(i)
                &&& nal_rbsp(nal@).len() >= 3
                &&& i.profile_idc == nal_rbsp(nal@)[0]
                &&& i.constraint_flags == nal_rbsp(nal@)[1]
                &&& i.level_idc == nal_rbsp(nal@)[2]
                &&& 0 < i.width <= 0x1_0000
                &&& 0 < i.height <= 0x2_0000
            },
            None => sps_spec(nal@) is None,
        },
{
    proof {
        reveal(sps_spec);
        reveal(sps_high_block);
    }
    if nal.len() < 4 {
        return None;
    }
    let rbsp = unescape(nal, 1);
    if rbsp.len() < 4 || rbsp.len() > 0x1_0000 {
        return None;
    }
    let ghost rb = rbsp@;
    let profile_idc = rbsp[0];
    let constraint_flags = rbsp[1];
    let level_idc = rbsp[2];
    let mut pos: usize = 24;
    // seq_parameter_set_id
    if read_ue(&rbsp, &mut pos).is_none() {
        return None;
    }
    let ghost p1 = pos as int;
    let mut chroma_format_idc: u32 = 1;
    let high = profile_idc == 100 || profile_idc == 110 || profile_idc == 122 || profile_idc == 244
        || profile_idc == 44 || profile_idc == 83 || profile_idc == 86 || profile_idc == 118
        || profile_idc == 128 || profile_idc == 138 || profile_idc == 139 || profile_idc == 134
        || profile_idc == 135;
    if high {
        chroma_format_idc = match read_ue(&rbsp, &mut pos) {
            Some(c) => c,
            None => {
                return None;
            },
        };
        if chroma_format_idc > 3 {
            return None;
        }
        if chroma_format_idc == 3 {
            // separate_colour_plane_flag
            if read_bits(&rbsp, &mut pos, 1).is_none() {
                return None;
            }
        }
        let ghost p3 = pos as int;
        // the two bit depths
        if read_ue(&rbsp, &mut pos).is_none() {
            proof {
                assert(s_skip_ues(rb, p3, 2) is None);
            }
            return None;
        }
        let ghost p_mid = pos as int;
        if read_ue(&rbsp, &mut pos).is_none() {
            proof {
                assert(s_skip_ues(rb, p_mid, 1) is None);
                assert(s_skip_ues(rb, p3, 2) is None);
            }
            return None;
        }
        proof {
            assert(s_skip_ues(rb, pos as int, 0) == Some(pos as int));
            assert(s_skip_ues(rb, p_mid, 1) == Some(pos as int));
            assert(s_skip_ues(rb, p3, 2) == Some(pos as int));
        }
        // qpprime_y_zero_transform_bypass_flag
        if read_bits(&rbsp, &mut pos, 1).is_none() {
            return None;
        }
        let scaling = match read_bits(&rbsp, &mut pos, 1) {
            Some(sc) => sc,
            None => {
                return None;
            },
        };
        if scaling == 1 {
            // an in-band scaling matrix is not accepted
            return None;
        }
    }
    proof {
        assert(sps_high_block(rb, p1, rb[0]) == Some((chroma_format_idc as int, pos as int)));
    }
    match parse_sps_tail(&rbsp, pos, chroma_format_idc) {
        None => {
            return None;
        },
        Some((width, height)) => {
            let info = SpsInfo { profile_idc, constraint_flags, level_idc, width, height };
            proof {
                assert(sps_spec(nal@) == Some(info));
            }
            Some(info)
        },
    }
}

/// Builds the stream parameters for an SPS/PPS pair: the RFC 6381 codec
/// string, the AVCDecoderConfigurationRecord and the pixel dimensions are
/// exact functions of the two NAL units; `None` exactly when the SPS is
/// not one the parser accepts.
pub fn make_video_parameters(sps: &Vec<u8>, pps: &Vec<u8>) -> (r: Option<VideoParameters>)
    requires
        1 <= sps@.len() < 0x1_0000,
        1 <= pps@.len() < 0x1_0000,
    ensures
        match r {
            Some(vp) => {
                &&& sps_acceptable(sps@)
                &&& vp.pixel_dimensions == (
                    sps_spec(sps@)->Some_0.width,
                    sps_spec(sps@)->Some_0.height,
                )
                &&& nal_rbsp(sps@).len() >= 3
                &&& bytes_seq(vp.extra_data) == avcc_record(sps@, pps@)
                &&& vp.rfc6381_codec@ == rfc6381_bytes(
                    nal_rbsp(sps@)[0],
                    nal_rbsp(sps@)[1],
                    nal_rbsp(sps@)[2],
                ).map_values(|b: u8| b as char)
                &&& vp.pixel_aspect_ratio is None
                &&& vp.frame_rate is None
                &&& 0 < vp.pixel_dimensions.0
                &&& 0 < vp.pixel_dimensions.1
            },
            None => !sps_acceptable(sps@),
        },
{
    let info = match parse_sps(sps) {
        Some(i) => i,
        None => {
            return None;
        },
    };
    // codec string: "avc1." then six uppercase hex digits
    let mut cs: Vec<u8> = Vec::new();
    cs.push(0x61);  // 'a'
    cs.push(0x76);  // 'v'
    cs.push(0x63);  // 'c'
    cs.push(0x31);  // '1'
    cs.push(0x2e);  // '.'
    cs.push(hex_digit(info.profile_idc / 16));
    cs.push(hex_digit(info.profile_idc % 16));
    cs.push(hex_digit(info.constraint_flags / 16));
    cs.push(hex_digit(info.constraint_flags % 16));
    cs.push(hex_digit(info.level_idc / 16));
    cs.push(hex_digit(info.level_idc % 16));
    proof {
        let pi = info.profile_idc;
        let cf = info.constraint_flags;
        let lv = info.level_idc;
        assert(pi / 16 == pi >> 4 && pi % 16 == (pi & 0xf)) by (bit_vector);
        assert(cf / 16 == cf >> 4 && cf % 16 == (cf & 0xf)) by (bit_vector);
        assert(lv / 16 == lv >> 4 && lv % 16 == (lv & 0xf)) by (bit_vector);
        assert(cs@ =~= rfc6381_bytes(
            nal_rbsp(sps@)[0],
            nal_rbsp(sps@)[1],
            nal_rbsp(sps@)[2],
        ));
    }
    let codec = string_from_ascii(cs);
    // AVCDecoderConfigurationRecord
    let mut rec: Vec<u8> = Vec::new();
    rec.push(1);
    rec.push(info.profile_idc);
    rec.push(info.constraint_flags);
    rec.push(info.level_idc);
    rec.push(0xff);  // reserved bits and four-byte NAL lengths
    rec.push(0xe1);  // reserved bits and one SPS
    let sps_len = sps.len();
    rec.push((sps_len / 0x100) as u8);
    rec.push((sps_len % 0x100) as u8);
    let mut k: usize = 0;
    while k < sps_len
        invariant
            k <= sps_len == sps@.len(),
            rec@ == seq![
                1u8, nal_rbsp(sps@)[0], nal_rbsp(sps@)[1], nal_rbsp(sps@)[2], 0xffu8, 0xe1u8,
                ((sps@.len() / 0x100) % 0x100) as u8, (sps@.len() % 0x100) as u8,
            ] + sps@.take(k as int),
        decreases sps_len - k,
    {
        let b = sps[k];
        rec.push(b);
        proof {
            assert(sps@.take(k + 1) =~= sps@.take(k as int) + seq![sps@[k as int]]);
            assert(rec@ =~= seq![
                1u8, nal_rbsp(sps@)[0], nal_rbsp(sps@)[1], nal_rbsp(sps@)[2], 0xffu8, 0xe1u8,
                ((sps@.len() / 0x100) % 0x100) as u8, (sps@.len() % 0x100) as u8,
            ] + sps@.take(k + 1));
        }
        k = k + 1;
    }
    proof {
        assert(sps@.take(sps@.len() as int) =~= sps@);
    }
    rec.push(1);  // one PPS
    let pps_len = pps.len();
    rec.push((pps_len / 0x100) as u8);
    rec.push((pps_len % 0x100) as u8);
    let ghost before_pps = rec@;
    let mut k2: usize = 0;
    while k2 < pps_len
        invariant
            k2 <= pps_len == pps@.len(),
            rec@ == before_pps + pps@.take(k2 as int),
        decreases pps_len - k2,
    {
        let b = pps[k2];
        rec.push(b);
        proof {
            assert(pps@.take(k2 + 1) =~= pps@.take(k2 as int) + seq![pps@[k2 as int]]);
            assert(rec@ =~= before_pps + pps@.take(k2 + 1));
        }
        k2 = k2 + 1;
    }
    proof {
        assert(pps@.take(pps@.len() as int) =~= pps@);
        assert(rec@ =~= avcc_record(sps@, pps@));
    }
    Some(VideoParameters {
        pixel_dimensions: (info.width, info.height),
        rfc6381_codec: codec,
        pixel_aspect_ratio: None,
        frame_rate: None,
        extra_data: bytes_from_vec(rec),
    })
}

/// One uppercase hex digit for `n < 16`.
fn hex_digit(n: u8) -> (r: u8)
    requires
        n < 16,
    ensures
        r == hex_nibble(n),
        r < 0x80,
{
    if n < 10 {
        0x30 + n
    } else {
        0x41 + n - 10
    }
}


/// Copies a byte vector.
fn copy_vec(src: &Vec<u8>) -> (r: Vec<u8>)
    ensures
        r@ == src@,
{
    let mut r: Vec<u8> = Vec::new();
    let n = src.len();
    let mut i: usize = 0;
    while i < n
        invariant
            i <= n == src@.len(),
            r@ == src@.take(i as int),
        decreases n - i,
    {
        let b = src[i];
        r.push(b);
        proof {
            assert(src@.take(i + 1) =~= src@.take(i as int) + seq![src@[i as int]]);
            assert(r@ =~= src@.take(i + 1));
        }
        i = i + 1;
    }
    proof {
        assert(src@.take(n as int) =~= src@);
    }
    r
}

/// Whether two byte vectors hold the same bytes.
fn vec_eq(a: &Vec<u8>, b: &Vec<u8>) -> (r: bool)
    ensures
        r == (a@ == b@),
{
    if a.len() != b.len() {
        proof {
            assert(a@.len() != b@.len());
        }
        return false;
    }
    let n = a.len();
    let mut i: usize = 0;
    while i < n
        invariant
            i <= n == a@.len() == b@.len(),
            forall|j: int| 0 <= j < i ==> a@[j] == b@[j],
        decreases n - i,
    {
        if a[i] != b[i] {
            return false;
        }
        i = i + 1;
    }
    proof {
        assert(a@ =~= b@);
    }
    true
}

/// The metadata of the access unit being assembled.
#[derive(Clone, Copy, PartialEq, Eq, Structural)]
pub struct AuMeta {
    pub timestamp: Timestamp,
    /// Context of the packet that began the access unit.
    pub start_ctx: RtspMessageContext,
    /// Context of the latest packet of the access unit.
    pub last_ctx: RtspMessageContext,
}

/// The last NAL unit of type `t` in a list, if any.
pub open spec fn last_of_type(ns: Seq<Seq<u8>>, t: u8) -> Option<Seq<u8>>
    decreases ns.len(),
{
    if ns.len() == 0 {
        None
    } else if nal_type(ns.last()) == t {
        Some(ns.last())
    } else {
        last_of_type(ns.drop_last(), t)
    }
}

/// H.264 depacketizer state.
pub struct Depacketizer {
    clock_rate: u32,
    nals: Vec<Vec<u8>>,
    frag: Option<Vec<u8>>,
    au: Option<AuMeta>,
    pending_loss: u16,
    pending: Vec<VideoFrame>,
    sps: Option<Vec<u8>>,
    pps: Option<Vec<u8>>,
    parameters: Option<VideoParameters>,
    new_parameters: Option<VideoParameters>,
}

/// Whether stream parameters match an SPS/PPS pair: the exact decoder
/// record and codec string, positive dimensions, and nothing invented for
/// the optional fields.
pub open spec fn params_match(vp: VideoParameters, sps: Seq<u8>, pps: Seq<u8>) -> bool {
    &&& nal_rbsp(sps).len() >= 3
    &&& bytes_seq(vp.extra_data) == avcc_record(sps, pps)
    &&& vp.rfc6381_codec@ == rfc6381_bytes(nal_rbsp(sps)[0], nal_rbsp(sps)[1], nal_rbsp(sps)[2])
        .map_values(|b: u8| b as char)
    &&& vp.pixel_aspect_ratio is None
    &&& vp.frame_rate is None
    &&& 0 < vp.pixel_dimensions.0
    &&& 0 < vp.pixel_dimensions.1
}

/// Whether an attached boxed parameter value corresponds to a pending one.
pub open spec fn opt_box_matches(
    a: Option<Box<VideoParameters>>,
    b: Option<VideoParameters>,
) -> bool {
    match (a, b) {
        (Some(x), Some(y)) => *x == y,
        (None, None) => true,
        _ => false,
    }
}

/// Whether an emitted frame has exactly this metadata and this access
/// unit's NAL units in AVCC form.
pub open spec fn frame_matches(
    f: VideoFrame,
    ts: Timestamp,
    sctx: RtspMessageContext,
    ectx: RtspMessageContext,
    sid: usize,
    loss: u16,
    ns: Seq<Seq<u8>>,
) -> bool {
    &&& f.timestamp == ts
    &&& f.start_ctx == sctx
    &&& f.end_ctx == ectx
    &&& f.stream_id == sid
    &&& f.loss == loss
    &&& f.is_random_access_point == has_idr(ns)
    &&& f.is_disposable == all_disposable(ns)
    &&& bytes_seq(f.data) == avcc_encode(ns)
}

impl Depacketizer {
    pub closed spec fn spec_clock_rate(self) -> u32 {
        self.clock_rate
    }

    /// The completed NAL units of the access unit being assembled.
    pub closed spec fn nal_view(self) -> Seq<Seq<u8>> {
        vecs_view(self.nals@)
    }

    /// The FU-A fragment being reassembled, if any.
    pub closed spec fn frag_view(self) -> Option<Seq<u8>> {
        match self.frag {
            Some(f) => Some(f@),
            None => None,
        }
    }

    /// The metadata of the access unit being assembled, if one is.
    pub closed spec fn au_meta(self) -> Option<AuMeta> {
        self.au
    }

    /// Loss not yet attributed to an emitted frame.
    pub closed spec fn loss_pending(self) -> u16 {
        self.pending_loss
    }

    /// The frames waiting to be pulled, oldest first.
    pub closed spec fn pending_frames(self) -> Seq<VideoFrame> {
        self.pending@
    }

    /// The cached sequence parameter set.
    pub closed spec fn spec_sps(self) -> Option<Seq<u8>> {
        match self.sps {
            Some(s) => Some(s@),
            None => None,
        }
    }

    /// The cached picture parameter set.
    pub closed spec fn spec_pps(self) -> Option<Seq<u8>> {
        match self.pps {
            Some(s) => Some(s@),
            None => None,
        }
    }

    /// The best-known stream parameters.
    pub closed spec fn spec_parameters(self) -> Option<VideoParameters> {
        self.parameters
    }

    /// Parameters waiting to be attached to the next emitted frame.
    pub closed spec fn new_params_pending(self) -> Option<VideoParameters> {
        self.new_parameters
    }

    /// Reassembly bounds: bounded NAL count and sizes, a non-empty open
    /// fragment, non-empty cached parameter sets, and an access unit only
    /// while its metadata exists.
    pub open spec fn wf(self) -> bool {
        &&& self.nal_view().len() <= MAX_NALS_PER_AU
        &&& (forall|i: int|
            0 <= i < self.nal_view().len() ==> 1 <= (#[trigger] self.nal_view()[i]).len()
                <= MAX_NAL_SIZE)
        &&& (match self.frag_view() {
            Some(f) => 1 <= f.len() <= MAX_NAL_SIZE,
            None => true,
        })
        &&& ((self.nal_view().len() > 0 || self.frag_view() is Some) ==> self.au_meta() is Some)
        &&& (match self.spec_sps() {
            Some(s) => 1 <= s.len(),
            None => true,
        })
        &&& (match self.spec_pps() {
            Some(s) => 1 <= s.len(),
            None => true,
        })
    }

    /// Creates a depacketizer. Stream parameters are recovered from the
    /// in-band parameter sets, so the format-specific parameters of the
    /// session description are not consulted.
    pub fn new(clock_rate: u32, _format_specific_params: Option<&str>) -> (r: Result<
        Self,
        ConfigError,
    >)
        ensures
            match r {
                Ok(d) => {
                    &&& d.wf()
                    &&& d.spec_clock_rate() == clock_rate
                    &&& d.nal_view() =~= Seq::<Seq<u8>>::empty()
                    &&& d.frag_view() is None
                    &&& d.au_meta() is None
                    &&& d.loss_pending() == 0
                    &&& d.pending_frames() =~= Seq::<VideoFrame>::empty()
                    &&& d.spec_sps() is None
                    &&& d.spec_pps() is None
                    &&& d.spec_parameters() is None
                    &&& d.new_params_pending() is None
                },
                Err(_) => false,
            },
    {
        Ok(Self {
            clock_rate,
            nals: Vec::new(),
            frag: None,
            au: None,
            pending_loss: 0,
            pending: Vec::new(),
            sps: None,
            pps: None,
            parameters: None,
            new_parameters: None,
        })
    }

    /// The best-known stream parameters, once an SPS/PPS pair was seen.
    pub fn parameters(&self) -> (r: Option<Parameters>)
        ensures
            match (r, self.spec_parameters()) {
                (Some(Parameters::Video(a)), Some(b)) => vp_equiv(a, b),
                (None, None) => true,
                _ => false,
            },
    {
        match &self.parameters {
            Some(vp) => Some(Parameters::Video(clone_video_parameters(vp))),
            None => None,
        }
    }

    /// Hands out the oldest pending frame, if any.
    pub fn pull(&mut self) -> (r: Option<CodecItem>)
        requires
            old(self).wf(),
        ensures
            final(self).wf(),
            same_but_pending(*old(self), *final(self)),
            match r {
                Some(CodecItem::VideoFrame(f)) => {
                    &&& old(self).pending_frames().len() > 0
                    &&& f == old(self).pending_frames()[0]
                    &&& final(self).pending_frames() == old(self).pending_frames().skip(1)
                },
                None => {
                    &&& old(self).pending_frames().len() == 0
                    &&& final(self).pending_frames() == old(self).pending_frames()
                },
                _ => false,
            },
    {
        if self.pending.len() == 0 {
            return None;
        }
        let f = self.pending.remove(0);
        proof {
            assert(self.pending@ =~= old(self).pending@.skip(1));
        }
        Some(CodecItem::VideoFrame(f))
    }
}

/// Observable equality of two depacketizer states.
pub open spec fn unchanged_state(a: Depacketizer, b: Depacketizer) -> bool {
    same_but_pending(a, b) && a.pending_frames() == b.pending_frames()
}

/// Observable equality of everything but the pending frame queue.
pub open spec fn same_but_pending(a: Depacketizer, b: Depacketizer) -> bool {
    &&& a.spec_clock_rate() == b.spec_clock_rate()
    &&& a.nal_view() == b.nal_view()
    &&& a.frag_view() == b.frag_view()
    &&& a.au_meta() == b.au_meta()
    &&& a.loss_pending() == b.loss_pending()
    &&& a.spec_sps() == b.spec_sps()
    &&& a.spec_pps() == b.spec_pps()
    &&& a.spec_parameters() == b.spec_parameters()
    &&& a.new_params_pending() == b.new_params_pending()
}

/// Field-by-field correspondence of two parameter values, comparing the
/// extra data by content.
pub open spec fn vp_equiv(a: VideoParameters, b: VideoParameters) -> bool {
    &&& a.pixel_dimensions == b.pixel_dimensions
    &&& a.rfc6381_codec@ == b.rfc6381_codec@
    &&& a.pixel_aspect_ratio == b.pixel_aspect_ratio
    &&& a.frame_rate == b.frame_rate
    &&& bytes_seq(a.extra_data) == bytes_seq(b.extra_data)
}

/// Copies parameters, sharing the extra-data buffer.
fn clone_video_parameters(v: &VideoParameters) -> (r: VideoParameters)
    ensures
        vp_equiv(r, *v),
{
    VideoParameters {
        pixel_dimensions: v.pixel_dimensions,
        rfc6381_codec: v.rfc6381_codec.clone(),
        pixel_aspect_ratio: v.pixel_aspect_ratio,
        frame_rate: v.frame_rate,
        extra_data: crate::buf::bytes_clone(&v.extra_data),
    }
}


/// The first offense a packet commits against the H.264 payload rules,
/// checked in the order the depacketizer checks them; `None` when the
/// packet is acceptable (an unparseable in-band parameter set is the one
/// refusal this predicate does not capture).
pub open spec fn push_error_spec(pre: Depacketizer, pkt: Packet) -> Option<PayloadError> {
    let p = bytes_seq(pkt.payload);
    let dropped = pkt.loss > 0;
    let frag0 = if dropped {
        None
    } else {
        pre.frag_view()
    };
    let au0 = if dropped {
        None
    } else {
        pre.au_meta()
    };
    let boundary = match au0 {
        Some(m) => m.timestamp != pkt.timestamp,
        None => false,
    };
    let base = if dropped || boundary {
        Seq::<Seq<u8>>::empty()
    } else {
        pre.nal_view()
    };
    let t = p[0] & 0x1f;
    if boundary && frag0 is Some {
        Some(PayloadError::H264FragmentInterrupted)
    } else if 1 <= t <= 23 {
        if frag0 is Some {
            Some(PayloadError::H264FragmentOrder)
        } else if base.len() + 1 > MAX_NALS_PER_AU {
            Some(PayloadError::H264AccessUnitLimit)
        } else {
            None
        }
    } else if t == 24 {
        if frag0 is Some {
            Some(PayloadError::H264FragmentOrder)
        } else {
            match stap_items(p, 1) {
                None => Some(PayloadError::H264StapAMalformed),
                Some(items) => if base.len() + items.len() > MAX_NALS_PER_AU {
                    Some(PayloadError::H264AccessUnitLimit)
                } else {
                    None
                },
            }
        }
    } else if t == 28 {
        if p.len() < 2 {
            Some(PayloadError::H264TooShort)
        } else {
            let s_bit = p[1] & 0x80 == 0x80;
            let e_bit = p[1] & 0x40 == 0x40;
            if s_bit && frag0 is Some {
                Some(PayloadError::H264FragmentOrder)
            } else if !s_bit && frag0 is None {
                Some(PayloadError::H264FragmentOrder)
            } else {
                let cand_len = if s_bit {
                    p.len() - 1
                } else {
                    frag0->Some_0.len() + (p.len() - 2)
                };
                if cand_len > MAX_NAL_SIZE {
                    Some(PayloadError::H264AccessUnitLimit)
                } else if e_bit && base.len() + 1 > MAX_NALS_PER_AU {
                    Some(PayloadError::H264AccessUnitLimit)
                } else if pkt.mark && !e_bit {
                    Some(PayloadError::H264FragmentInterrupted)
                } else {
                    None
                }
            }
        }
    } else {
        Some(PayloadError::H264UnsupportedNal { nal_type: t })
    }
}

/// Whether the packet reports loss, dropping any partial access unit.
pub open spec fn spec_dropped(pkt: Packet) -> bool {
    pkt.loss > 0
}

/// The open fragment the packet meets, after any loss drop.
pub open spec fn spec_frag0(pre: Depacketizer, pkt: Packet) -> Option<Seq<u8>> {
    if spec_dropped(pkt) {
        None
    } else {
        pre.frag_view()
    }
}

/// The access-unit metadata the packet meets, after any loss drop.
pub open spec fn spec_au0(pre: Depacketizer, pkt: Packet) -> Option<AuMeta> {
    if spec_dropped(pkt) {
        None
    } else {
        pre.au_meta()
    }
}

/// Whether the packet's timestamp closes the open access unit.
pub open spec fn spec_boundary(pre: Depacketizer, pkt: Packet) -> bool {
    match spec_au0(pre, pkt) {
        Some(m) => m.timestamp != pkt.timestamp,
        None => false,
    }
}

/// The NAL units already belonging to the packet's own access unit.
pub open spec fn spec_base(pre: Depacketizer, pkt: Packet) -> Seq<Seq<u8>> {
    if spec_dropped(pkt) || spec_boundary(pre, pkt) {
        Seq::<Seq<u8>>::empty()
    } else {
        pre.nal_view()
    }
}

/// The packet's payload type: the low five bits of its first byte.
pub open spec fn spec_t(pkt: Packet) -> u8 {
    bytes_seq(pkt.payload)[0] & 0x1f
}

pub open spec fn spec_sbit(pkt: Packet) -> bool {
    spec_t(pkt) == 28 && bytes_seq(pkt.payload)[1] & 0x80 == 0x80
}

pub open spec fn spec_ebit(pkt: Packet) -> bool {
    spec_t(pkt) == 28 && bytes_seq(pkt.payload)[1] & 0x40 == 0x40
}

/// The fragment after this FU-A packet: reconstructed header plus the
/// accumulated fragment bytes.
pub open spec fn spec_cand(pre: Depacketizer, pkt: Packet) -> Seq<u8> {
    let p = bytes_seq(pkt.payload);
    if spec_sbit(pkt) {
        seq![(p[0] & 0xe0) | (p[1] & 0x1f)] + p.skip(2)
    } else {
        spec_frag0(pre, pkt)->Some_0 + p.skip(2)
    }
}

/// The complete NAL units this packet contributes.
pub open spec fn spec_adds(pre: Depacketizer, pkt: Packet) -> Seq<Seq<u8>> {
    let p = bytes_seq(pkt.payload);
    if 1 <= spec_t(pkt) <= 23 {
        seq![p]
    } else if spec_t(pkt) == 24 {
        stap_items(p, 1)->Some_0
    } else if spec_ebit(pkt) {
        seq![spec_cand(pre, pkt)]
    } else {
        Seq::<Seq<u8>>::empty()
    }
}

/// The fragment left open after this packet.
pub open spec fn spec_frag_after(pre: Depacketizer, pkt: Packet) -> Option<Seq<u8>> {
    if spec_t(pkt) == 28 && !spec_ebit(pkt) {
        Some(spec_cand(pre, pkt))
    } else {
        None
    }
}

/// The cached SPS after this packet.
pub open spec fn spec_new_sps(pre: Depacketizer, pkt: Packet) -> Option<Seq<u8>> {
    match last_of_type(spec_adds(pre, pkt), 7) {
        Some(x) => Some(x),
        None => pre.spec_sps(),
    }
}

/// The cached PPS after this packet.
pub open spec fn spec_new_pps(pre: Depacketizer, pkt: Packet) -> Option<Seq<u8>> {
    match last_of_type(spec_adds(pre, pkt), 8) {
        Some(x) => Some(x),
        None => pre.spec_pps(),
    }
}

/// Whether this packet changed a parameter set.
pub open spec fn spec_changed(pre: Depacketizer, pkt: Packet) -> bool {
    spec_new_sps(pre, pkt) != pre.spec_sps() || spec_new_pps(pre, pkt) != pre.spec_pps()
}

/// Whether this packet made the parameters rebuildable and changed.
pub open spec fn spec_rebuilt(pre: Depacketizer, pkt: Packet) -> bool {
    spec_changed(pre, pkt) && spec_new_sps(pre, pkt) is Some && spec_new_pps(pre, pkt) is Some
}

/// Whether the packet's parameter sets force a rebuild that must be
/// refused: a set that cannot fit the decoder record's two-byte length
/// prefix, or a sequence parameter set the parser does not accept.
pub open spec fn spec_params_refused(pre: Depacketizer, pkt: Packet) -> bool {
    &&& spec_rebuilt(pre, pkt)
    &&& {
        let sps = spec_new_sps(pre, pkt)->Some_0;
        let pps = spec_new_pps(pre, pkt)->Some_0;
        ||| sps.len() == 0
        ||| sps.len() >= 0x1_0000
        ||| pps.len() == 0
        ||| pps.len() >= 0x1_0000
        ||| !sps_acceptable(sps)
    }
}

/// Context of the packet that began the packet's own access unit.
pub open spec fn spec_b_start(pre: Depacketizer, pkt: Packet) -> RtspMessageContext {
    match spec_au0(pre, pkt) {
        Some(m) => if spec_boundary(pre, pkt) {
            pkt.ctx
        } else {
            m.start_ctx
        },
        None => pkt.ctx,
    }
}

/// What an accepted packet does to the depacketizer: the access-unit and
/// fragment evolution, the frames emitted at boundaries, the loss and
/// parameter-set bookkeeping.
pub open spec fn push_ok_post(pre: Depacketizer, post: Depacketizer, pkt: Packet) -> bool {
    let boundary = spec_boundary(pre, pkt);
    let au0 = spec_au0(pre, pkt);
    let loss_in = crate::onvif::sat_add16(pre.loss_pending(), pkt.loss);
    let nals1 = spec_base(pre, pkt) + spec_adds(pre, pkt);
    let new_sps = spec_new_sps(pre, pkt);
    let new_pps = spec_new_pps(pre, pkt);
    let rebuilt = spec_rebuilt(pre, pkt);
    let b_start = spec_b_start(pre, pkt);
    &&& post.spec_clock_rate() == pre.spec_clock_rate()
    &&& post.spec_sps() == new_sps
    &&& post.spec_pps() == new_pps
    &&& (rebuilt ==> match post.spec_parameters() {
        Some(vp) => params_match(vp, new_sps->Some_0, new_pps->Some_0),
        None => false,
    })
    &&& (!rebuilt ==> post.spec_parameters() == pre.spec_parameters())
    &&& post.frag_view() == spec_frag_after(pre, pkt)
    &&& (pkt.mark ==> post.nal_view() == Seq::<Seq<u8>>::empty() && post.au_meta() is None)
    &&& (!pkt.mark ==> post.nal_view() == nals1 && post.au_meta() == Some(
        AuMeta { timestamp: pkt.timestamp, start_ctx: b_start, last_ctx: pkt.ctx },
    ))
    &&& post.loss_pending() == (if boundary || pkt.mark {
        0u16
    } else {
        loss_in
    })
    &&& post.pending_frames().len() == (if boundary {
        1int
    } else {
        0int
    }) + (if pkt.mark {
        1int
    } else {
        0int
    })
    &&& (boundary ==> {
        let fa = post.pending_frames()[0];
        &&& frame_matches(
            fa,
            au0->Some_0.timestamp,
            au0->Some_0.start_ctx,
            au0->Some_0.last_ctx,
            pkt.stream_id,
            loss_in,
            pre.nal_view(),
        )
        &&& opt_box_matches(fa.new_parameters, pre.new_params_pending())
    })
    &&& (pkt.mark ==> {
        let fb = post.pending_frames()[post.pending_frames().len() - 1];
        &&& frame_matches(
            fb,
            pkt.timestamp,
            b_start,
            pkt.ctx,
            pkt.stream_id,
            if boundary {
                0u16
            } else {
                loss_in
            },
            nals1,
        )
        &&& (rebuilt ==> match fb.new_parameters {
            Some(b) => params_match(*b, new_sps->Some_0, new_pps->Some_0),
            None => false,
        })
        &&& (!rebuilt && boundary ==> fb.new_parameters is None)
        &&& (!rebuilt && !boundary ==> opt_box_matches(
            fb.new_parameters,
            pre.new_params_pending(),
        ))
    })
    &&& (pkt.mark ==> post.new_params_pending() is None)
    &&& (!pkt.mark ==> {
        &&& (rebuilt ==> match post.new_params_pending() {
            Some(vp) => params_match(vp, new_sps->Some_0, new_pps->Some_0),
            None => false,
        })
        &&& (!rebuilt && spec_boundary(pre, pkt) ==> post.new_params_pending() is None)
        &&& (!rebuilt && !spec_boundary(pre, pkt) ==> post.new_params_pending()
            == pre.new_params_pending())
    })
}

/// Every STAP-A item is at least one byte and no longer than the payload.
proof fn lemma_stap_items_bounds(p: Seq<u8>, off: int)
    requires
        0 <= off <= p.len(),
        stap_items(p, off) is Some,
    ensures
        forall|i: int|
            0 <= i < stap_items(p, off)->Some_0.len() ==> 1 <= (#[trigger] stap_items(
                p,
                off,
            )->Some_0[i]).len() <= p.len(),
    decreases p.len() - off,
{
    if off == p.len() {
    } else {
        lemma_stap_items_bounds(p, off + 2 + be16(p, off));
    }
}

/// A found last-of-type value is one of the list's elements.
proof fn lemma_last_of_type_in(ns: Seq<Seq<u8>>, t: u8)
    requires
        last_of_type(ns, t) is Some,
    ensures
        exists|i: int| 0 <= i < ns.len() && ns[i] == last_of_type(ns, t)->Some_0,
    decreases ns.len(),
{
    if ns.len() > 0 {
        if nal_type(ns.last()) == t {
            assert(ns[ns.len() - 1] == last_of_type(ns, t)->Some_0);
        } else {
            lemma_last_of_type_in(ns.drop_last(), t);
            let i = choose|i: int|
                0 <= i < ns.drop_last().len() && ns.drop_last()[i] == last_of_type(
                    ns.drop_last(),
                    t,
                )->Some_0;
            assert(ns[i] == ns.drop_last()[i]);
        }
    }
}

/// Appends `src` onto `dst`.
fn append_vec(dst: &mut Vec<u8>, src: &Vec<u8>)
    ensures
        final(dst)@ == old(dst)@ + src@,
{
    let n = src.len();
    let mut i: usize = 0;
    while i < n
        invariant
            i <= n == src@.len(),
            dst@ == old(dst)@ + src@.take(i as int),
        decreases n - i,
    {
        let b = src[i];
        dst.push(b);
        proof {
            assert(src@.take(i + 1) =~= src@.take(i as int) + seq![src@[i as int]]);
            assert(dst@ =~= old(dst)@ + src@.take(i + 1));
        }
        i = i + 1;
    }
    proof {
        assert(src@.take(n as int) =~= src@);
        assert(dst@ =~= old(dst)@ + src@);
    }
}

/// Encodes an access unit's NAL units in AVCC form.
fn build_avcc(nals: &Vec<Vec<u8>>) -> (r: Vec<u8>)
    requires
        vecs_view(nals@).len() <= MAX_NALS_PER_AU,
        forall|i: int|
            0 <= i < nals@.len() ==> 1 <= (#[trigger] vecs_view(nals@)[i]).len() <= MAX_NAL_SIZE,
    ensures
        r@ == avcc_encode(vecs_view(nals@)),
{
    let ghost ns = vecs_view(nals@);
    let n = nals.len();
    let mut out: Vec<u8> = Vec::new();
    let mut i: usize = 0;
    while i < n
        invariant
            i <= n == nals@.len(),
            ns == vecs_view(nals@),
            ns.len() <= MAX_NALS_PER_AU,
            forall|j: int| 0 <= j < n ==> 1 <= (#[trigger] ns[j]).len() <= MAX_NAL_SIZE,
            out@ == avcc_encode(ns.take(i as int)),
        decreases n - i,
    {
        let nal = &nals[i];
        let len = nal.len();
        proof {
            assert(ns[i as int] == nal@);
            assert(len <= MAX_NAL_SIZE);
        }
        out.push((len / 0x100_0000 % 0x100) as u8);
        out.push((len / 0x1_0000 % 0x100) as u8);
        out.push((len / 0x100 % 0x100) as u8);
        out.push((len % 0x100) as u8);
        proof {
            assert(out@ =~= avcc_encode(ns.take(i as int)) + be32_bytes(len as int));
        }
        append_vec(&mut out, nal);
        proof {
            assert(ns.take(i + 1).drop_last() =~= ns.take(i as int));
            assert(ns.take(i + 1).last() == ns[i as int]);
            assert(avcc_encode(ns.take(i + 1)) == avcc_encode(ns.take(i as int)) + be32_bytes(
                nal@.len() as int,
            ) + nal@);
            assert(out@ =~= avcc_encode(ns.take(i + 1)));
        }
        i = i + 1;
    }
    proof {
        assert(ns.take(n as int) =~= ns);
    }
    out
}

/// Whether the access unit contains an IDR NAL unit.
fn compute_idr(nals: &Vec<Vec<u8>>) -> (r: bool)
    requires
        forall|i: int| 0 <= i < nals@.len() ==> (#[trigger] vecs_view(nals@)[i]).len() >= 1,
    ensures
        r == has_idr(vecs_view(nals@)),
{
    let ghost ns = vecs_view(nals@);
    let n = nals.len();
    let mut i: usize = 0;
    while i < n
        invariant
            i <= n == nals@.len(),
            ns == vecs_view(nals@),
            forall|j: int| 0 <= j < n ==> (#[trigger] ns[j]).len() >= 1,
            !has_idr(ns.take(i as int)),
        decreases n - i,
    {
        proof {
            assert(ns[i as int] == nals@[i as int]@);
        }
        let b = nals[i][0];
        if b & 0x1f == 5 {
            proof {
                assert(nal_type(ns[i as int]) == 5);
            }
            return true;
        }
        proof {
            assert forall|j: int| 0 <= j < i + 1 implies nal_type(#[trigger] ns.take(i + 1)[j])
                != 5 by {
                assert(ns.take(i + 1)[j] == ns[j]);
                if j < i {
                    assert(ns.take(i as int)[j] == ns[j]);
                    assert(!has_idr(ns.take(i as int)));
                }
            }
        }
        i = i + 1;
    }
    proof {
        assert(ns.take(n as int) =~= ns);
    }
    false
}

/// Whether every NAL unit of the access unit is disposable.
fn compute_disposable(nals: &Vec<Vec<u8>>) -> (r: bool)
    requires
        forall|i: int| 0 <= i < nals@.len() ==> (#[trigger] vecs_view(nals@)[i]).len() >= 1,
    ensures
        r == all_disposable(vecs_view(nals@)),
{
    let ghost ns = vecs_view(nals@);
    let n = nals.len();
    let mut i: usize = 0;
    while i < n
        invariant
            i <= n == nals@.len(),
            ns == vecs_view(nals@),
            forall|j: int| 0 <= j < n ==> (#[trigger] ns[j]).len() >= 1,
            forall|j: int| 0 <= j < i ==> nal_ref_idc(#[trigger] ns[j]) == 0,
        decreases n - i,
    {
        proof {
            assert(ns[i as int] == nals@[i as int]@);
        }
        let b = nals[i][0];
        if b >> 5 != 0 {
            proof {
                assert(nal_ref_idc(ns[i as int]) != 0);
            }
            return false;
        }
        i = i + 1;
    }
    true
}


impl Depacketizer {
    /// Feeds one packet into the access unit being assembled. A timestamp
    /// change or the mark bit closes the unit, so up to two frames can
    /// become pending; loss drops the partial unit and is carried onto the
    /// next completed frame. Errors follow [`push_error_spec`]; the one
    /// refusal beyond it is of a packet whose parameter sets would force a
    /// rebuild but cannot be parsed, so a packet carrying no parameter-set
    /// change is never refused that way, and a refusal changes nothing.
    #[verifier::rlimit(100)]
    pub fn push(&mut self, pkt: Packet) -> (r: Result<(), PayloadError>)
        requires
            old(self).wf(),
            old(self).pending_frames().len() == 0,
            0 < bytes_seq(pkt.payload).len() < 0x1_0000,
        ensures
            final(self).wf(),
            match r {
                Ok(()) => {
                    &&& push_error_spec(*old(self), pkt) is None
                    &&& push_ok_post(*old(self), *final(self), pkt)
                },
                Err(e) => {
                    &&& unchanged_state(*old(self), *final(self))
                    &&& {
                        ||| push_error_spec(*old(self), pkt) == Some(e)
                        ||| (e == PayloadError::H264BadSps && push_error_spec(
                            *old(self),
                            pkt,
                        ) is None && spec_params_refused(*old(self), pkt))
                    }
                },
            },
    {
        let ghost pre = *self;
        let ghost p = bytes_seq(pkt.payload);
        let plen = bytes_len(&pkt.payload);
        let b0 = bytes_at(&pkt.payload, 0);
        let t = b0 & 0x1f;
        let dropped = pkt.loss > 0;
        let frag_is = !dropped && self.frag.is_some();
        let boundary = !dropped && (match &self.au {
            Some(m) => !(m.timestamp == pkt.timestamp),
            None => false,
        });
        if boundary && frag_is {
            return Err(PayloadError::H264FragmentInterrupted);
        }
        let base_len: usize = if dropped || boundary {
            0
        } else {
            self.nals.len()
        };
        let mut adds: Vec<Vec<u8>> = Vec::new();
        let mut frag_after: Option<Vec<u8>> = None;
        if 1 <= t && t <= 23 {
            if frag_is {
                return Err(PayloadError::H264FragmentOrder);
            }
            if base_len + 1 > MAX_NALS_PER_AU {
                return Err(PayloadError::H264AccessUnitLimit);
            }
            let mut v: Vec<u8> = Vec::new();
            extend_from_bytes(&mut v, &pkt.payload, 0, plen);
            proof {
                assert(v@ =~= p);
            }
            adds.push(v);
            proof {
                assert(vecs_view(adds@) =~= seq![p]);
            }
        } else if t == 24 {
            if frag_is {
                return Err(PayloadError::H264FragmentOrder);
            }
            match split_stap_a(&pkt.payload) {
                None => {
                    return Err(PayloadError::H264StapAMalformed);
                },
                Some(items) => {
                    if items.len() > MAX_NALS_PER_AU - base_len {
                        return Err(PayloadError::H264AccessUnitLimit);
                    }
                    proof {
                        lemma_stap_items_bounds(p, 1);
                    }
                    adds = items;
                },
            }
        } else if t == 28 {
            if plen < 2 {
                return Err(PayloadError::H264TooShort);
            }
            let b1 = bytes_at(&pkt.payload, 1);
            let s_bit = b1 & 0x80 == 0x80;
            let e_bit = b1 & 0x40 == 0x40;
            if s_bit && frag_is {
                return Err(PayloadError::H264FragmentOrder);
            }
            if !s_bit && !frag_is {
                return Err(PayloadError::H264FragmentOrder);
            }
            let mut cand: Vec<u8>;
            if s_bit {
                cand = Vec::new();
                cand.push((b0 & 0xe0) | (b1 & 0x1f));
            } else {
                cand = match self.frag.as_ref() {
                    Some(f) => copy_vec(f),
                    None => Vec::new(),
                };
            }
            if plen - 2 > MAX_NAL_SIZE - cand.len() {
                return Err(PayloadError::H264AccessUnitLimit);
            }
            extend_from_bytes(&mut cand, &pkt.payload, 2, plen);
            proof {
                if s_bit {
                    assert(cand@ =~= seq![(p[0] & 0xe0) | (p[1] & 0x1f)] + p.skip(2));
                } else {
                    assert(cand@ =~= pre.frag_view()->Some_0 + p.skip(2));
                }
            }
            if e_bit {
                if base_len + 1 > MAX_NALS_PER_AU {
                    return Err(PayloadError::H264AccessUnitLimit);
                }
                let ghost candv = cand@;
                adds.push(cand);
                proof {
                    assert(vecs_view(adds@) =~= seq![candv]);
                }
            } else {
                if pkt.mark {
                    return Err(PayloadError::H264FragmentInterrupted);
                }
                frag_after = Some(cand);
            }
        } else {
            return Err(PayloadError::H264UnsupportedNal { nal_type: t });
        }
        let ghost addsv = vecs_view(adds@);
        proof {
            assert(push_error_spec(pre, pkt) is None);
        }
        // the last parameter sets of each kind carried by this packet
        let mut cand_sps: Option<Vec<u8>> = None;
        let mut cand_pps: Option<Vec<u8>> = None;
        let alen = adds.len();
        let mut ai: usize = 0;
        while ai < alen
            invariant
                ai <= alen == adds@.len(),
                addsv == vecs_view(adds@),
                forall|j: int| 0 <= j < alen ==> 1 <= (#[trigger] addsv[j]).len() <= MAX_NAL_SIZE,
                match cand_sps {
                    Some(c) => last_of_type(addsv.take(ai as int), 7) == Some(c@),
                    None => last_of_type(addsv.take(ai as int), 7) is None,
                },
                match cand_pps {
                    Some(c) => last_of_type(addsv.take(ai as int), 8) == Some(c@),
                    None => last_of_type(addsv.take(ai as int), 8) is None,
                },
            decreases alen - ai,
        {
            proof {
                assert(addsv[ai as int] == adds@[ai as int]@);
                assert(addsv.take(ai + 1).drop_last() =~= addsv.take(ai as int));
                assert(addsv.take(ai + 1).last() == addsv[ai as int]);
            }
            let b = adds[ai][0];
            let ty = b & 0x1f;
            if ty == 7 {
                cand_sps = Some(copy_vec(&adds[ai]));
            } else if ty == 8 {
                cand_pps = Some(copy_vec(&adds[ai]));
            }
            ai = ai + 1;
        }
        proof {
            assert(addsv.take(alen as int) =~= addsv);
        }
        // change detection and the parameter rebuild
        let sps_changed = match &cand_sps {
            Some(c) => match &self.sps {
                Some(s) => !vec_eq(c, s),
                None => true,
            },
            None => false,
        };
        let pps_changed = match &cand_pps {
            Some(c) => match &self.pps {
                Some(s) => !vec_eq(c, s),
                None => true,
            },
            None => false,
        };
        let changed = sps_changed || pps_changed;
        let have_sps = cand_sps.is_some() || self.sps.is_some();
        let have_pps = cand_pps.is_some() || self.pps.is_some();
        let mut new_vp: Option<VideoParameters> = None;
        proof {
            if last_of_type(addsv, 7) is Some {
                lemma_last_of_type_in(addsv, 7);
            }
            if last_of_type(addsv, 8) is Some {
                lemma_last_of_type_in(addsv, 8);
            }
        }
        if changed && have_sps && have_pps {
            proof {
                assert(addsv == spec_adds(pre, pkt));
                assert((changed && have_sps && have_pps) == spec_rebuilt(pre, pkt));
            }
            let vp_opt = {
                let sps_ref: &Vec<u8> = match &cand_sps {
                    Some(c) => c,
                    None => match self.sps.as_ref() {
                        Some(s) => s,
                        None => {
                            proof {
                                assert(false);
                            }
                            return Err(PayloadError::H264BadSps);
                        },
                    },
                };
                let pps_ref: &Vec<u8> = match &cand_pps {
                    Some(c) => c,
                    None => match self.pps.as_ref() {
                        Some(s) => s,
                        None => {
                            proof {
                                assert(false);
                            }
                            return Err(PayloadError::H264BadSps);
                        },
                    },
                };
                proof {
                    assert(sps_ref@ == spec_new_sps(pre, pkt)->Some_0);
                    assert(pps_ref@ == spec_new_pps(pre, pkt)->Some_0);
                }
                // the record's two-byte length prefixes bound the sets
                if sps_ref.len() == 0 || sps_ref.len() >= 0x1_0000 || pps_ref.len() == 0
                    || pps_ref.len() >= 0x1_0000 {
                    proof {
                        assert(spec_params_refused(pre, pkt));
                    }
                    return Err(PayloadError::H264BadSps);
                }
                make_video_parameters(sps_ref, pps_ref)
            };
            match vp_opt {
                None => {
                    proof {
                        assert(spec_params_refused(pre, pkt));
                    }
                    return Err(PayloadError::H264BadSps);
                },
                Some(vp) => {
                    new_vp = Some(vp);
                },
            }
        }
        proof {
            assert(vecs_view(adds@) == spec_adds(pre, pkt));
            assert(changed == spec_changed(pre, pkt));
            assert((changed && have_sps && have_pps) == spec_rebuilt(pre, pkt));
        }
        self.apply_accepted(&pkt, adds, frag_after, cand_sps, cand_pps, new_vp);
        Ok(())
    }

    /// Closes the access unit being assembled into a pending frame: its
    /// NAL units in AVCC form, the IDR/disposable flags, and any parameter
    /// change riding along; the unit's state is cleared.
    fn emit_frame(
        &mut self,
        timestamp: Timestamp,
        start_ctx: RtspMessageContext,
        end_ctx: RtspMessageContext,
        stream_id: usize,
        loss: u16,
    )
        requires
            old(self).nal_view().len() <= MAX_NALS_PER_AU,
            forall|i: int|
                0 <= i < old(self).nal_view().len() ==> 1 <= (#[trigger] old(
                    self,
                ).nal_view()[i]).len() <= MAX_NAL_SIZE,
        ensures
            final(self).nal_view() == Seq::<Seq<u8>>::empty(),
            final(self).au_meta() is None,
            final(self).new_params_pending() is None,
            final(self).frag_view() == old(self).frag_view(),
            final(self).spec_sps() == old(self).spec_sps(),
            final(self).spec_pps() == old(self).spec_pps(),
            final(self).spec_parameters() == old(self).spec_parameters(),
            final(self).spec_clock_rate() == old(self).spec_clock_rate(),
            final(self).loss_pending() == old(self).loss_pending(),
            final(self).pending_frames().drop_last() == old(self).pending_frames(),
            final(self).pending_frames().len() == old(self).pending_frames().len() + 1,
            frame_matches(
                final(self).pending_frames().last(),
                timestamp,
                start_ctx,
                end_ctx,
                stream_id,
                loss,
                old(self).nal_view(),
            ),
            opt_box_matches(
                final(self).pending_frames().last().new_parameters,
                old(self).new_params_pending(),
            ),
    {
        let data = build_avcc(&self.nals);
        let rap = compute_idr(&self.nals);
        let disp = compute_disposable(&self.nals);
        let np = self.new_parameters.take();
        let npb: Option<Box<VideoParameters>> = match np {
            Some(v) => Some(Box::new(v)),
            None => None,
        };
        self.pending.push(VideoFrame {
            new_parameters: npb,
            loss,
            start_ctx,
            end_ctx,
            timestamp,
            stream_id,
            is_random_access_point: rap,
            is_disposable: disp,
            data: bytes_from_vec(data),
        });
        self.nals = Vec::new();
        self.au = None;
        proof {
            assert(self.pending@.drop_last() =~= old(self).pending@);
            assert(vecs_view(Seq::<Vec<u8>>::empty()) =~= Seq::<Seq<u8>>::empty());
        }
    }

    /// Applies an already-checked packet to the state: drops on loss,
    /// emits at boundaries, integrates the new NAL units and the parameter
    /// sets.
    #[verifier::rlimit(100)]
    #[verifier::spinoff_prover]
    fn apply_accepted(
        &mut self,
        pkt: &Packet,
        adds: Vec<Vec<u8>>,
        frag_after: Option<Vec<u8>>,
        cand_sps: Option<Vec<u8>>,
        cand_pps: Option<Vec<u8>>,
        new_vp: Option<VideoParameters>,
    )
        requires
            old(self).wf(),
            old(self).pending_frames().len() == 0,
            0 < bytes_seq(pkt.payload).len() < 0x1_0000,
            push_error_spec(*old(self), *pkt) is None,
            vecs_view(adds@) == spec_adds(*old(self), *pkt),
            forall|j: int|
                0 <= j < adds@.len() ==> 1 <= (#[trigger] vecs_view(adds@)[j]).len()
                    <= MAX_NAL_SIZE,
            spec_base(*old(self), *pkt).len() + adds@.len() <= MAX_NALS_PER_AU,
            match frag_after {
                Some(f) => spec_frag_after(*old(self), *pkt) == Some(f@) && 1 <= f@.len()
                    <= MAX_NAL_SIZE,
                None => spec_frag_after(*old(self), *pkt) is None,
            },
            match cand_sps {
                Some(c) => last_of_type(spec_adds(*old(self), *pkt), 7) == Some(c@) && 1 <= c@.len(),
                None => last_of_type(spec_adds(*old(self), *pkt), 7) is None,
            },
            match cand_pps {
                Some(c) => last_of_type(spec_adds(*old(self), *pkt), 8) == Some(c@) && 1 <= c@.len(),
                None => last_of_type(spec_adds(*old(self), *pkt), 8) is None,
            },
            spec_rebuilt(*old(self), *pkt) ==> match new_vp {
                Some(vp) => params_match(
                    vp,
                    spec_new_sps(*old(self), *pkt)->Some_0,
                    spec_new_pps(*old(self), *pkt)->Some_0,
                ),
                None => false,
            },
            !spec_rebuilt(*old(self), *pkt) ==> new_vp is None,
        ensures
            final(self).wf(),
            push_ok_post(*old(self), *final(self), *pkt),
    {
        let ghost pre = *self;
        let ghost addsv = vecs_view(adds@);
        let alen = adds.len();
        let dropped = pkt.loss > 0;
        let boundary = !dropped && (match &self.au {
            Some(m) => !(m.timestamp == pkt.timestamp),
            None => false,
        });

        // ---- state changes ----
        let loss_in = crate::onvif::add_sat16(self.pending_loss, pkt.loss);
        if dropped {
            self.nals = Vec::new();
            self.frag = None;
            self.au = None;
        }
        if boundary {
            let meta = match &self.au {
                Some(m) => *m,
                None => AuMeta { timestamp: pkt.timestamp, start_ctx: pkt.ctx, last_ctx: pkt.ctx },
            };
            self.emit_frame(meta.timestamp, meta.start_ctx, meta.last_ctx, pkt.stream_id, loss_in);
        }
        // start context of the access unit this packet belongs to
        let b_start: RtspMessageContext = match &self.au {
            Some(m) => m.start_ctx,
            None => pkt.ctx,
        };
        // integrate the completed NAL units
        let ghost nals_before = vecs_view(self.nals@);
        let ghost snap = *self;
        let mut k: usize = 0;
        while k < alen
            invariant
                k <= alen == adds@.len(),
                addsv == vecs_view(adds@),
                forall|j: int| 0 <= j < alen ==> 1 <= (#[trigger] addsv[j]).len() <= MAX_NAL_SIZE,
                vecs_view(self.nals@) == nals_before + addsv.take(k as int),
                self.clock_rate == snap.clock_rate,
                self.frag == snap.frag,
                self.au == snap.au,
                self.pending_loss == snap.pending_loss,
                self.pending == snap.pending,
                self.sps == snap.sps,
                self.pps == snap.pps,
                self.parameters == snap.parameters,
                self.new_parameters == snap.new_parameters,
            decreases alen - k,
        {
            proof {
                assert(addsv[k as int] == adds@[k as int]@);
            }
            let item = copy_vec(&adds[k]);
            let ghost before = vecs_view(self.nals@);
            self.nals.push(item);
            proof {
                assert(vecs_view(self.nals@) =~= before + seq![addsv[k as int]]);
                assert(addsv.take(k + 1) =~= addsv.take(k as int) + seq![addsv[k as int]]);
                assert(vecs_view(self.nals@) =~= nals_before + addsv.take(k + 1));
            }
            k = k + 1;
        }
        proof {
            assert(addsv.take(alen as int) =~= addsv);
        }
        // caches and parameters
        match cand_sps {
            Some(c) => {
                proof {
                    assert(last_of_type(addsv, 7) == Some(c@));
                    lemma_last_of_type_in(addsv, 7);
                    let i = choose|i: int|
                        0 <= i < addsv.len() && addsv[i] == last_of_type(addsv, 7)->Some_0;
                    assert(1 <= (vecs_view(adds@)[i]).len() <= MAX_NAL_SIZE);
                    assert(1 <= c@.len());
                }
                self.sps = Some(c);
            },
            None => {},
        }
        match cand_pps {
            Some(c) => {
                proof {
                    assert(last_of_type(addsv, 8) == Some(c@));
                    lemma_last_of_type_in(addsv, 8);
                    let i = choose|i: int|
                        0 <= i < addsv.len() && addsv[i] == last_of_type(addsv, 8)->Some_0;
                    assert(1 <= (vecs_view(adds@)[i]).len() <= MAX_NAL_SIZE);
                    assert(1 <= c@.len());
                }
                self.pps = Some(c);
            },
            None => {},
        }
        match new_vp {
            Some(vp) => {
                self.parameters = Some(clone_video_parameters(&vp));
                self.new_parameters = Some(vp);
            },
            None => {},
        }
        self.frag = frag_after;
        if pkt.mark {
            self.emit_frame(
                pkt.timestamp,
                b_start,
                pkt.ctx,
                pkt.stream_id,
                if boundary {
                    0
                } else {
                    loss_in
                },
            );
            self.pending_loss = 0;
        } else {
            self.au = Some(
                AuMeta { timestamp: pkt.timestamp, start_ctx: b_start, last_ctx: pkt.ctx },
            );
            self.pending_loss = if boundary {
                0
            } else {
                loss_in
            };
        }
        proof {
            assert(vecs_view(Seq::<Vec<u8>>::empty()) =~= Seq::<Seq<u8>>::empty());
        }
    }
}

} // verus!
