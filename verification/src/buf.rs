//! Trusted interface to the reference-counted byte buffer of the `bytes`
//! crate. Payloads are carried as `bytes::Bytes` so that handing a frame
//! downstream shares the received buffer instead of copying it. Verified
//! code sees a buffer only through [`bytes_seq`], the mathematical sequence
//! of bytes it holds, and through the small wrappers below.

use vstd::prelude::*;

use bytes::Buf;

verus! {

#[verifier::external_type_specification]
#[verifier::external_body]
pub struct ExBytes(bytes::Bytes);

/// The bytes a `bytes::Bytes` buffer holds, as a mathematical sequence.
pub uninterp spec fn bytes_seq(b: bytes::Bytes) -> Seq<u8>;

/// Relies on `Bytes::len`: the number of bytes the buffer holds.
#[verifier::external_body]
pub fn bytes_len(b: &bytes::Bytes) -> (n: usize)
    ensures
        n == bytes_seq(*b).len(),
{
    b.len()
}

/// Relies on `Index<usize>` for `Bytes` (through its deref to `[u8]`):
/// the byte at position `i`. Indexing past the end panics, so it is ruled out.
#[verifier::external_body]
pub fn bytes_at(b: &bytes::Bytes, i: usize) -> (r: u8)
    requires
        i < bytes_seq(*b).len(),
    ensures
        r == bytes_seq(*b)[i as int],
{
    b[i]
}

/// Relies on `Buf::advance` for `Bytes`: drops the first `n` bytes in place,
/// keeping the rest as a view of the same allocation. Advancing past the end
/// panics, so it is ruled out.
#[verifier::external_body]
pub fn bytes_advance(b: &mut bytes::Bytes, n: usize)
    requires
        n <= bytes_seq(*old(b)).len(),
    ensures
        bytes_seq(*final(b)) == bytes_seq(*old(b)).skip(n as int),
{
    b.advance(n)
}

/// Relies on `Bytes::slice`: a view of the bytes in `start..end`, sharing
/// the same allocation. An out-of-range or inverted range panics, so it is
/// ruled out.
#[verifier::external_body]
pub fn bytes_slice(b: &bytes::Bytes, start: usize, end: usize) -> (r: bytes::Bytes)
    requires
        start <= end <= bytes_seq(*b).len(),
    ensures
        bytes_seq(r) == bytes_seq(*b).subrange(start as int, end as int),
{
    b.slice(start..end)
}

/// Relies on `From<Vec<u8>> for Bytes`: a buffer holding exactly the
/// vector's bytes.
#[verifier::external_body]
pub fn bytes_from_vec(v: Vec<u8>) -> (r: bytes::Bytes)
    ensures
        bytes_seq(r) == v@,
{
    bytes::Bytes::from(v)
}

/// Relies on `Bytes::new`: an empty buffer.
#[verifier::external_body]
pub fn bytes_new() -> (r: bytes::Bytes)
    ensures
        bytes_seq(r) == Seq::<u8>::empty(),
{
    bytes::Bytes::new()
}

/// Relies on `Clone for Bytes`: a second view of the same bytes, without
/// copying them.
#[verifier::external_body]
pub fn bytes_clone(b: &bytes::Bytes) -> (r: bytes::Bytes)
    ensures
        bytes_seq(r) == bytes_seq(*b),
{
    b.clone()
}

/// Relies on `String::from_utf8`: ASCII bytes are valid UTF-8 and decode
/// to exactly those characters, so the unwrap cannot fail.
#[verifier::external_body]
pub fn string_from_ascii(v: Vec<u8>) -> (r: String)
    requires
        forall|i: int| 0 <= i < v@.len() ==> v@[i] < 0x80,
    ensures
        r@ == v@.map_values(|b: u8| b as char),
{
    String::from_utf8(v).unwrap()
}

/// Appends `b[start..end]` onto `dst`, reading through the trusted
/// single-byte accessor; used where reassembly genuinely has to copy.
pub fn extend_from_bytes(dst: &mut Vec<u8>, b: &bytes::Bytes, start: usize, end: usize)
    requires
        start <= end <= bytes_seq(*b).len(),
    ensures
        final(dst)@ == old(dst)@ + bytes_seq(*b).subrange(start as int, end as int),
{
    let mut i: usize = start;
    while i < end
        invariant
            start <= i <= end <= bytes_seq(*b).len(),
            dst@ == old(dst)@ + bytes_seq(*b).subrange(start as int, i as int),
        decreases end - i,
    {
        let x = bytes_at(b, i);
        dst.push(x);
        proof {
            assert(dst@ =~= old(dst)@ + bytes_seq(*b).subrange(start as int, i as int + 1));
        }
        i = i + 1;
    }
    proof {
        assert(dst@ =~= old(dst)@ + bytes_seq(*b).subrange(start as int, end as int));
    }
}

} // verus!
