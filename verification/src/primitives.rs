//! Fixed-endian primitive codec: the integral types of the protocol are
//! written big-endian. Buffering appends to a growable `Vec<u8>` sink;
//! unbuffering consumes a `bytes::Bytes` source and advances it only on
//! success.

use vstd::prelude::*;

use crate::bytes_buf::{bytes_get_u8, bytes_len, bytes_view};
use crate::error::{BufferUnbufferError, BytesRequired};

verus! {

/// The four bytes of `v`, most significant first.
pub open spec fn u32_be_bytes(v: u32) -> Seq<u8> {
    seq![(v >> 24) as u8, (v >> 16) as u8, (v >> 8) as u8, v as u8]
}

/// The big-endian value of a four-byte sequence.
pub open spec fn be_bytes_u32(s: Seq<u8>) -> u32
    recommends
        s.len() == 4,
{
    ((s[0] as u32) << 24) | ((s[1] as u32) << 16) | ((s[2] as u32) << 8) | (s[3] as u32)
}

/// The four bytes of `v`, most significant first (two's complement).
pub open spec fn i32_be_bytes(v: i32) -> Seq<u8> {
    u32_be_bytes(v as u32)
}

/// The big-endian two's-complement value of a four-byte sequence.
pub open spec fn be_bytes_i32(s: Seq<u8>) -> i32
    recommends
        s.len() == 4,
{
    be_bytes_u32(s) as i32
}

/// The eight bytes of `v`, most significant first.
pub open spec fn u64_be_bytes(v: u64) -> Seq<u8> {
    seq![
        (v >> 56) as u8,
        (v >> 48) as u8,
        (v >> 40) as u8,
        (v >> 32) as u8,
        (v >> 24) as u8,
        (v >> 16) as u8,
        (v >> 8) as u8,
        v as u8,
    ]
}

/// The big-endian value of an eight-byte sequence.
pub open spec fn be_bytes_u64(s: Seq<u8>) -> u64
    recommends
        s.len() == 8,
{
    ((s[0] as u64) << 56) | ((s[1] as u64) << 48) | ((s[2] as u64) << 40) | ((s[3] as u64) << 32)
        | ((s[4] as u64) << 24) | ((s[5] as u64) << 16) | ((s[6] as u64) << 8) | (s[7] as u64)
}

pub proof fn lemma_u32_be_roundtrip(v: u32)
    ensures
        be_bytes_u32(u32_be_bytes(v)) == v,
{
    assert(((((v >> 24) as u8) as u32) << 24) | ((((v >> 16) as u8) as u32) << 16) | ((((v
        >> 8) as u8) as u32) << 8) | ((v as u8) as u32) == v) by (bit_vector);
}

pub proof fn lemma_i32_be_roundtrip(v: i32)
    ensures
        be_bytes_i32(i32_be_bytes(v)) == v,
{
    lemma_u32_be_roundtrip(v as u32);
    assert(((v as u32) as i32) == v) by (bit_vector);
}

/// The eight bytes of `v`, most significant first (two's complement).
pub open spec fn i64_be_bytes(v: i64) -> Seq<u8> {
    u64_be_bytes(v as u64)
}

/// The big-endian two's-complement value of an eight-byte sequence.
pub open spec fn be_bytes_i64(s: Seq<u8>) -> i64
    recommends
        s.len() == 8,
{
    be_bytes_u64(s) as i64
}

pub proof fn lemma_i64_be_roundtrip(v: i64)
    ensures
        be_bytes_i64(i64_be_bytes(v)) == v,
{
    lemma_u64_be_roundtrip(v as u64);
    assert(((v as u64) as i64) == v) by (bit_vector);
}

pub proof fn lemma_u64_be_roundtrip(v: u64)
    ensures
        be_bytes_u64(u64_be_bytes(v)) == v,
{
    assert(((((v >> 56) as u8) as u64) << 56) | ((((v >> 48) as u8) as u64) << 48) | ((((v
        >> 40) as u8) as u64) << 40) | ((((v >> 32) as u8) as u64) << 32) | ((((v
        >> 24) as u8) as u64) << 24) | ((((v >> 16) as u8) as u64) << 16) | ((((v
        >> 8) as u8) as u64) << 8) | ((v as u8) as u64) == v) by (bit_vector);
}

/// Append `v` to the sink.
pub fn buffer_u8(out: &mut Vec<u8>, v: u8)
    ensures
        final(out)@ == old(out)@ + seq![v],
{
    out.push(v);
    assert(out@ =~= old(out)@ + seq![v]);
}

/// Append the big-endian bytes of `v` to the sink.
pub fn buffer_u32(out: &mut Vec<u8>, v: u32)
    ensures
        final(out)@ == old(out)@ + u32_be_bytes(v),
{
    out.push((v >> 24) as u8);
    out.push((v >> 16) as u8);
    out.push((v >> 8) as u8);
    out.push(v as u8);
    assert(out@ =~= old(out)@ + u32_be_bytes(v));
}

/// Append the big-endian bytes of `v` to the sink.
pub fn buffer_i32(out: &mut Vec<u8>, v: i32)
    ensures
        final(out)@ == old(out)@ + i32_be_bytes(v),
{
    buffer_u32(out, v as u32);
}

/// Append the big-endian bytes of `v` to the sink.
pub fn buffer_u64(out: &mut Vec<u8>, v: u64)
    ensures
        final(out)@ == old(out)@ + u64_be_bytes(v),
{
    out.push((v >> 56) as u8);
    out.push((v >> 48) as u8);
    out.push((v >> 40) as u8);
    out.push((v >> 32) as u8);
    out.push((v >> 24) as u8);
    out.push((v >> 16) as u8);
    out.push((v >> 8) as u8);
    out.push(v as u8);
    assert(out@ =~= old(out)@ + u64_be_bytes(v));
}

/// Append the big-endian bytes of `v` to the sink.
pub fn buffer_i64(out: &mut Vec<u8>, v: i64)
    ensures
        final(out)@ == old(out)@ + i64_be_bytes(v),
{
    buffer_u64(out, v as u64);
}

/// Read one byte; on success the source is advanced past it.
pub fn unbuffer_u8(buf: &mut bytes::Bytes) -> (r: Result<u8, BufferUnbufferError>)
    ensures
        bytes_view(*old(buf)).len() >= 1 ==> r == Ok::<u8, BufferUnbufferError>(
            bytes_view(*old(buf))[0],
        ) && bytes_view(*final(buf)) == bytes_view(*old(buf)).skip(1),
        bytes_view(*old(buf)).len() < 1 ==> r == Err::<u8, BufferUnbufferError>(
            BufferUnbufferError::NeedMoreData(BytesRequired::Exactly(1)),
        ) && bytes_view(*final(buf)) == bytes_view(*old(buf)),
{
    if bytes_len(buf) < 1 {
        return Err(BufferUnbufferError::NeedMoreData(BytesRequired::Exactly(1)));
    }
    Ok(bytes_get_u8(buf))
}

/// Read a big-endian `u32`; on success the source is advanced past it.
pub fn unbuffer_u32(buf: &mut bytes::Bytes) -> (r: Result<u32, BufferUnbufferError>)
    ensures
        bytes_view(*old(buf)).len() >= 4 ==> r == Ok::<u32, BufferUnbufferError>(
            be_bytes_u32(bytes_view(*old(buf)).take(4)),
        ) && bytes_view(*final(buf)) == bytes_view(*old(buf)).skip(4),
        bytes_view(*old(buf)).len() < 4 ==> r == Err::<u32, BufferUnbufferError>(
            BufferUnbufferError::NeedMoreData(
                BytesRequired::Exactly((4 - bytes_view(*old(buf)).len()) as usize),
            ),
        ) && bytes_view(*final(buf)) == bytes_view(*old(buf)),
{
    let ghost s = bytes_view(*old(buf));
    let n = bytes_len(buf);
    if n < 4 {
        return Err(BufferUnbufferError::NeedMoreData(BytesRequired::Exactly(4 - n)));
    }
    let b0 = bytes_get_u8(buf);
    let b1 = bytes_get_u8(buf);
    let b2 = bytes_get_u8(buf);
    let b3 = bytes_get_u8(buf);
    proof {
        assert(bytes_view(*buf) =~= s.skip(4));
        assert(b1 == s[1] && b2 == s[2] && b3 == s[3]);
        assert(s.take(4)[0] == s[0] && s.take(4)[1] == s[1] && s.take(4)[2] == s[2] && s.take(4)[3]
            == s[3]);
    }
    Ok(((b0 as u32) << 24) | ((b1 as u32) << 16) | ((b2 as u32) << 8) | (b3 as u32))
}

/// Read a big-endian `i32`; on success the source is advanced past it.
pub fn unbuffer_i32(buf: &mut bytes::Bytes) -> (r: Result<i32, BufferUnbufferError>)
    ensures
        bytes_view(*old(buf)).len() >= 4 ==> r == Ok::<i32, BufferUnbufferError>(
            be_bytes_i32(bytes_view(*old(buf)).take(4)),
        ) && bytes_view(*final(buf)) == bytes_view(*old(buf)).skip(4),
        bytes_view(*old(buf)).len() < 4 ==> r == Err::<i32, BufferUnbufferError>(
            BufferUnbufferError::NeedMoreData(
                BytesRequired::Exactly((4 - bytes_view(*old(buf)).len()) as usize),
            ),
        ) && bytes_view(*final(buf)) == bytes_view(*old(buf)),
{
    match unbuffer_u32(buf) {
        Ok(v) => Ok(v as i32),
        Err(e) => Err(e),
    }
}

/// Read a big-endian `u64`; on success the source is advanced past it.
pub fn unbuffer_u64(buf: &mut bytes::Bytes) -> (r: Result<u64, BufferUnbufferError>)
    ensures
        bytes_view(*old(buf)).len() >= 8 ==> r == Ok::<u64, BufferUnbufferError>(
            be_bytes_u64(bytes_view(*old(buf)).take(8)),
        ) && bytes_view(*final(buf)) == bytes_view(*old(buf)).skip(8),
        bytes_view(*old(buf)).len() < 8 ==> r == Err::<u64, BufferUnbufferError>(
            BufferUnbufferError::NeedMoreData(
                BytesRequired::Exactly((8 - bytes_view(*old(buf)).len()) as usize),
            ),
        ) && bytes_view(*final(buf)) == bytes_view(*old(buf)),
{
    let ghost s = bytes_view(*old(buf));
    let n = bytes_len(buf);
    if n < 8 {
        return Err(BufferUnbufferError::NeedMoreData(BytesRequired::Exactly(8 - n)));
    }
    let b0 = bytes_get_u8(buf);
    let b1 = bytes_get_u8(buf);
    let b2 = bytes_get_u8(buf);
    let b3 = bytes_get_u8(buf);
    let b4 = bytes_get_u8(buf);
    let b5 = bytes_get_u8(buf);
    let b6 = bytes_get_u8(buf);
    let b7 = bytes_get_u8(buf);
    proof {
        assert(bytes_view(*buf) =~= s.skip(8));
        assert(b1 == s[1] && b2 == s[2] && b3 == s[3] && b4 == s[4] && b5 == s[5] && b6 == s[6]
            && b7 == s[7]);
        assert(s.take(8)[0] == s[0] && s.take(8)[1] == s[1] && s.take(8)[2] == s[2] && s.take(8)[3]
            == s[3] && s.take(8)[4] == s[4] && s.take(8)[5] == s[5] && s.take(8)[6] == s[6]
            && s.take(8)[7] == s[7]);
    }
    Ok(
        ((b0 as u64) << 56) | ((b1 as u64) << 48) | ((b2 as u64) << 40) | ((b3 as u64) << 32) | ((
        b4 as u64) << 24) | ((b5 as u64) << 16) | ((b6 as u64) << 8) | (b7 as u64),
    )
}


/// Read a big-endian `i64`; on success the source is advanced past it.
pub fn unbuffer_i64(buf: &mut bytes::Bytes) -> (r: Result<i64, BufferUnbufferError>)
    ensures
        bytes_view(*old(buf)).len() >= 8 ==> r == Ok::<i64, BufferUnbufferError>(
            be_bytes_i64(bytes_view(*old(buf)).take(8)),
        ) && bytes_view(*final(buf)) == bytes_view(*old(buf)).skip(8),
        bytes_view(*old(buf)).len() < 8 ==> r == Err::<i64, BufferUnbufferError>(
            BufferUnbufferError::NeedMoreData(
                BytesRequired::Exactly((8 - bytes_view(*old(buf)).len()) as usize),
            ),
        ) && bytes_view(*final(buf)) == bytes_view(*old(buf)),
{
    match unbuffer_u64(buf) {
        Ok(v) => Ok(v as i64),
        Err(e) => Err(e),
    }
}

} // verus!
