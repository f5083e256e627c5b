//! The read side of the codec consumes a `bytes::Bytes` buffer, whose cheap
//! split-and-advance cursor makes frame parsing restartable. The handful of
//! operations used are declared here with their contracts; everything built
//! on top of them is verified.

use bytes::Buf;
use vstd::prelude::*;

verus! {

/// Declares `bytes::Bytes`, the outside buffer type, so that it can stand
/// in signatures; its contents are reached only through `bytes_view`.
#[verifier::external_type_specification]
#[verifier::external_body]
pub struct ExBytes(bytes::Bytes);

/// The sequence of bytes remaining in a `bytes::Bytes` buffer.
pub uninterp spec fn bytes_view(b: bytes::Bytes) -> Seq<u8>;

/// Relies on `Bytes::len`: the number of bytes the buffer holds.
#[verifier::external_body]
pub(crate) fn bytes_len(b: &bytes::Bytes) -> (n: usize)
    ensures
        n == bytes_view(*b).len(),
{
    b.len()
}

/// Relies on `Buf::get_u8` for `Bytes`: returns the first byte and advances
/// the buffer past it (it panics on an empty buffer, which the precondition
/// rules out).
#[verifier::external_body]
pub(crate) fn bytes_get_u8(b: &mut bytes::Bytes) -> (r: u8)
    requires
        bytes_view(*old(b)).len() >= 1,
    ensures
        r == bytes_view(*old(b))[0],
        bytes_view(*final(b)) == bytes_view(*old(b)).skip(1),
{
    b.get_u8()
}

/// Relies on `Bytes::advance`: discards the first `cnt` bytes (it panics
/// when `cnt` exceeds the length, which the precondition rules out).
#[verifier::external_body]
pub(crate) fn bytes_advance(b: &mut bytes::Bytes, cnt: usize)
    requires
        cnt <= bytes_view(*old(b)).len(),
    ensures
        bytes_view(*final(b)) == bytes_view(*old(b)).skip(cnt as int),
{
    b.advance(cnt)
}

/// Relies on `From<Vec<u8>> for Bytes`: a buffer holding exactly the
/// vector's bytes.
#[verifier::external_body]
pub(crate) fn bytes_from_vec(v: Vec<u8>) -> (r: bytes::Bytes)
    ensures
        bytes_view(r) == v@,
{
    bytes::Bytes::from(v)
}

/// Relies on `Clone for Bytes`: a second handle on the same bytes.
#[verifier::external_body]
pub(crate) fn bytes_clone(b: &bytes::Bytes) -> (r: bytes::Bytes)
    ensures
        bytes_view(r) == bytes_view(*b),
{
    b.clone()
}

} // verus!
