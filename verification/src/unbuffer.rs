//! Support for unbuffering: the `Output` wrapper for parsed values, the
//! remaining-bytes check, and consuming an expected literal from the source.

use vstd::prelude::*;

use crate::bytes_buf::{bytes_len, bytes_view};
use crate::error::{BufferUnbufferError, BytesRequired};
use crate::message::unbuffer_bytes;

verus! {

/// A parsed value. Wrapping the result keeps call sites explicit about
/// which half of the codec produced it.
#[derive(Debug, Clone, PartialEq, Eq)]
pub struct Output<T>(pub T);

impl<T> Output<T> {
    pub fn new(data: T) -> (r: Output<T>)
        ensures
            r.0 == data,
    {
        Output(data)
    }

    pub fn data(self) -> (r: T)
        ensures
            r == self.0,
    {
        self.0
    }

    pub fn borrow_data<'a>(&'a self) -> (r: &'a T)
        ensures
            *r == self.0,
    {
        &self.0
    }

    pub fn borrow_data_mut<'a>(&'a mut self) -> &'a mut T {
        &mut self.0
    }

    pub fn map<U, F: FnOnce(T) -> U>(self, f: F) -> (r: Output<U>)
        requires
            f.requires((self.0,)),
        ensures
            f.ensures((self.0,), r.0),
    {
        Output(f(self.0))
    }
}

/// Check whether the source has enough bytes remaining to unbuffer a value
/// of the given length.
pub fn check_unbuffer_remaining(buf: &bytes::Bytes, required_len: usize) -> (r: Result<
    (),
    BufferUnbufferError,
>)
    ensures
        bytes_view(*buf).len() >= required_len ==> r == Ok::<(), BufferUnbufferError>(()),
        bytes_view(*buf).len() < required_len ==> r == Err::<(), BufferUnbufferError>(
            BufferUnbufferError::NeedMoreData(
                BytesRequired::Exactly((required_len - bytes_view(*buf).len()) as usize),
            ),
        ),
{
    let bytes_len = bytes_len(buf);
    if bytes_len < required_len {
        Err(BufferUnbufferError::NeedMoreData(BytesRequired::Exactly(required_len - bytes_len)))
    } else {
        Ok(())
    }
}

/// Copy a byte slice into a fresh vector.
pub fn slice_to_vec(s: &[u8]) -> (r: Vec<u8>)
    ensures
        r@ == s@,
{
    let mut v: Vec<u8> = Vec::new();
    let mut i: usize = 0;
    while i < s.len()
        invariant
            i <= s@.len(),
            v@ == s@.take(i as int),
        decreases s@.len() - i,
    {
        v.push(s[i]);
        proof {
            assert(v@ =~= s@.take(i + 1));
        }
        i = i + 1;
    }
    proof {
        assert(s@.take(s@.len() as int) =~= s@);
    }
    v
}

/// Whether two byte vectors hold the same bytes.
pub fn bytes_equal(a: &Vec<u8>, b: &[u8]) -> (r: bool)
    ensures
        r == (a@ == b@),
{
    if a.len() != b.len() {
        proof {
            assert(a@.len() != b@.len());
        }
        return false;
    }
    let mut i: usize = 0;
    while i < a.len()
        invariant
            i <= a@.len(),
            a@.len() == b@.len(),
            forall|j: int| 0 <= j < i ==> a@[j] == b@[j],
        decreases a@.len() - i,
    {
        if a[i] != b[i] {
            return false;
        }
        i = i + 1;
    }
    proof {
        assert(a@ =~= b@);
    }
    true
}

/// Consume the expected byte string from the front of the source.
///
/// If the source is too short, nothing is consumed and the exact shortage
/// is reported. Otherwise exactly `expected.len()` bytes are consumed, and
/// a mismatch returns them alongside what was expected.
pub fn consume_expected(buf: &mut bytes::Bytes, expected: &[u8]) -> (r: Result<
    (),
    BufferUnbufferError,
>)
    ensures
        ({
            let s = bytes_view(*old(buf));
            let n = expected@.len() as int;
            &&& s.len() < expected@.len() ==> r == Err::<(), BufferUnbufferError>(
                BufferUnbufferError::NeedMoreData(
                    BytesRequired::Exactly((expected@.len() - s.len()) as usize),
                ),
            ) && bytes_view(*final(buf)) == s
            &&& (s.len() >= expected@.len() && s.take(n) == expected@) ==> r == Ok::<
                (),
                BufferUnbufferError,
            >(()) && bytes_view(*final(buf)) == s.skip(n)
            &&& (s.len() >= expected@.len() && s.take(n) != expected@) ==> (r matches Err(e)
                && (e matches BufferUnbufferError::UnexpectedAsciiData { actual: a, expected: x }
                && a@ == s.take(n) && x@ == expected@)) && bytes_view(*final(buf)) == s.skip(n)
        }),
{
    let expected_len = expected.len();
    match check_unbuffer_remaining(buf, expected_len) {
        Ok(()) => {},
        Err(e) => {
            return Err(e);
        },
    }
    let my_bytes = match unbuffer_bytes(buf, expected_len) {
        Ok(v) => v,
        Err(e) => {
            return Err(e);
        },
    };
    if bytes_equal(&my_bytes, expected) {
        Ok(())
    } else {
        Err(
            BufferUnbufferError::UnexpectedAsciiData {
                actual: my_bytes,
                expected: slice_to_vec(expected),
            },
        )
    }
}

} // verus!
