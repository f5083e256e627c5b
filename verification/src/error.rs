//! Error types shared by the buffering (serialize) and unbuffering
//! (deserialize) halves of the codec.

use vstd::prelude::*;

verus! {

/// How many more bytes an unbuffering operation needs before it can make
/// progress.
///
/// `Exactly` comes from a fixed-size field: the caller knows precisely how
/// much more to fetch. `AtLeast` comes from a variable-size value: after
/// fetching, the caller must re-drive the parse, which may ask again.
#[derive(Debug, Clone, Copy, PartialEq, Eq, Structural)]
pub enum BytesRequired {
    Exactly(usize),
    AtLeast(usize),
    Unknown,
}

impl BytesRequired {
    /// Whether a buffer of `buf_size` bytes satisfies this requirement;
    /// `None` if the requirement is unknown.
    pub fn satisfied_by(&self, buf_size: usize) -> (r: Option<bool>)
        ensures
            r == (match *self {
                BytesRequired::Exactly(c) => Some(c <= buf_size),
                BytesRequired::AtLeast(c) => Some(c <= buf_size),
                BytesRequired::Unknown => None::<bool>,
            }),
    {
        match *self {
            BytesRequired::Exactly(c) => Some(c <= buf_size),
            BytesRequired::AtLeast(c) => Some(c <= buf_size),
            BytesRequired::Unknown => None,
        }
    }

    /// Sum of two requirements. `AtLeast` absorbs `Exactly`; `Unknown`
    /// absorbs everything. Counts saturate at `usize::MAX`.
    pub open spec fn spec_plus(self, other: BytesRequired) -> BytesRequired {
        match (self, other) {
            (BytesRequired::Exactly(a), BytesRequired::Exactly(b)) => BytesRequired::Exactly(
                sat_add(a, b),
            ),
            (BytesRequired::AtLeast(a), BytesRequired::Exactly(b)) => BytesRequired::AtLeast(
                sat_add(a, b),
            ),
            (BytesRequired::Exactly(a), BytesRequired::AtLeast(b)) => BytesRequired::AtLeast(
                sat_add(a, b),
            ),
            (BytesRequired::AtLeast(a), BytesRequired::AtLeast(b)) => BytesRequired::AtLeast(
                sat_add(a, b),
            ),
            _ => BytesRequired::Unknown,
        }
    }

    /// Combine two requirements into the requirement of parsing both.
    pub fn plus(self, other: BytesRequired) -> (r: BytesRequired)
        ensures
            r == self.spec_plus(other),
    {
        match (self, other) {
            (BytesRequired::Exactly(a), BytesRequired::Exactly(b)) => BytesRequired::Exactly(
                a.checked_add(b).unwrap_or(usize::MAX),
            ),
            (BytesRequired::AtLeast(a), BytesRequired::Exactly(b)) => BytesRequired::AtLeast(
                a.checked_add(b).unwrap_or(usize::MAX),
            ),
            (BytesRequired::Exactly(a), BytesRequired::AtLeast(b)) => BytesRequired::AtLeast(
                a.checked_add(b).unwrap_or(usize::MAX),
            ),
            (BytesRequired::AtLeast(a), BytesRequired::AtLeast(b)) => BytesRequired::AtLeast(
                a.checked_add(b).unwrap_or(usize::MAX),
            ),
            _ => BytesRequired::Unknown,
        }
    }

    /// Weaken an `Exactly` requirement to `AtLeast`, used when a
    /// variable-size value begins with a fixed-size length field.
    pub fn expand(self) -> (r: BytesRequired)
        ensures
            r == self.spec_expand(),
    {
        match self {
            BytesRequired::Exactly(n) => BytesRequired::AtLeast(n),
            other => other,
        }
    }

    pub open spec fn spec_expand(self) -> BytesRequired {
        match self {
            BytesRequired::Exactly(n) => BytesRequired::AtLeast(n),
            other => other,
        }
    }
}

/// `a + b`, saturating at `usize::MAX`.
pub open spec fn sat_add(a: usize, b: usize) -> usize {
    if a + b <= usize::MAX {
        (a + b) as usize
    } else {
        usize::MAX
    }
}

/// What kind of value a parse failure was encountered in.
#[derive(Debug, Clone, Copy, PartialEq, Eq, Structural)]
pub enum ParseKind {
    /// A decimal integer field (for example the cookie version digits).
    Integer,
    /// The length field of a message frame.
    LengthField,
    /// A message body whose length disagrees with the frame's length field.
    MessageBody,
}

/// Error type returned by buffering/unbuffering.
#[derive(Debug, Clone, PartialEq, Eq)]
pub enum BufferUnbufferError {
    /// Unbuffering ran out of buffered bytes.
    NeedMoreData(BytesRequired),
    /// A fixed byte string on the wire did not match what was expected.
    UnexpectedAsciiData { actual: Vec<u8>, expected: Vec<u8> },
    /// Buffering ran out of buffer space.
    OutOfBuffer,
    /// A length field promised complete data, yet more bytes were needed.
    HeaderSizeMismatch(BytesRequired),
    /// A non-structural parse failure; `detail` is the number of bytes
    /// involved (unconsumed bytes for `MessageBody`, field size for the
    /// others).
    ParseError { parsing_kind: ParseKind, detail: usize },
}

impl BufferUnbufferError {
    /// The size requirement carried by a `NeedMoreData`, if that is what
    /// this error is.
    pub fn try_get_size_requirement(self) -> (r: Option<BytesRequired>)
        ensures
            r == (match self {
                BufferUnbufferError::NeedMoreData(required) => Some(required),
                _ => None::<BytesRequired>,
            }),
    {
        match self {
            BufferUnbufferError::NeedMoreData(required) => Some(required),
            _ => None,
        }
    }

    /// Weaken `NeedMoreData(Exactly(n))` to `NeedMoreData(AtLeast(n))`.
    pub fn expand_size_requirement(self) -> (r: BufferUnbufferError)
        ensures
            r == (match self {
                BufferUnbufferError::NeedMoreData(required) => BufferUnbufferError::NeedMoreData(
                    required.spec_expand(),
                ),
                _ => self,
            }),
    {
        match self {
            BufferUnbufferError::NeedMoreData(required) => BufferUnbufferError::NeedMoreData(
                required.expand(),
            ),
            other => other,
        }
    }

    /// Map `NeedMoreData(_)` to `HeaderSizeMismatch(_)`, for callers that
    /// know from a length field that the data should have been complete.
    pub fn map_bytes_required_to_size_mismatch(self) -> (r: BufferUnbufferError)
        ensures
            r == (match self {
                BufferUnbufferError::NeedMoreData(required) => BufferUnbufferError::HeaderSizeMismatch(
                    required,
                ),
                _ => self,
            }),
    {
        match self {
            BufferUnbufferError::NeedMoreData(required) => BufferUnbufferError::HeaderSizeMismatch(
                required,
            ),
            other => other,
        }
    }
}

impl From<BytesRequired> for BufferUnbufferError {
    fn from(val: BytesRequired) -> (r: BufferUnbufferError) {
        BufferUnbufferError::NeedMoreData(val)
    }
}

impl vstd::std_specs::convert::FromSpecImpl<BytesRequired> for BufferUnbufferError {
    open spec fn obeys_from_spec() -> bool {
        true
    }

    open spec fn from_spec(val: BytesRequired) -> BufferUnbufferError {
        BufferUnbufferError::NeedMoreData(val)
    }
}

} // verus!
