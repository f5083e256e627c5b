//! Geometry of the message frame: alignment padding and the `MessageSize`
//! calculations relating body size, header size, and on-wire size.

use vstd::prelude::*;

verus! {

/// Alignment boundary of the wire protocol: every frame is padded to a
/// multiple of this many bytes.
pub const ALIGN: usize = 8;

/// Unpadded size of the header as counted by the length field: the length
/// field itself plus timestamp, sender and type (five 32-bit words minus the
/// sequence-number slot).
pub const UNPADDED_HEADER_SIZE: usize = 20;

/// On-wire size of the header: the five words above plus the four bytes that
/// carry the sequence number.
pub const WIRE_HEADER_SIZE: usize = 24;

/// Number of zero bytes needed after `len` bytes to reach a multiple of 8.
pub open spec fn spec_padding(len: nat) -> nat {
    (((8 - len % 8) % 8) as nat)
}

/// `len` rounded up to a multiple of 8.
pub open spec fn spec_padded(len: nat) -> nat {
    len + spec_padding(len)
}

/// `n` as a `usize`, saturating at `usize::MAX`. A frame described by a
/// length field near `u32::MAX` can be bigger than a 32-bit `usize` can
/// count; a byte shortage that large is reported saturated.
pub open spec fn clamp_to_usize(n: int) -> usize {
    if n > usize::MAX {
        usize::MAX
    } else if n < 0 {
        0
    } else {
        n as usize
    }
}

pub proof fn lemma_padded_is_aligned(len: nat)
    ensures
        spec_padded(len) % 8 == 0,
        spec_padded(len) < len + 8,
        len <= spec_padded(len),
{
}

/// Number of zero bytes needed after `len` bytes to reach the alignment
/// boundary.
#[inline]
pub fn compute_padding(len: usize) -> (r: usize)
    ensures
        r == spec_padding(len as nat),
{
    (ALIGN - len % ALIGN) % ALIGN
}

/// `len` rounded up to the alignment boundary.
#[inline]
pub fn padded(len: usize) -> (r: usize)
    requires
        len + 7 <= usize::MAX,
    ensures
        r == spec_padded(len as nat),
{
    len + compute_padding(len)
}

/// All size calculations for a framed message, derived from the unpadded
/// size of its body.
#[derive(Debug, Clone, Copy, Eq, PartialEq, Hash, Structural)]
pub struct MessageSize {
    /// The unpadded size of a message body only.
    pub unpadded_body_size: usize,
}

impl MessageSize {
    /// Get a MessageSize from the unpadded size of a message body only.
    #[inline]
    pub fn from_unpadded_body_size(unpadded_body_size: usize) -> (r: MessageSize)
        ensures
            r.unpadded_body_size == unpadded_body_size,
    {
        MessageSize { unpadded_body_size }
    }

    /// Get a MessageSize from the total unpadded size of a message (header
    /// plus body).
    #[inline]
    pub fn from_unpadded_message_size(unpadded_message_size: usize) -> (r: MessageSize)
        requires
            unpadded_message_size >= UNPADDED_HEADER_SIZE,
        ensures
            r.unpadded_body_size == unpadded_message_size - UNPADDED_HEADER_SIZE,
    {
        MessageSize::from_unpadded_body_size(unpadded_message_size - UNPADDED_HEADER_SIZE)
    }

    /// The total unpadded size of a message (header plus body).
    ///
    /// This is the value put in the message header's length field.
    #[inline]
    pub fn unpadded_message_size(&self) -> (r: usize)
        requires
            self.unpadded_body_size + UNPADDED_HEADER_SIZE <= usize::MAX,
        ensures
            r == self.unpadded_body_size + UNPADDED_HEADER_SIZE,
    {
        self.unpadded_body_size + UNPADDED_HEADER_SIZE
    }

    /// The body size rounded up to the alignment boundary.
    #[inline]
    pub fn padded_body_size(&self) -> (r: usize)
        requires
            self.unpadded_body_size + 7 <= usize::MAX,
        ensures
            r == spec_padded(self.unpadded_body_size as nat),
    {
        padded(self.unpadded_body_size)
    }

    /// The total padded size of a message (header plus body, padding applied
    /// individually).
    ///
    /// This is the size of buffer actually required for this message.
    #[inline]
    pub fn padded_message_size(&self) -> (r: usize)
        requires
            self.unpadded_body_size + 7 + WIRE_HEADER_SIZE <= usize::MAX,
        ensures
            r == spec_padded(self.unpadded_body_size as nat) + WIRE_HEADER_SIZE,
    {
        self.padded_body_size() + padded(UNPADDED_HEADER_SIZE)
    }
}

} // verus!
