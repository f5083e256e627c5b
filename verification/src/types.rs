//! Identifier and timestamp types shared across the protocol.
//!
//! Ids are 32-bit signed integers. Two identity spaces exist: local ids
//! (assigned by this endpoint) and remote ids (assigned by the peer). Each
//! space distinguishes sender ids from type ids. Negative values are
//! reserved for system message types; `-1` also serves as invalid/unknown.

use vstd::prelude::*;

use crate::error::{BufferUnbufferError, BytesRequired};
use crate::bytes_buf::{bytes_len, bytes_view};
use crate::primitives::{
    be_bytes_i32, buffer_i32, i32_be_bytes, lemma_i32_be_roundtrip, unbuffer_i32,
};

verus! {

/// Underlying integer type of every id.
pub type IdType = i32;

/// Sentinel for an invalid or not-yet-known id.
pub const ID_INVALID: IdType = -1;

/// System message type: the body names one of the peer's senders.
pub const SENDER_DESCRIPTION: IdType = -1;

/// System message type: the body names one of the peer's message types.
pub const TYPE_DESCRIPTION: IdType = -2;

/// System message type: the peer is closing the connection.
pub const DISCONNECT_MESSAGE: IdType = -3;

/// System message type: liveness probe; answered with a pong.
pub const PING_MESSAGE: IdType = -4;

/// System message type: answer to a ping.
pub const PONG_MESSAGE: IdType = -5;

/// System message type: remote-logging request; carried but not acted on.
pub const LOG_DESCRIPTION: IdType = -6;

/// A sender id, in whichever id space its context implies.
#[derive(Debug, Clone, Copy, PartialEq, Eq, Hash, Structural)]
pub struct SenderId(pub IdType);

/// A message-type id, in whichever id space its context implies.
#[derive(Debug, Clone, Copy, PartialEq, Eq, Hash, Structural)]
pub struct TypeId(pub IdType);

/// An id assigned by this endpoint.
#[derive(Debug, Clone, Copy, PartialEq, Eq, Hash, Structural)]
pub struct LocalId(pub IdType);

/// An id assigned by the peer and learned from a description message.
#[derive(Debug, Clone, Copy, PartialEq, Eq, Hash, Structural)]
pub struct RemoteId(pub IdType);

/// Per-endpoint counter attached to every outbound message; diagnostic only.
#[derive(Debug, Clone, Copy, PartialEq, Eq, Hash, Structural)]
pub struct SequenceNumber(pub u32);

impl SequenceNumber {
    pub fn get(&self) -> (r: u32)
        ensures
            r == self.0,
    {
        self.0
    }

    pub fn new(v: u32) -> (r: SequenceNumber)
        ensures
            r == SequenceNumber(v),
    {
        SequenceNumber(v)
    }
}

impl SenderId {
    pub fn get(&self) -> (r: IdType)
        ensures
            r == self.0,
    {
        self.0
    }

    pub fn new(v: IdType) -> (r: SenderId)
        ensures
            r == SenderId(v),
    {
        SenderId(v)
    }
}

impl TypeId {
    pub fn get(&self) -> (r: IdType)
        ensures
            r == self.0,
    {
        self.0
    }

    pub fn new(v: IdType) -> (r: TypeId)
        ensures
            r == TypeId(v),
    {
        TypeId(v)
    }
}

/// A sender-clock timestamp: seconds and microseconds, both signed 32-bit.
#[derive(Debug, Clone, Copy, PartialEq, Eq, Hash, Structural)]
pub struct TimeVal {
    pub seconds: i32,
    pub microseconds: i32,
}

impl TimeVal {
    pub fn new(seconds: i32, microseconds: i32) -> (r: TimeVal)
        ensures
            r == (TimeVal { seconds, microseconds }),
    {
        TimeVal { seconds, microseconds }
    }

    /// Number of bytes this type always occupies on the wire.
    pub fn constant_buffer_size() -> (r: usize)
        ensures
            r == 8,
    {
        8
    }
}

impl SenderId {
    /// Number of bytes this type always occupies on the wire.
    pub fn constant_buffer_size() -> (r: usize)
        ensures
            r == 4,
    {
        4
    }
}

impl TypeId {
    /// Number of bytes this type always occupies on the wire.
    pub fn constant_buffer_size() -> (r: usize)
        ensures
            r == 4,
    {
        4
    }
}

impl SequenceNumber {
    /// Number of bytes this type always occupies on the wire.
    pub fn constant_buffer_size() -> (r: usize)
        ensures
            r == 4,
    {
        4
    }
}

/// The eight bytes of a timestamp: seconds then microseconds, big-endian.
pub open spec fn timeval_wire(t: TimeVal) -> Seq<u8> {
    i32_be_bytes(t.seconds) + i32_be_bytes(t.microseconds)
}

/// The timestamp encoded in an eight-byte sequence.
pub open spec fn be_bytes_timeval(s: Seq<u8>) -> TimeVal
    recommends
        s.len() == 8,
{
    TimeVal { seconds: be_bytes_i32(s.take(4)), microseconds: be_bytes_i32(s.skip(4).take(4)) }
}

pub proof fn lemma_timeval_roundtrip(t: TimeVal)
    ensures
        be_bytes_timeval(timeval_wire(t)) == t,
        timeval_wire(t).len() == 8,
{
    let w = timeval_wire(t);
    assert(w.take(4) =~= i32_be_bytes(t.seconds));
    assert(w.skip(4).take(4) =~= i32_be_bytes(t.microseconds));
    lemma_i32_be_roundtrip(t.seconds);
    lemma_i32_be_roundtrip(t.microseconds);
}

/// Append the eight big-endian bytes of `t` to the sink.
pub fn buffer_timeval(out: &mut Vec<u8>, t: &TimeVal)
    ensures
        final(out)@ == old(out)@ + timeval_wire(*t),
{
    buffer_i32(out, t.seconds);
    buffer_i32(out, t.microseconds);
    assert(out@ =~= old(out)@ + timeval_wire(*t));
}

/// Read a timestamp; on success the source is advanced past it.
pub fn unbuffer_timeval(buf: &mut bytes::Bytes) -> (r: Result<TimeVal, BufferUnbufferError>)
    ensures
        bytes_view(*old(buf)).len() >= 8 ==> r == Ok::<TimeVal, BufferUnbufferError>(
            be_bytes_timeval(bytes_view(*old(buf)).take(8)),
        ) && bytes_view(*final(buf)) == bytes_view(*old(buf)).skip(8),
        bytes_view(*old(buf)).len() < 8 ==> r == Err::<TimeVal, BufferUnbufferError>(
            BufferUnbufferError::NeedMoreData(
                BytesRequired::Exactly((8 - bytes_view(*old(buf)).len()) as usize),
            ),
        ) && bytes_view(*final(buf)) == bytes_view(*old(buf)),
{
    let ghost s = bytes_view(*old(buf));
    let n = bytes_len(buf);
    if n < 8 {
        return Err(BufferUnbufferError::NeedMoreData(BytesRequired::Exactly(8 - n)));
    }
    let seconds = match unbuffer_i32(buf) {
        Ok(v) => v,
        Err(e) => {
            return Err(e);
        },
    };
    let microseconds = match unbuffer_i32(buf) {
        Ok(v) => v,
        Err(e) => {
            return Err(e);
        },
    };
    proof {
        if s.len() >= 8 {
            assert(s.skip(4).take(4) =~= s.take(8).skip(4).take(4));
            assert(s.take(4) =~= s.take(8).take(4));
            assert(s.skip(4).skip(4) =~= s.skip(8));
        }
    }
    Ok(TimeVal { seconds, microseconds })
}

} // verus!
