//! The message frame: a length-prefixed header (timestamp, sender, type,
//! sequence number) followed by an opaque body, each padded to the 8-byte
//! alignment boundary.
//!
//! `message_wire` is the definition of the encoding; `frame_message` is the
//! definition of decoding. Buffering and unbuffering are verified against
//! them, and the round-trip, restartability and alignment lemmas at the end
//! relate the two.

use vstd::prelude::*;

use crate::bytes_buf::{bytes_advance, bytes_clone, bytes_len, bytes_view};
use crate::error::{BufferUnbufferError, BytesRequired, ParseKind};
use crate::primitives::{
    be_bytes_i32, be_bytes_u32, buffer_i32, buffer_u32, i32_be_bytes, lemma_i32_be_roundtrip,
    lemma_u32_be_roundtrip, u32_be_bytes, unbuffer_i32, unbuffer_u32,
};
use crate::size::{
    clamp_to_usize, compute_padding, spec_padded, spec_padding, MessageSize, UNPADDED_HEADER_SIZE,
    WIRE_HEADER_SIZE,
};
use crate::types::{
    be_bytes_timeval, buffer_timeval, lemma_timeval_roundtrip, timeval_wire, unbuffer_timeval,
    IdType, SenderId, SequenceNumber, TimeVal, TypeId,
};

verus! {

/// A message body kept as raw bytes: the payload of a message whose type
/// this endpoint does not interpret.
#[derive(Debug, Clone, PartialEq, Eq)]
pub struct GenericBody {
    pub body_bytes: Vec<u8>,
}

impl GenericBody {
    pub fn new(body_bytes: Vec<u8>) -> (r: GenericBody)
        ensures
            r.body_bytes@ == body_bytes@,
    {
        GenericBody { body_bytes }
    }
}

/// A message: header fields plus a body of type `U`.
#[derive(Debug, Clone, PartialEq, Eq)]
pub struct Message<U> {
    pub time: TimeVal,
    pub message_type: TypeId,
    pub sender: SenderId,
    pub data: U,
    pub sequence_number: Option<SequenceNumber>,
}

/// A message whose body is uninterpreted bytes.
pub type GenericMessage = Message<GenericBody>;

impl<U> Message<U> {
    pub fn new(
        time: TimeVal,
        message_type: TypeId,
        sender: SenderId,
        data: U,
        sequence_number: Option<SequenceNumber>,
    ) -> (r: Message<U>)
        ensures
            r.time == time,
            r.message_type == message_type,
            r.sender == sender,
            r.data == data,
            r.sequence_number == sequence_number,
    {
        Message { time, message_type, sender, data, sequence_number }
    }
}

impl Message<GenericBody> {
    /// The number of bytes `buffer_message` writes for this message: the
    /// wire header plus the padded body.
    pub fn buffer_size(&self) -> (r: usize)
        requires
            self.data.body_bytes@.len() + 7 + WIRE_HEADER_SIZE <= usize::MAX,
        ensures
            r == WIRE_HEADER_SIZE + spec_padded(self.data.body_bytes@.len()),
    {
        MessageSize::from_unpadded_body_size(self.data.body_bytes.len()).padded_message_size()
    }
}

/// The mathematical content of a generic message. A message without a
/// sequence number is viewed with sequence 0, which is what the encoder
/// puts on the wire for it.
pub ghost struct MessageView {
    pub time: TimeVal,
    pub sender: IdType,
    pub message_type: IdType,
    pub sequence: u32,
    pub body: Seq<u8>,
}

impl View for Message<GenericBody> {
    type V = MessageView;

    open spec fn view(&self) -> MessageView {
        MessageView {
            time: self.time,
            sender: self.sender.0,
            message_type: self.message_type.0,
            sequence: match self.sequence_number {
                Some(s) => s.0,
                None => 0,
            },
            body: self.data.body_bytes@,
        }
    }
}

/// `n` zero bytes.
pub open spec fn zero_bytes(n: nat) -> Seq<u8> {
    Seq::new(n, |i: int| 0u8)
}

/// The wire encoding of a message: length field, timestamp, sender, type,
/// sequence number, body, zero padding to the alignment boundary. The
/// header's 24 bytes are already aligned, so only the body is padded.
pub open spec fn message_wire(m: MessageView) -> Seq<u8>
    recommends
        m.body.len() + UNPADDED_HEADER_SIZE <= u32::MAX,
{
    u32_be_bytes((m.body.len() + UNPADDED_HEADER_SIZE) as u32) + i32_be_bytes(m.time.seconds)
        + i32_be_bytes(m.time.microseconds) + i32_be_bytes(m.sender) + i32_be_bytes(
        m.message_type,
    ) + u32_be_bytes(m.sequence) + m.body + zero_bytes(spec_padding(m.body.len()))
}

/// The length field at the head of a frame.
pub open spec fn frame_length_field(s: Seq<u8>) -> u32
    recommends
        s.len() >= 4,
{
    be_bytes_u32(s.take(4))
}

/// The body length promised by the length field.
pub open spec fn frame_body_len(s: Seq<u8>) -> nat
    recommends
        s.len() >= 4,
        frame_length_field(s) >= UNPADDED_HEADER_SIZE,
{
    (frame_length_field(s) - UNPADDED_HEADER_SIZE) as nat
}

/// The total padded size of the frame promised by the length field.
pub open spec fn frame_total_len(s: Seq<u8>) -> nat
    recommends
        s.len() >= 4,
        frame_length_field(s) >= UNPADDED_HEADER_SIZE,
{
    (WIRE_HEADER_SIZE + spec_padded(frame_body_len(s))) as nat
}

/// Whether `s` begins with a complete frame: the length field is present
/// and valid, and the whole padded frame is available.
pub open spec fn frame_complete(s: Seq<u8>) -> bool {
    &&& s.len() >= 4
    &&& frame_length_field(s) >= UNPADDED_HEADER_SIZE
    &&& s.len() >= frame_total_len(s)
}

/// The message encoded in the frame at the head of `s`.
pub open spec fn frame_message(s: Seq<u8>) -> MessageView
    recommends
        frame_complete(s),
{
    MessageView {
        time: be_bytes_timeval(s.subrange(4, 12)),
        sender: be_bytes_i32(s.subrange(12, 16)),
        message_type: be_bytes_i32(s.subrange(16, 20)),
        sequence: be_bytes_u32(s.subrange(20, 24)),
        body: s.subrange(24, 24 + frame_body_len(s) as int),
    }
}

/// Append every byte of `v` to the sink.
pub fn buffer_bytes(out: &mut Vec<u8>, v: &Vec<u8>)
    ensures
        final(out)@ == old(out)@ + v@,
{
    let mut i: usize = 0;
    while i < v.len()
        invariant
            i <= v@.len(),
            out@ == old(out)@ + v@.take(i as int),
        decreases v@.len() - i,
    {
        out.push(v[i]);
        proof {
            assert(out@ =~= old(out)@ + v@.take(i + 1));
        }
        i = i + 1;
    }
    proof {
        assert(v@.take(v@.len() as int) =~= v@);
    }
}

/// Append `pad` zero bytes to the sink.
pub fn buffer_zero_padding(out: &mut Vec<u8>, pad: usize)
    ensures
        final(out)@ == old(out)@ + zero_bytes(pad as nat),
{
    let mut i: usize = 0;
    while i < pad
        invariant
            i <= pad,
            out@ == old(out)@ + zero_bytes(i as nat),
        decreases pad - i,
    {
        out.push(0u8);
        proof {
            assert(out@ =~= old(out)@ + zero_bytes((i + 1) as nat));
        }
        i = i + 1;
    }
}

/// Read exactly `n` bytes into a fresh vector; on success the source is
/// advanced past them.
pub fn unbuffer_bytes(buf: &mut bytes::Bytes, n: usize) -> (r: Result<
    Vec<u8>,
    BufferUnbufferError,
>)
    ensures
        bytes_view(*old(buf)).len() >= n ==> (r matches Ok(v) && v@ == bytes_view(
            *old(buf),
        ).take(n as int) && bytes_view(*final(buf)) == bytes_view(*old(buf)).skip(n as int)),
        bytes_view(*old(buf)).len() < n ==> r == Err::<Vec<u8>, BufferUnbufferError>(
            BufferUnbufferError::NeedMoreData(
                BytesRequired::Exactly((n - bytes_view(*old(buf)).len()) as usize),
            ),
        ) && bytes_view(*final(buf)) == bytes_view(*old(buf)),
{
    let ghost s = bytes_view(*old(buf));
    let m = bytes_len(buf);
    if m < n {
        return Err(BufferUnbufferError::NeedMoreData(BytesRequired::Exactly(n - m)));
    }
    let mut v: Vec<u8> = Vec::new();
    let mut i: usize = 0;
    while i < n
        invariant
            i <= n,
            n <= s.len(),
            v@ == s.take(i as int),
            bytes_view(*buf) == s.skip(i as int),
        decreases n - i,
    {
        let b = crate::bytes_buf::bytes_get_u8(buf);
        v.push(b);
        proof {
            assert(s.skip(i as int)[0] == s[i as int]);
            assert(s.skip(i as int).skip(1) =~= s.skip(i + 1));
            assert(v@ =~= s.take(i + 1));
        }
        i = i + 1;
    }
    Ok(v)
}

/// Serialize a message to the sink, padding the body to the alignment
/// boundary. The sink grows as needed, so this cannot run out of space.
pub fn buffer_message(msg: &GenericMessage, out: &mut Vec<u8>)
    requires
        msg.data.body_bytes@.len() + UNPADDED_HEADER_SIZE <= u32::MAX,
    ensures
        final(out)@ == old(out)@ + message_wire(msg@),
{
    let body_len = msg.data.body_bytes.len();
    let size = MessageSize::from_unpadded_body_size(body_len);
    let unpadded_len = size.unpadded_message_size();
    buffer_u32(out, unpadded_len as u32);
    buffer_timeval(out, &msg.time);
    buffer_i32(out, msg.sender.0);
    buffer_i32(out, msg.message_type.0);
    let seq: u32 = match msg.sequence_number {
        Some(s) => s.0,
        None => 0,
    };
    buffer_u32(out, seq);
    buffer_bytes(out, &msg.data.body_bytes);
    let pad = compute_padding(body_len);
    buffer_zero_padding(out, pad);
    proof {
        assert(out@ =~= old(out)@ + message_wire(msg@));
    }
}

/// Deserialize one frame from the head of the source.
///
/// The length field is peeked without consuming, so that a short buffer
/// leaves the cursor untouched and the parse can be retried at the same
/// position once more bytes arrive; the shortage is reported as `AtLeast`
/// because the frame is variable-size. A length field smaller than the
/// header size is a `ParseError` carrying the bad value. The cursor is
/// advanced (over the whole padded frame) only on success.
pub fn unbuffer_message(buf: &mut bytes::Bytes) -> (r: Result<GenericMessage, BufferUnbufferError>)
    ensures
        ({
            let s = bytes_view(*old(buf));
            frame_complete(s) ==> (r matches Ok(m) && m@ == frame_message(s)
                && m.sequence_number is Some && bytes_view(*final(buf)) == s.skip(
                frame_total_len(s) as int,
            ))
        }),
        ({
            let s = bytes_view(*old(buf));
            (s.len() >= 4 && frame_length_field(s) >= UNPADDED_HEADER_SIZE && s.len()
                < frame_total_len(s)) ==> r == Err::<GenericMessage, BufferUnbufferError>(
                BufferUnbufferError::NeedMoreData(
                    BytesRequired::AtLeast(clamp_to_usize(frame_total_len(s) - s.len())),
                ),
            ) && bytes_view(*final(buf)) == s
        }),
        ({
            let s = bytes_view(*old(buf));
            s.len() < 4 ==> r == Err::<GenericMessage, BufferUnbufferError>(
                BufferUnbufferError::NeedMoreData(
                    BytesRequired::AtLeast((4 - s.len()) as usize),
                ),
            ) && bytes_view(*final(buf)) == s
        }),
        ({
            let s = bytes_view(*old(buf));
            (s.len() >= 4 && frame_length_field(s) < UNPADDED_HEADER_SIZE) ==> r == Err::<
                GenericMessage,
                BufferUnbufferError,
            >(
                BufferUnbufferError::ParseError {
                    parsing_kind: ParseKind::LengthField,
                    detail: frame_length_field(s) as usize,
                },
            ) && bytes_view(*final(buf)) == s
        }),
{
    let ghost s = bytes_view(*old(buf));
    let n = bytes_len(buf);
    // Peek the length field from a second handle so the cursor stays put.
    let mut peek = bytes_clone(buf);
    let length_field = match unbuffer_u32(&mut peek) {
        Ok(v) => v,
        Err(e) => {
            return Err(e.expand_size_requirement());
        },
    };
    if length_field < UNPADDED_HEADER_SIZE as u32 {
        return Err(
            BufferUnbufferError::ParseError {
                parsing_kind: ParseKind::LengthField,
                detail: length_field as usize,
            },
        );
    }
    // Frame sizes are computed in u64: a length field near u32::MAX
    // describes a frame bigger than a 32-bit usize can count.
    let body_len64: u64 = (length_field - UNPADDED_HEADER_SIZE as u32) as u64;
    let pad64: u64 = (8 - body_len64 % 8) % 8;
    let total64: u64 = WIRE_HEADER_SIZE as u64 + body_len64 + pad64;
    if (n as u64) < total64 {
        let missing64 = total64 - n as u64;
        let missing = if missing64 > usize::MAX as u64 {
            usize::MAX
        } else {
            missing64 as usize
        };
        return Err(BufferUnbufferError::NeedMoreData(BytesRequired::AtLeast(missing)));
    }
    let unpadded_len = length_field as usize;
    let _length = match unbuffer_u32(buf) {
        Ok(v) => v,
        Err(e) => {
            return Err(e);
        },
    };
    let time = match unbuffer_timeval(buf) {
        Ok(v) => v,
        Err(e) => {
            return Err(e);
        },
    };
    let sender = match unbuffer_i32(buf) {
        Ok(v) => v,
        Err(e) => {
            return Err(e);
        },
    };
    let message_type = match unbuffer_i32(buf) {
        Ok(v) => v,
        Err(e) => {
            return Err(e);
        },
    };
    let sequence = match unbuffer_u32(buf) {
        Ok(v) => v,
        Err(e) => {
            return Err(e);
        },
    };
    let body_len = unpadded_len - UNPADDED_HEADER_SIZE;
    let body = match unbuffer_bytes(buf, body_len) {
        Ok(v) => v,
        Err(e) => {
            return Err(e);
        },
    };
    let pad = compute_padding(body_len);
    bytes_advance(buf, pad);
    proof {
        let bl = body_len as int;
        assert(s.skip(4).take(8) =~= s.subrange(4, 12));
        assert(s.skip(4).skip(8) =~= s.skip(12));
        assert(s.skip(12).take(4) =~= s.subrange(12, 16));
        assert(s.skip(12).skip(4) =~= s.skip(16));
        assert(s.skip(16).take(4) =~= s.subrange(16, 20));
        assert(s.skip(16).skip(4) =~= s.skip(20));
        assert(s.skip(20).take(4) =~= s.subrange(20, 24));
        assert(s.skip(20).skip(4) =~= s.skip(24));
        assert(s.skip(24).take(bl) =~= s.subrange(24, 24 + bl));
        assert(s.skip(24).skip(bl) =~= s.skip(24 + bl));
        assert(s.skip(24 + bl).skip(pad as int) =~= s.skip(frame_total_len(s) as int));
    }
    Ok(
        Message {
            time,
            message_type: TypeId(message_type),
            sender: SenderId(sender),
            data: GenericBody { body_bytes: body },
            sequence_number: Some(SequenceNumber(sequence)),
        },
    )
}

/// Round trip: a frame encoded by `message_wire`, possibly followed by
/// further bytes, decodes as a complete frame to the very message that was
/// encoded, consuming exactly the encoded bytes.
pub proof fn lemma_message_wire_parses(m: MessageView, rest: Seq<u8>)
    requires
        m.body.len() + UNPADDED_HEADER_SIZE <= u32::MAX,
    ensures
        frame_complete(message_wire(m) + rest),
        frame_message(message_wire(m) + rest) == m,
        frame_total_len(message_wire(m) + rest) == message_wire(m).len(),
{
    let w = message_wire(m) + rest;
    let bl = m.body.len() as int;
    let lf = (m.body.len() + UNPADDED_HEADER_SIZE) as u32;
    assert(message_wire(m).len() == 24 + bl + spec_padding(m.body.len()));
    assert(w.take(4) =~= u32_be_bytes(lf));
    lemma_u32_be_roundtrip(lf);
    assert(frame_length_field(w) == lf);
    assert(frame_body_len(w) == m.body.len());
    assert(frame_total_len(w) == message_wire(m).len());
    assert(w.subrange(4, 12) =~= timeval_wire(m.time));
    lemma_timeval_roundtrip(m.time);
    assert(w.subrange(12, 16) =~= i32_be_bytes(m.sender));
    lemma_i32_be_roundtrip(m.sender);
    assert(w.subrange(16, 20) =~= i32_be_bytes(m.message_type));
    lemma_i32_be_roundtrip(m.message_type);
    assert(w.subrange(20, 24) =~= u32_be_bytes(m.sequence));
    lemma_u32_be_roundtrip(m.sequence);
    assert(w.subrange(24, 24 + bl) =~= m.body);
}

/// Restartability: any strict prefix of an encoded frame is not complete,
/// still shows a valid length field once four bytes are present (so decode
/// reports a byte shortage, never a parse error), and extending it with the
/// missing bytes restores the original frame. With four or more bytes the
/// reported shortage is exactly the padded size minus the prefix; below
/// four the length field itself is unreadable and decode asks for at least
/// the rest of it, a sound lower bound on the true shortage.
pub proof fn lemma_message_wire_restartable(m: MessageView, cut: int)
    requires
        m.body.len() + UNPADDED_HEADER_SIZE <= u32::MAX,
        0 <= cut < message_wire(m).len(),
    ensures
        !frame_complete(message_wire(m).take(cut)),
        cut >= 4 ==> frame_length_field(message_wire(m).take(cut)) >= UNPADDED_HEADER_SIZE
            && frame_total_len(message_wire(m).take(cut)) == message_wire(m).len(),
        message_wire(m).take(cut) + message_wire(m).skip(cut) == message_wire(m),
{
    let w = message_wire(m);
    let p = w.take(cut);
    lemma_message_wire_parses(m, Seq::<u8>::empty());
    assert(w + Seq::<u8>::empty() =~= w);
    if cut >= 4 {
        assert(p.take(4) =~= w.take(4));
        assert(frame_length_field(p) == frame_length_field(w));
        assert(frame_total_len(p) == w.len());
    }
    assert(p + w.skip(cut) =~= w);
}

/// Alignment: encoding writes exactly the padded message size — the wire
/// header plus the body rounded up to the boundary — and that is a multiple
/// of eight, so a sink that has written whole frames has a write count that
/// is a multiple of eight.
pub proof fn lemma_message_wire_aligned(m: MessageView)
    requires
        m.body.len() + UNPADDED_HEADER_SIZE <= u32::MAX,
    ensures
        message_wire(m).len() == WIRE_HEADER_SIZE + spec_padded(m.body.len()),
        message_wire(m).len() % 8 == 0,
{
    crate::size::lemma_padded_is_aligned(m.body.len());
    assert(message_wire(m).len() == 24 + spec_padded(m.body.len()));
}

} // verus!
