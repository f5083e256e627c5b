//! Description message bodies: a length-prefixed, NUL-terminated name.
//! The peer sends one such message per sender and per type it defines;
//! the id being described travels in the header's sender field (the type
//! field already carries the negative system-message id).

use vstd::prelude::*;

use crate::error::{BufferUnbufferError, ParseKind};
use crate::message::{GenericBody, GenericMessage, Message};
use crate::primitives::{be_bytes_u32, buffer_u32, lemma_u32_be_roundtrip, u32_be_bytes};
use crate::types::{LocalId, SenderId, SequenceNumber, TimeVal, TypeId};

verus! {

/// The name carried by a sender or type description message.
#[derive(Debug, Clone, PartialEq, Eq)]
pub struct InnerDescription {
    pub name: Vec<u8>,
}

impl InnerDescription {
    pub fn new(name: Vec<u8>) -> (r: InnerDescription)
        ensures
            r.name@ == name@,
    {
        InnerDescription { name }
    }

    /// Number of bytes required to serialize this value: the length field,
    /// the name, and the trailing NUL.
    pub fn buffer_size(&self) -> (r: usize)
        requires
            self.name@.len() + 5 <= usize::MAX,
        ensures
            r == self.name@.len() + 5,
    {
        self.name.len() + 5
    }
}

/// The wire form of a description body: a u32 length counting the name
/// plus its trailing NUL, then the name, then the NUL.
pub open spec fn description_body_wire(name: Seq<u8>) -> Seq<u8>
    recommends
        name.len() + 1 <= u32::MAX,
{
    u32_be_bytes((name.len() + 1) as u32) + name + seq![0u8]
}

/// Whether `s` is exactly one well-formed description body: the length
/// field accounts for every remaining byte and the body ends in NUL.
pub open spec fn description_body_ok(s: Seq<u8>) -> bool {
    &&& s.len() >= 5
    &&& be_bytes_u32(s.take(4)) as int == s.len() - 4
    &&& s[s.len() - 1] == 0
}

/// The name carried by a well-formed description body.
pub open spec fn description_name_of(s: Seq<u8>) -> Seq<u8>
    recommends
        description_body_ok(s),
{
    s.subrange(4, s.len() - 1)
}

/// Serialize a description body to the sink.
pub fn buffer_description_body(d: &InnerDescription, out: &mut Vec<u8>)
    requires
        d.name@.len() + 5 <= usize::MAX,
        d.name@.len() + 1 <= u32::MAX,
    ensures
        final(out)@ == old(out)@ + description_body_wire(d.name@),
{
    buffer_u32(out, (d.name.len() + 1) as u32);
    crate::message::buffer_bytes(out, &d.name);
    out.push(0u8);
    proof {
        assert(out@ =~= old(out)@ + description_body_wire(d.name@));
    }
}

/// Parse the body of a description message. The whole body must be one
/// well-formed description: anything else is a parse error whose `detail`
/// is the body length.
pub fn parse_description_body(body: &Vec<u8>) -> (r: Result<Vec<u8>, BufferUnbufferError>)
    ensures
        description_body_ok(body@) ==> (r matches Ok(name) && name@ == description_name_of(body@)),
        !description_body_ok(body@) ==> r == Err::<Vec<u8>, BufferUnbufferError>(
            (BufferUnbufferError::ParseError {
                parsing_kind: ParseKind::MessageBody,
                detail: body@.len() as usize,
            }),
        ),
{
    let n = body.len();
    if n < 5 {
        return Err(
            BufferUnbufferError::ParseError { parsing_kind: ParseKind::MessageBody, detail: n },
        );
    }
    let b0 = body[0];
    let b1 = body[1];
    let b2 = body[2];
    let b3 = body[3];
    let length_field: u32 = ((b0 as u32) << 24) | ((b1 as u32) << 16) | ((b2 as u32) << 8) | (
    b3 as u32);
    proof {
        assert(body@.take(4)[0] == body@[0] && body@.take(4)[1] == body@[1] && body@.take(4)[2]
            == body@[2] && body@.take(4)[3] == body@[3]);
    }
    if !(n as u64 - 4 == length_field as u64) {
        return Err(
            BufferUnbufferError::ParseError { parsing_kind: ParseKind::MessageBody, detail: n },
        );
    }
    if body[n - 1] != 0 {
        return Err(
            BufferUnbufferError::ParseError { parsing_kind: ParseKind::MessageBody, detail: n },
        );
    }
    let mut name: Vec<u8> = Vec::new();
    let mut i: usize = 4;
    while i < n - 1
        invariant
            4 <= i <= n - 1,
            n == body@.len(),
            name@ == body@.subrange(4, i as int),
        decreases n - 1 - i,
    {
        name.push(body[i]);
        proof {
            assert(name@ =~= body@.subrange(4, i + 1));
        }
        i = i + 1;
    }
    Ok(name)
}

/// Round trip: an encoded description body parses back to the name that
/// was written.
pub proof fn lemma_description_body_parses(name: Seq<u8>)
    requires
        name.len() + 1 <= u32::MAX,
    ensures
        description_body_ok(description_body_wire(name)),
        description_name_of(description_body_wire(name)) == name,
{
    let w = description_body_wire(name);
    assert(w.len() == name.len() + 5);
    assert(w.take(4) =~= u32_be_bytes((name.len() + 1) as u32));
    lemma_u32_be_roundtrip((name.len() + 1) as u32);
    assert(w[w.len() - 1] == 0);
    assert(w.subrange(4, w.len() - 1) =~= name);
}

/// Build the system message describing one sender: the described id rides
/// in the sender field, the body is the length-prefixed name.
pub fn make_sender_description(id: LocalId, name: &InnerDescription, time: TimeVal) -> (r:
    GenericMessage)
    requires
        name.name@.len() + 5 <= usize::MAX,
        name.name@.len() + 1 <= u32::MAX,
    ensures
        r.time == time,
        r.message_type == TypeId(crate::types::SENDER_DESCRIPTION),
        r.sender == SenderId(id.0),
        r.data.body_bytes@ == description_body_wire(name.name@),
        r.sequence_number == None::<SequenceNumber>,
{
    let mut body: Vec<u8> = Vec::new();
    buffer_description_body(name, &mut body);
    Message {
        time,
        message_type: TypeId(crate::types::SENDER_DESCRIPTION),
        sender: SenderId(id.0),
        data: GenericBody { body_bytes: body },
        sequence_number: None,
    }
}

/// Build the system message describing one message type: the described id
/// rides in the sender field, the body is the length-prefixed name.
pub fn make_type_description(id: LocalId, name: &InnerDescription, time: TimeVal) -> (r:
    GenericMessage)
    requires
        name.name@.len() + 5 <= usize::MAX,
        name.name@.len() + 1 <= u32::MAX,
    ensures
        r.time == time,
        r.message_type == TypeId(crate::types::TYPE_DESCRIPTION),
        r.sender == SenderId(id.0),
        r.data.body_bytes@ == description_body_wire(name.name@),
        r.sequence_number == None::<SequenceNumber>,
{
    let mut body: Vec<u8> = Vec::new();
    buffer_description_body(name, &mut body);
    Message {
        time,
        message_type: TypeId(crate::types::TYPE_DESCRIPTION),
        sender: SenderId(id.0),
        data: GenericBody { body_bytes: body },
        sequence_number: None,
    }
}

} // verus!
