//! The endpoint state machine: connection lifecycle, classification of
//! incoming frames into system and user messages, translation of user
//! messages into local ids, and stamping of outbound sequence numbers.
//!
//! The endpoint owns no I/O. Its owner pulls frames off the stream, hands
//! each to `handle_message`, and performs the returned action (send a
//! pong, deliver to the dispatcher, close); outbound messages are stamped
//! by `pack_message` and serialized by the framing layer.

use vstd::prelude::*;

use crate::descriptions::{
    description_body_ok, description_body_wire, description_name_of, make_sender_description,
    make_type_description, parse_description_body, InnerDescription,
};
use crate::error::{BufferUnbufferError, ParseKind};
use crate::message::{GenericBody, GenericMessage, Message};
use crate::translation::{
    spec_record_full, spec_recorded, spec_remote_conflict, TranslationError, TranslationTable,
};
use crate::types::{
    IdType, LocalId, RemoteId, SenderId, SequenceNumber, TimeVal, TypeId, DISCONNECT_MESSAGE,
    PING_MESSAGE, PONG_MESSAGE, SENDER_DESCRIPTION, TYPE_DESCRIPTION,
};

verus! {

/// Where the endpoint stands in its life. Transitions only move forward.
#[derive(Debug, Clone, Copy, PartialEq, Eq, Structural)]
pub enum EndpointState {
    /// The transport is being set up.
    Connecting,
    /// Our cookie has been written.
    CookieSent,
    /// The peer's cookie has been read and checked.
    CookieVerified,
    /// Messages flow.
    Open,
    /// Draining; inbound data is discarded.
    Closing,
    /// Done.
    Closed,
}

/// How far along a state is; transitions strictly increase it.
pub open spec fn state_rank(s: EndpointState) -> int {
    match s {
        EndpointState::Connecting => 0,
        EndpointState::CookieSent => 1,
        EndpointState::CookieVerified => 2,
        EndpointState::Open => 3,
        EndpointState::Closing => 4,
        EndpointState::Closed => 5,
    }
}

/// What the endpoint's owner must do after one incoming message.
#[derive(Debug, Clone, PartialEq, Eq)]
pub enum EndpointAction {
    /// Nothing: the message was fully handled (or discarded while
    /// closing).
    NoOp,
    /// Answer a ping: send a pong bearing the same sender.
    SendPong { sender: SenderId },
    /// A pong arrived: clear the ping state for this sender.
    PongReceived { sender: SenderId },
    /// A user message, translated to local ids: feed it to the
    /// dispatcher.
    Deliver { message: GenericMessage },
    /// A user message bore ids the peer never described: diagnostic, the
    /// message is dropped.
    DropUnknownRemoteId { message_type: IdType, sender: IdType },
    /// A description could not be recorded: diagnostic, the message is
    /// dropped.
    DropTranslation { error: TranslationError },
    /// The peer asked to disconnect: drain and close.
    CloseConnection,
}

/// One peer connection's protocol state: lifecycle, the translation
/// tables for what the peer has described, and the outbound sequence
/// counter.
#[derive(Debug, Clone, PartialEq, Eq)]
pub struct Endpoint {
    pub state: EndpointState,
    /// The peer's senders: remote id and name, with our local id.
    pub senders_in: TranslationTable,
    /// The peer's message types: remote id and name, with our local id.
    pub types_in: TranslationTable,
    /// Our senders, to be advertised to the peer.
    pub senders_out: TranslationTable,
    /// Our message types, to be advertised to the peer.
    pub types_out: TranslationTable,
    /// Stamped onto the next outbound message, then incremented (it may
    /// wrap).
    pub next_sequence: u32,
}

/// Every name in the table fits a description body: its length leaves room
/// for the length field and the trailing NUL.
pub open spec fn names_fit(t: TranslationTable) -> bool {
    forall|i: int|
        0 <= i < t.entries@.len() ==> (#[trigger] t.entries@[i].name@.len()) + 5 <= usize::MAX
            && t.entries@[i].name@.len() + 1 <= u32::MAX
}



/// What handling one description message does to the affected table: a
/// malformed body is a fatal parse error and changes nothing; otherwise
/// the outcome is exactly that of recording `(name, remote)` — success
/// binds the name (`spec_recorded`) and is owed whenever no conflict and
/// no capacity failure stands in the way; a failure drops the message with
/// the reason and changes nothing.
pub open spec fn description_outcome(
    pre_t: TranslationTable,
    post_t: TranslationTable,
    body: Seq<u8>,
    remote: IdType,
    r: Result<EndpointAction, BufferUnbufferError>,
) -> bool {
    if !description_body_ok(body) {
        &&& r == Err::<EndpointAction, BufferUnbufferError>(
            (BufferUnbufferError::ParseError {
                parsing_kind: ParseKind::MessageBody,
                detail: body.len() as usize,
            }),
        )
        &&& post_t == pre_t
    } else {
        let dname = description_name_of(body);
        &&& (r matches Ok(a) && (match a {
            EndpointAction::NoOp => (exists|l: IdType| spec_recorded(pre_t, post_t, dname, remote, l))
                && !spec_remote_conflict(pre_t, dname, remote),
            EndpointAction::DropTranslation { error } => post_t == pre_t && (match error {
                TranslationError::ReservedId => remote < 0,
                TranslationError::RemoteIdConflict => spec_remote_conflict(pre_t, dname, remote),
                TranslationError::TableFull => spec_record_full(pre_t, dname, remote),
            }),
            _ => false,
        }))
        &&& (remote >= 0 && !spec_remote_conflict(pre_t, dname, remote) && !spec_record_full(
            pre_t,
            dname,
            remote,
        )) ==> r == Ok::<EndpointAction, BufferUnbufferError>(EndpointAction::NoOp)
    }
}

/// Record one description message: parse the length-prefixed name from
/// `body` and bind it to the peer-assigned id `remote` in `table`. A
/// malformed body is a fatal parse error; a recording failure is reported
/// as the drop action carrying the reason.
fn record_description(table: &mut TranslationTable, body: &Vec<u8>, remote: IdType) -> (r: Result<
    EndpointAction,
    BufferUnbufferError,
>)
    requires
        old(table).well_formed(),
    ensures
        final(table).well_formed(),
        description_outcome(*old(table), *final(table), body@, remote, r),
{
    let name = match parse_description_body(body) {
        Ok(name) => name,
        Err(e) => {
            return Err(e);
        },
    };
    match table.record_remote_mapping(name.as_slice(), RemoteId(remote)) {
        Ok(l) => {
            proof {
                assert(spec_recorded(
                    *old(table),
                    *table,
                    description_name_of(body@),
                    remote,
                    l.0,
                ));
            }
            Ok(EndpointAction::NoOp)
        },
        Err(e) => Ok(EndpointAction::DropTranslation { error: e }),
    }
}

impl Endpoint {
    pub open spec fn well_formed(self) -> bool {
        &&& self.senders_in.well_formed()
        &&& self.types_in.well_formed()
        &&& self.senders_out.well_formed()
        &&& self.types_out.well_formed()
        &&& names_fit(self.senders_out)
        &&& names_fit(self.types_out)
    }

    pub fn new() -> (r: Endpoint)
        ensures
            r.well_formed(),
            r.state == EndpointState::Connecting,
            r.senders_in.entries@.len() == 0,
            r.types_in.entries@.len() == 0,
            r.senders_out.entries@.len() == 0,
            r.types_out.entries@.len() == 0,
            r.next_sequence == 0,
    {
        Endpoint {
            state: EndpointState::Connecting,
            senders_in: TranslationTable::new(),
            types_in: TranslationTable::new(),
            senders_out: TranslationTable::new(),
            types_out: TranslationTable::new(),
            next_sequence: 0,
        }
    }

    /// Register one of our sender names, to be advertised to the peer;
    /// idempotent by name.
    pub fn register_local_sender(&mut self, name: &[u8]) -> (r: Result<
        LocalId,
        TranslationError,
    >)
        requires
            old(self).well_formed(),
            name@.len() + 5 <= usize::MAX,
            name@.len() + 1 <= u32::MAX,
        ensures
            final(self).well_formed(),
            final(self).state == old(self).state,
            final(self).senders_in == old(self).senders_in,
            final(self).types_in == old(self).types_in,
            final(self).types_out == old(self).types_out,
            final(self).next_sequence == old(self).next_sequence,
            ({
                let pre = old(self).senders_out;
                let post = final(self).senders_out;
                &&& pre.spec_contains_name(name@) ==> (r matches Ok(l) && post == pre && 0 <= l.0
                    < pre.entries@.len() && pre.entries@[l.0 as int].name@ == name@)
                &&& (!pre.spec_contains_name(name@) && pre.entries@.len() < i32::MAX) ==> (
                r matches Ok(l) && l.0 == pre.entries@.len() && post.entries@.len()
                    == pre.entries@.len() + 1 && post.entries@.last().name@ == name@
                    && post.entries@.last().remote_id is None && forall|i: int|
                    0 <= i < pre.entries@.len() ==> post.entries@[i] == pre.entries@[i])
                &&& (!pre.spec_contains_name(name@) && pre.entries@.len() == i32::MAX) ==> r
                    == Err::<LocalId, TranslationError>(TranslationError::TableFull) && post == pre
            }),
    {
        self.senders_out.add_local_mapping(name)
    }

    /// Register one of our message-type names, to be advertised to the
    /// peer; idempotent by name.
    pub fn register_local_type(&mut self, name: &[u8]) -> (r: Result<LocalId, TranslationError>)
        requires
            old(self).well_formed(),
            name@.len() + 5 <= usize::MAX,
            name@.len() + 1 <= u32::MAX,
        ensures
            final(self).well_formed(),
            final(self).state == old(self).state,
            final(self).senders_in == old(self).senders_in,
            final(self).types_in == old(self).types_in,
            final(self).senders_out == old(self).senders_out,
            final(self).next_sequence == old(self).next_sequence,
            ({
                let pre = old(self).types_out;
                let post = final(self).types_out;
                &&& pre.spec_contains_name(name@) ==> (r matches Ok(l) && post == pre && 0 <= l.0
                    < pre.entries@.len() && pre.entries@[l.0 as int].name@ == name@)
                &&& (!pre.spec_contains_name(name@) && pre.entries@.len() < i32::MAX) ==> (
                r matches Ok(l) && l.0 == pre.entries@.len() && post.entries@.len()
                    == pre.entries@.len() + 1 && post.entries@.last().name@ == name@
                    && post.entries@.last().remote_id is None && forall|i: int|
                    0 <= i < pre.entries@.len() ==> post.entries@[i] == pre.entries@[i])
                &&& (!pre.spec_contains_name(name@) && pre.entries@.len() == i32::MAX) ==> r
                    == Err::<LocalId, TranslationError>(TranslationError::TableFull) && post == pre
            }),
    {
        self.types_out.add_local_mapping(name)
    }

    /// The description messages to send on entering `Open`: one per local
    /// sender, then one per local type, each carrying the described id in
    /// its sender field and the name in its body.
    pub fn describe_all(&self, time: TimeVal) -> (r: Vec<GenericMessage>)
        requires
            self.well_formed(),
        ensures
            r@.len() == self.senders_out.entries@.len() + self.types_out.entries@.len(),
            forall|i: int|
                0 <= i < self.senders_out.entries@.len() ==> (#[trigger] r@[i]).time == time
                    && r@[i].message_type == TypeId(SENDER_DESCRIPTION) && r@[i].sender == SenderId(
                    i as IdType,
                ) && r@[i].data.body_bytes@ == description_body_wire(
                    self.senders_out.entries@[i].name@,
                ),
            forall|i: int|
                0 <= i < self.types_out.entries@.len() ==> {
                    let m = #[trigger] r@[self.senders_out.entries@.len() + i];
                    m.time == time && m.message_type == TypeId(TYPE_DESCRIPTION) && m.sender
                        == SenderId(i as IdType) && m.data.body_bytes@ == description_body_wire(
                        self.types_out.entries@[i].name@,
                    )
                },
    {
        let mut out: Vec<GenericMessage> = Vec::new();
        let sender_count = self.senders_out.len();
        let mut i: usize = 0;
        while i < sender_count
            invariant
                self.well_formed(),
                sender_count == self.senders_out.entries@.len(),
                i <= sender_count,
                out@.len() == i,
                forall|j: int|
                    0 <= j < i ==> (#[trigger] out@[j]).time == time && out@[j].message_type
                        == TypeId(SENDER_DESCRIPTION) && out@[j].sender == SenderId(j as IdType)
                        && out@[j].data.body_bytes@ == description_body_wire(
                        self.senders_out.entries@[j].name@,
                    ),
            decreases sender_count - i,
        {
            let name = crate::unbuffer::slice_to_vec(self.senders_out.entries[i].name.as_slice());
            let desc = InnerDescription::new(name);
            out.push(make_sender_description(LocalId(i as IdType), &desc, time));
            i = i + 1;
        }
        let type_count = self.types_out.len();
        let mut k: usize = 0;
        while k < type_count
            invariant
                self.well_formed(),
                sender_count == self.senders_out.entries@.len(),
                type_count == self.types_out.entries@.len(),
                k <= type_count,
                out@.len() == sender_count + k,
                forall|j: int|
                    0 <= j < sender_count ==> (#[trigger] out@[j]).time == time
                        && out@[j].message_type == TypeId(SENDER_DESCRIPTION) && out@[j].sender
                        == SenderId(j as IdType) && out@[j].data.body_bytes@
                        == description_body_wire(self.senders_out.entries@[j].name@),
                forall|j: int|
                    0 <= j < k ==> {
                        let m = #[trigger] out@[sender_count + j];
                        m.time == time && m.message_type == TypeId(TYPE_DESCRIPTION) && m.sender
                            == SenderId(j as IdType) && m.data.body_bytes@
                            == description_body_wire(self.types_out.entries@[j].name@)
                    },
            decreases type_count - k,
        {
            let name = crate::unbuffer::slice_to_vec(self.types_out.entries[k].name.as_slice());
            let desc = InnerDescription::new(name);
            out.push(make_type_description(LocalId(k as IdType), &desc, time));
            k = k + 1;
        }
        out
    }

    /// Our cookie went out on the wire.
    pub fn mark_cookie_sent(&mut self)
        requires
            old(self).state == EndpointState::Connecting,
        ensures
            final(self).state == EndpointState::CookieSent,
            state_rank(final(self).state) > state_rank(old(self).state),
            final(self).senders_in == old(self).senders_in,
            final(self).types_in == old(self).types_in,
            final(self).senders_out == old(self).senders_out,
            final(self).types_out == old(self).types_out,
            final(self).next_sequence == old(self).next_sequence,
    {
        self.state = EndpointState::CookieSent;
    }

    /// The peer's cookie was read and its version checked.
    pub fn mark_cookie_verified(&mut self)
        requires
            old(self).state == EndpointState::CookieSent,
        ensures
            final(self).state == EndpointState::CookieVerified,
            state_rank(final(self).state) > state_rank(old(self).state),
            final(self).senders_in == old(self).senders_in,
            final(self).types_in == old(self).types_in,
            final(self).senders_out == old(self).senders_out,
            final(self).types_out == old(self).types_out,
            final(self).next_sequence == old(self).next_sequence,
    {
        self.state = EndpointState::CookieVerified;
    }

    /// Descriptions have been sent; messages may flow.
    pub fn mark_open(&mut self)
        requires
            old(self).state == EndpointState::CookieVerified,
        ensures
            final(self).state == EndpointState::Open,
            state_rank(final(self).state) > state_rank(old(self).state),
            final(self).senders_in == old(self).senders_in,
            final(self).types_in == old(self).types_in,
            final(self).senders_out == old(self).senders_out,
            final(self).types_out == old(self).types_out,
            final(self).next_sequence == old(self).next_sequence,
    {
        self.state = EndpointState::Open;
    }

    /// Begin shutdown: an I/O error, a disconnect message, or the owner's
    /// request forces this from any earlier state.
    pub fn begin_close(&mut self)
        requires
            old(self).state != EndpointState::Closing,
            old(self).state != EndpointState::Closed,
        ensures
            final(self).state == EndpointState::Closing,
            state_rank(final(self).state) > state_rank(old(self).state),
            final(self).senders_in == old(self).senders_in,
            final(self).types_in == old(self).types_in,
            final(self).senders_out == old(self).senders_out,
            final(self).types_out == old(self).types_out,
            final(self).next_sequence == old(self).next_sequence,
    {
        self.state = EndpointState::Closing;
    }

    /// The outbound buffer has drained (best effort): done.
    pub fn mark_closed(&mut self)
        requires
            old(self).state == EndpointState::Closing,
        ensures
            final(self).state == EndpointState::Closed,
            state_rank(final(self).state) > state_rank(old(self).state),
            final(self).senders_in == old(self).senders_in,
            final(self).types_in == old(self).types_in,
            final(self).senders_out == old(self).senders_out,
            final(self).types_out == old(self).types_out,
            final(self).next_sequence == old(self).next_sequence,
    {
        self.state = EndpointState::Closed;
    }

    /// Stamp an outbound message with the next sequence number. Sequence
    /// numbers are per-endpoint, increase by one per message, and wrap.
    pub fn pack_message(
        &mut self,
        time: TimeVal,
        message_type: TypeId,
        sender: SenderId,
        body: Vec<u8>,
    ) -> (r: GenericMessage)
        ensures
            r.time == time,
            r.message_type == message_type,
            r.sender == sender,
            r.data.body_bytes@ == body@,
            r.sequence_number == Some(SequenceNumber(old(self).next_sequence)),
            final(self).next_sequence == (if old(self).next_sequence == u32::MAX {
                0u32
            } else {
                (old(self).next_sequence + 1) as u32
            }),
            final(self).state == old(self).state,
            final(self).senders_in == old(self).senders_in,
            final(self).types_in == old(self).types_in,
            final(self).senders_out == old(self).senders_out,
            final(self).types_out == old(self).types_out,
    {
        let sequence = self.next_sequence;
        self.next_sequence = if self.next_sequence == u32::MAX {
            0
        } else {
            self.next_sequence + 1
        };
        Message {
            time,
            message_type,
            sender,
            data: GenericBody { body_bytes: body },
            sequence_number: Some(SequenceNumber(sequence)),
        }
    }

    /// Classify and handle one incoming message.
    ///
    /// System messages (negative type) are handled internally: sender and
    /// type descriptions update the incoming translation tables, a ping
    /// asks for a pong, a pong clears ping state, a disconnect begins
    /// shutdown, and anything else (including log descriptions) is
    /// ignored. User messages are translated remote-to-local; ids the
    /// peer never described are reported and the message dropped. While
    /// not open, inbound data is discarded. A malformed description body
    /// is a fatal parse error.
    pub fn handle_message(&mut self, msg: &GenericMessage) -> (r: Result<
        EndpointAction,
        BufferUnbufferError,
    >)
        requires
            old(self).well_formed(),
        ensures
            final(self).well_formed(),
            final(self).next_sequence == old(self).next_sequence,
            final(self).senders_out == old(self).senders_out,
            final(self).types_out == old(self).types_out,
            old(self).state != EndpointState::Open ==> r == Ok::<
                EndpointAction,
                BufferUnbufferError,
            >(EndpointAction::NoOp) && *final(self) == *old(self),
            ({
                let t = msg.message_type.0;
                let snd = msg.sender.0;
                let body = msg.data.body_bytes@;
                old(self).state == EndpointState::Open ==> {
                    &&& (t == SENDER_DESCRIPTION || t == TYPE_DESCRIPTION)
                        ==> ({
                        &&& final(self).state == old(self).state
                        &&& (t == SENDER_DESCRIPTION ==> final(self).types_in == old(
                            self,
                        ).types_in && description_outcome(
                            old(self).senders_in,
                            final(self).senders_in,
                            body,
                            snd,
                            r,
                        ))
                        &&& (t == TYPE_DESCRIPTION ==> final(self).senders_in == old(
                            self,
                        ).senders_in && description_outcome(
                            old(self).types_in,
                            final(self).types_in,
                            body,
                            snd,
                            r,
                        ))
                    })
                    &&& t == DISCONNECT_MESSAGE ==> r == Ok::<
                        EndpointAction,
                        BufferUnbufferError,
                    >(EndpointAction::CloseConnection) && final(self).state
                        == EndpointState::Closing && final(self).senders_in == old(
                        self,
                    ).senders_in && final(self).types_in == old(self).types_in
                    &&& t == PING_MESSAGE ==> r == Ok::<EndpointAction, BufferUnbufferError>(
                        (EndpointAction::SendPong { sender: msg.sender }),
                    ) && *final(self) == *old(self)
                    &&& t == PONG_MESSAGE ==> r == Ok::<EndpointAction, BufferUnbufferError>(
                        (EndpointAction::PongReceived { sender: msg.sender }),
                    ) && *final(self) == *old(self)
                    &&& (t < 0 && t != SENDER_DESCRIPTION && t != TYPE_DESCRIPTION && t
                        != DISCONNECT_MESSAGE && t != PING_MESSAGE && t != PONG_MESSAGE) ==> r
                        == Ok::<EndpointAction, BufferUnbufferError>(EndpointAction::NoOp)
                        && *final(self) == *old(self)
                    &&& t >= 0 ==> (*final(self) == *old(self) && (match (
                    old(self).types_in.spec_map_to_local(t),
                    old(self).senders_in.spec_map_to_local(snd),
                    ) {
                        (Some(lt), Some(ls)) => (r matches Ok(a) && (
                        a matches EndpointAction::Deliver { message } && message.time == msg.time
                            && message.message_type.0 == lt && message.sender.0 == ls
                            && message.data.body_bytes@ == body && message.sequence_number
                            == msg.sequence_number)),
                        _ => r == Ok::<EndpointAction, BufferUnbufferError>(
                            (EndpointAction::DropUnknownRemoteId { message_type: t, sender: snd }),
                        ),
                    }))
                }
            }),
    {
        match self.state {
            EndpointState::Open => {},
            _ => {
                return Ok(EndpointAction::NoOp);
            },
        }
        let t = msg.message_type.0;
        if t == SENDER_DESCRIPTION {
            record_description(&mut self.senders_in, &msg.data.body_bytes, msg.sender.0)
        } else if t == TYPE_DESCRIPTION {
            record_description(&mut self.types_in, &msg.data.body_bytes, msg.sender.0)
        } else if t == DISCONNECT_MESSAGE {
            self.state = EndpointState::Closing;
            Ok(EndpointAction::CloseConnection)
        } else if t == PING_MESSAGE {
            Ok(EndpointAction::SendPong { sender: msg.sender })
        } else if t == PONG_MESSAGE {
            Ok(EndpointAction::PongReceived { sender: msg.sender })
        } else if t < 0 {
            Ok(EndpointAction::NoOp)
        } else {
            let local_type = self.types_in.map_to_local(RemoteId(t));
            let local_sender = self.senders_in.map_to_local(RemoteId(msg.sender.0));
            match (local_type, local_sender) {
                (Some(lt), Some(ls)) => Ok(
                    EndpointAction::Deliver {
                        message: Message {
                            time: msg.time,
                            message_type: TypeId(lt.0),
                            sender: SenderId(ls.0),
                            data: GenericBody { body_bytes: msg.data.body_bytes.clone() },
                            sequence_number: msg.sequence_number,
                        },
                    },
                ),
                _ => Ok(
                    EndpointAction::DropUnknownRemoteId { message_type: t, sender: msg.sender.0 },
                ),
            }
        }
    }
}

} // verus!
