use bytes::Bytes;
use vrpn::descriptions::{buffer_description_body, parse_description_body, InnerDescription};
use vrpn::dispatcher::{HandlerError, HandlerHandle, TypeDispatcher};
use vrpn::endpoint::{Endpoint, EndpointAction, EndpointState};
use vrpn::message::{buffer_message, unbuffer_message, GenericBody, Message};
use vrpn::ping::Client;
use vrpn::translation::{TranslationError, TranslationTable};
use vrpn::types::{
    LocalId, RemoteId, SenderId, SequenceNumber, TimeVal, TypeId, DISCONNECT_MESSAGE,
    PING_MESSAGE, PONG_MESSAGE, SENDER_DESCRIPTION,
};

fn description_message(message_type: i32, remote_id: i32, name: &[u8]) -> Message<GenericBody> {
    let mut body = Vec::new();
    buffer_description_body(&InnerDescription::new(name.to_vec()), &mut body);
    Message {
        time: TimeVal { seconds: 0, microseconds: 0 },
        message_type: TypeId(message_type),
        sender: SenderId(remote_id),
        data: GenericBody { body_bytes: body },
        sequence_number: Some(SequenceNumber(0)),
    }
}

fn open_endpoint() -> Endpoint {
    let mut ep = Endpoint::new();
    assert_eq!(ep.state, EndpointState::Connecting);
    ep.mark_cookie_sent();
    ep.mark_cookie_verified();
    ep.mark_open();
    assert_eq!(ep.state, EndpointState::Open);
    ep
}

#[test]
fn description_body_roundtrip() {
    let mut body = Vec::new();
    buffer_description_body(&InnerDescription::new(b"TrackerA".to_vec()), &mut body);
    // u32 length (name + NUL), name, NUL.
    assert_eq!(&body[..4], &[0, 0, 0, 9]);
    assert_eq!(&body[4..12], b"TrackerA");
    assert_eq!(body[12], 0);
    let name = parse_description_body(&body).unwrap();
    assert_eq!(&name[..], b"TrackerA");
}

#[test]
fn translation_scenario() {
    // Register local sender "TrackerA": local id 0.
    let mut dispatcher = TypeDispatcher::new();
    let local = dispatcher.register_sender(b"TrackerA").unwrap();
    assert_eq!(local, LocalId(0));

    // Receive a SenderDescription with remote id 42 and name "TrackerA".
    let mut ep = open_endpoint();
    let desc = description_message(SENDER_DESCRIPTION, 42, b"TrackerA");
    let action = ep.handle_message(&desc).unwrap();
    assert_eq!(action, EndpointAction::NoOp);

    // A type must be described too before a user message translates.
    let tdesc = description_message(vrpn::types::TYPE_DESCRIPTION, 7, b"vrpn_Tracker Pos_Quat");
    assert_eq!(ep.handle_message(&tdesc).unwrap(), EndpointAction::NoOp);

    // A subsequent message with sender 42 dispatches with local sender 0.
    let user = Message {
        time: TimeVal { seconds: 1, microseconds: 0 },
        message_type: TypeId(7),
        sender: SenderId(42),
        data: GenericBody { body_bytes: vec![1, 2, 3] },
        sequence_number: Some(SequenceNumber(9)),
    };
    match ep.handle_message(&user).unwrap() {
        EndpointAction::Deliver { message } => {
            assert_eq!(message.sender, SenderId(0));
            assert_eq!(message.message_type, TypeId(0));
            assert_eq!(message.data.body_bytes, vec![1, 2, 3]);
        }
        other => panic!("expected Deliver, got {:?}", other),
    }
}

#[test]
fn translation_round_trips_are_identity() {
    let mut table = TranslationTable::new();
    let a = table.record_remote_mapping(b"alpha", RemoteId(42)).unwrap();
    let b = table.record_remote_mapping(b"beta", RemoteId(17)).unwrap();
    assert_eq!(a, LocalId(0));
    assert_eq!(b, LocalId(1));

    // map_to_local after map_to_remote is the identity on its domain.
    for local in [a, b] {
        let remote = table.map_to_remote(local).unwrap();
        assert_eq!(table.map_to_local(remote), Some(local));
    }
    // And the other way round.
    for remote in [RemoteId(42), RemoteId(17)] {
        let local = table.map_to_local(remote).unwrap();
        assert_eq!(table.map_to_remote(local), Some(remote));
    }
    assert_eq!(table.map_to_local(RemoteId(5)), None);
    assert_eq!(table.map_to_remote(LocalId(2)), None);
}

#[test]
fn remote_id_conflict_rejected() {
    let mut table = TranslationTable::new();
    table.record_remote_mapping(b"alpha", RemoteId(42)).unwrap();
    // Rebinding the same pair is a no-op.
    assert_eq!(table.record_remote_mapping(b"alpha", RemoteId(42)), Ok(LocalId(0)));
    assert_eq!(table.len(), 1);
    // Rebinding a bound remote id to a different name is rejected.
    assert_eq!(
        table.record_remote_mapping(b"beta", RemoteId(42)),
        Err(TranslationError::RemoteIdConflict)
    );
    // Reserved ids never enter the table.
    assert_eq!(
        table.record_remote_mapping(b"gamma", RemoteId(-1)),
        Err(TranslationError::ReservedId)
    );
}

#[test]
fn add_local_mapping_idempotent() {
    let mut table = TranslationTable::new();
    assert_eq!(table.add_local_mapping(b"alpha"), Ok(LocalId(0)));
    assert_eq!(table.add_local_mapping(b"beta"), Ok(LocalId(1)));
    assert_eq!(table.add_local_mapping(b"alpha"), Ok(LocalId(0)));
    assert_eq!(table.len(), 2);

    let pairs = table.iter_pairs();
    assert_eq!(pairs.len(), 2);
    assert_eq!(pairs[0].0, 0);
    assert_eq!(&pairs[0].1[..], b"alpha");
    assert_eq!(pairs[1].0, 1);
    assert_eq!(&pairs[1].1[..], b"beta");
}

#[test]
fn dispatch_ordering() {
    let mut d = TypeDispatcher::new();
    let t = LocalId(3);
    let s = LocalId(5);
    let h_any = d.register_handler(None, None).unwrap();
    let h_exact1 = d.register_handler(Some(t), Some(s)).unwrap();
    let h_type_only = d.register_handler(Some(t), None).unwrap();
    let h_sender_only = d.register_handler(None, Some(s)).unwrap();
    let h_exact2 = d.register_handler(Some(t), Some(s)).unwrap();
    let h_other = d.register_handler(Some(LocalId(9)), Some(s)).unwrap();
    assert_ne!(h_other, h_exact1);

    // Concrete keys first (in registration order), then the one-dimension
    // wildcards, then the full wildcard; the non-matching key is absent.
    let order = d.handlers_for(t, s);
    assert_eq!(order, vec![h_exact1, h_exact2, h_type_only, h_sender_only, h_any]);
}

#[test]
fn removed_handler_not_dispatched() {
    let mut d = TypeDispatcher::new();
    let t = LocalId(0);
    let s = LocalId(0);
    let h1 = d.register_handler(Some(t), Some(s)).unwrap();
    let h2 = d.register_handler(Some(t), Some(s)).unwrap();
    assert_eq!(d.handlers_for(t, s), vec![h1, h2]);
    // A handler that returned RemoveThisHandler is unregistered.
    d.remove_handler(h1).unwrap();
    assert_eq!(d.handlers_for(t, s), vec![h2]);
    assert_eq!(d.remove_handler(h1), Err(HandlerError::HandlerNotFound));
}

#[test]
fn system_ids_rejected_in_registration() {
    let mut d = TypeDispatcher::new();
    assert_eq!(
        d.register_handler(Some(LocalId(-1)), None),
        Err(HandlerError::InvalidFilter)
    );
    assert_eq!(
        d.register_handler(None, Some(LocalId(-4))),
        Err(HandlerError::InvalidFilter)
    );
    assert_eq!(d.handlers_for(LocalId(0), LocalId(0)), Vec::<HandlerHandle>::new());
}

#[test]
fn ping_idempotence() {
    // Sending two pings before any pong does not reset the first
    // unanswered timestamp.
    let mut client = Client::new();
    assert_eq!(client.first_unanswered_ping, None);
    client.send_ping(TimeVal { seconds: 10, microseconds: 0 });
    client.send_ping(TimeVal { seconds: 11, microseconds: 0 });
    assert_eq!(
        client.first_unanswered_ping,
        Some(TimeVal { seconds: 10, microseconds: 0 })
    );
    client.pong_received();
    assert_eq!(client.first_unanswered_ping, None);
    client.send_ping(TimeVal { seconds: 12, microseconds: 0 });
    assert_eq!(
        client.first_unanswered_ping,
        Some(TimeVal { seconds: 12, microseconds: 0 })
    );
}

#[test]
fn radio_silence() {
    // 1 s ping interval, 5 s threshold: pings at t = 0, 1, ..., 5 with no
    // pong trip the radio-silence observation on the tick at t = 5.
    let threshold: i64 = 5_000_000;
    let mut client = Client::new();
    for t in 0..=5 {
        let now = TimeVal { seconds: t, microseconds: 0 };
        client.send_ping(now);
        let observation = client.check_ping_cycle(now, threshold);
        if t < 5 {
            assert_eq!(observation, None, "tick at t = {}", t);
        } else {
            let silence = observation.expect("expected a radio-silence observation");
            assert!(silence >= threshold);
            assert_eq!(silence, 5_000_000);
        }
    }
}

#[test]
fn ping_pong_actions() {
    let mut ep = open_endpoint();
    let ping = Message {
        time: TimeVal { seconds: 0, microseconds: 0 },
        message_type: TypeId(PING_MESSAGE),
        sender: SenderId(6),
        data: GenericBody { body_bytes: Vec::new() },
        sequence_number: None,
    };
    assert_eq!(
        ep.handle_message(&ping).unwrap(),
        EndpointAction::SendPong { sender: SenderId(6) }
    );
    let pong = Message { message_type: TypeId(PONG_MESSAGE), ..ping.clone() };
    assert_eq!(
        ep.handle_message(&pong).unwrap(),
        EndpointAction::PongReceived { sender: SenderId(6) }
    );
}

#[test]
fn disconnect_closes() {
    let mut ep = open_endpoint();
    let bye = Message {
        time: TimeVal { seconds: 0, microseconds: 0 },
        message_type: TypeId(DISCONNECT_MESSAGE),
        sender: SenderId(0),
        data: GenericBody { body_bytes: Vec::new() },
        sequence_number: None,
    };
    assert_eq!(ep.handle_message(&bye).unwrap(), EndpointAction::CloseConnection);
    assert_eq!(ep.state, EndpointState::Closing);
    // Inbound data received while closing is discarded.
    let late = Message { message_type: TypeId(0), ..bye };
    assert_eq!(ep.handle_message(&late).unwrap(), EndpointAction::NoOp);
    ep.mark_closed();
    assert_eq!(ep.state, EndpointState::Closed);
}

#[test]
fn unknown_remote_id_dropped() {
    let mut ep = open_endpoint();
    let user = Message {
        time: TimeVal { seconds: 0, microseconds: 0 },
        message_type: TypeId(3),
        sender: SenderId(8),
        data: GenericBody { body_bytes: Vec::new() },
        sequence_number: None,
    };
    assert_eq!(
        ep.handle_message(&user).unwrap(),
        EndpointAction::DropUnknownRemoteId { message_type: 3, sender: 8 }
    );
}

#[test]
fn conflicting_description_dropped() {
    let mut ep = open_endpoint();
    let first = description_message(SENDER_DESCRIPTION, 42, b"alpha");
    assert_eq!(ep.handle_message(&first).unwrap(), EndpointAction::NoOp);
    let second = description_message(SENDER_DESCRIPTION, 42, b"beta");
    assert_eq!(
        ep.handle_message(&second).unwrap(),
        EndpointAction::DropTranslation { error: TranslationError::RemoteIdConflict }
    );
    // The rejected description changed nothing: remote 42 still resolves
    // to the entry recorded first.
    assert_eq!(ep.senders_in.map_to_local(RemoteId(42)), Some(LocalId(0)));
    assert_eq!(ep.senders_in.len(), 1);
}

#[test]
fn malformed_description_is_fatal() {
    let mut ep = open_endpoint();
    let mut bad = description_message(SENDER_DESCRIPTION, 1, b"alpha");
    // Lie about the length: the body no longer accounts for every byte.
    bad.data.body_bytes[3] = 99;
    assert!(ep.handle_message(&bad).is_err());
}

#[test]
fn pack_message_sequence_numbers() {
    let mut ep = open_endpoint();
    let time = TimeVal { seconds: 1, microseconds: 2 };
    let first = ep.pack_message(time, TypeId(0), SenderId(1), vec![1]);
    let second = ep.pack_message(time, TypeId(0), SenderId(1), vec![2]);
    assert_eq!(first.sequence_number, Some(SequenceNumber(0)));
    assert_eq!(second.sequence_number, Some(SequenceNumber(1)));

    // Outbound messages survive the wire in submission order.
    let mut wire = Vec::new();
    buffer_message(&first, &mut wire);
    buffer_message(&second, &mut wire);
    let mut buf = Bytes::from(wire);
    let d1 = unbuffer_message(&mut buf).unwrap();
    let d2 = unbuffer_message(&mut buf).unwrap();
    assert_eq!(d1, first);
    assert_eq!(d2, second);
    assert_eq!(buf.len(), 0);
}
