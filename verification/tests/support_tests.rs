use bytes::Bytes;
use vrpn::descriptions::parse_description_body;
use vrpn::endpoint::Endpoint;
use vrpn::error::{BufferUnbufferError, BytesRequired};
use vrpn::size::{compute_padding, padded, ALIGN};
use vrpn::types::{SenderId, TimeVal, TypeId, SENDER_DESCRIPTION, TYPE_DESCRIPTION};
use vrpn::unbuffer::{check_unbuffer_remaining, consume_expected, Output};

#[test]
fn output_wrapping() {
    let out = Output::new(12_u32);
    assert_eq!(*out.borrow_data(), 12);
    let mut out = out;
    *out.borrow_data_mut() = 13;
    let mapped = out.map(|v| v + 1);
    assert_eq!(mapped.data(), 14);
}

#[test]
fn bytes_required_satisfied_by() {
    assert_eq!(BytesRequired::Exactly(4).satisfied_by(4), Some(true));
    assert_eq!(BytesRequired::Exactly(4).satisfied_by(3), Some(false));
    assert_eq!(BytesRequired::AtLeast(4).satisfied_by(10), Some(true));
    assert_eq!(BytesRequired::AtLeast(4).satisfied_by(3), Some(false));
    assert_eq!(BytesRequired::Unknown.satisfied_by(100), None);
}

#[test]
fn bytes_required_plus() {
    assert_eq!(
        BytesRequired::Exactly(2).plus(BytesRequired::Exactly(3)),
        BytesRequired::Exactly(5)
    );
    assert_eq!(
        BytesRequired::AtLeast(2).plus(BytesRequired::Exactly(3)),
        BytesRequired::AtLeast(5)
    );
    assert_eq!(
        BytesRequired::Exactly(2).plus(BytesRequired::AtLeast(3)),
        BytesRequired::AtLeast(5)
    );
    assert_eq!(
        BytesRequired::AtLeast(2).plus(BytesRequired::AtLeast(3)),
        BytesRequired::AtLeast(5)
    );
    assert_eq!(
        BytesRequired::Unknown.plus(BytesRequired::Exactly(3)),
        BytesRequired::Unknown
    );
    assert_eq!(
        BytesRequired::Exactly(usize::MAX).plus(BytesRequired::Exactly(2)),
        BytesRequired::Exactly(usize::MAX)
    );
}

#[test]
fn bytes_required_expand() {
    assert_eq!(BytesRequired::Exactly(7).expand(), BytesRequired::AtLeast(7));
    assert_eq!(BytesRequired::AtLeast(7).expand(), BytesRequired::AtLeast(7));
    assert_eq!(BytesRequired::Unknown.expand(), BytesRequired::Unknown);
}

#[test]
fn error_helpers() {
    let e = BufferUnbufferError::NeedMoreData(BytesRequired::Exactly(3));
    assert_eq!(e.clone().try_get_size_requirement(), Some(BytesRequired::Exactly(3)));
    assert_eq!(BufferUnbufferError::OutOfBuffer.try_get_size_requirement(), None);
    assert_eq!(
        e.clone().expand_size_requirement(),
        BufferUnbufferError::NeedMoreData(BytesRequired::AtLeast(3))
    );
    assert_eq!(
        e.map_bytes_required_to_size_mismatch(),
        BufferUnbufferError::HeaderSizeMismatch(BytesRequired::Exactly(3))
    );
    assert_eq!(
        BufferUnbufferError::OutOfBuffer.map_bytes_required_to_size_mismatch(),
        BufferUnbufferError::OutOfBuffer
    );
    let from_req: BufferUnbufferError = BytesRequired::AtLeast(9).into();
    assert_eq!(from_req, BufferUnbufferError::NeedMoreData(BytesRequired::AtLeast(9)));
}

#[test]
fn padding_formula() {
    assert_eq!(ALIGN, 8);
    assert_eq!(compute_padding(0), 0);
    assert_eq!(compute_padding(1), 7);
    assert_eq!(compute_padding(7), 1);
    assert_eq!(compute_padding(8), 0);
    assert_eq!(compute_padding(20), 4);
    assert_eq!(padded(0), 0);
    assert_eq!(padded(20), 24);
    assert_eq!(padded(64), 64);
    assert_eq!(padded(65), 72);
}

#[test]
fn consume_expected_behaviour() {
    let mut buf = Bytes::from_static(b"hello world");
    assert_eq!(buf.len(), 11);
    assert!(consume_expected(&mut buf, &b"hello"[..]).is_ok());
    assert_eq!(buf.len(), 6);

    // A mismatch consumes the bytes it compared and reports both sides.
    let err = consume_expected(&mut buf, &b" earth"[..]).unwrap_err();
    match err {
        BufferUnbufferError::UnexpectedAsciiData { actual, expected } => {
            assert_eq!(&actual[..], b" world");
            assert_eq!(&expected[..], b" earth");
        }
        other => panic!("expected UnexpectedAsciiData, got {:?}", other),
    }
    assert_eq!(buf.len(), 0);

    // A short buffer consumes nothing and reports the exact shortage.
    let mut buf = Bytes::from_static(b"he");
    let err = consume_expected(&mut buf, &b"hello"[..]).unwrap_err();
    assert_eq!(err, BufferUnbufferError::NeedMoreData(BytesRequired::Exactly(3)));
    assert_eq!(buf.len(), 2);
}

#[test]
fn check_remaining() {
    let buf = Bytes::from_static(b"abcd");
    assert_eq!(check_unbuffer_remaining(&buf, 4), Ok(()));
    assert_eq!(
        check_unbuffer_remaining(&buf, 6),
        Err(BufferUnbufferError::NeedMoreData(BytesRequired::Exactly(2)))
    );
}

#[test]
fn describe_all_advertises_everything() {
    let mut ep = Endpoint::new();
    ep.register_local_sender(b"TrackerA").unwrap();
    ep.register_local_sender(b"TrackerB").unwrap();
    ep.register_local_type(b"vrpn_Tracker Pos_Quat").unwrap();

    let time = TimeVal { seconds: 4, microseconds: 5 };
    let descriptions = ep.describe_all(time);
    assert_eq!(descriptions.len(), 3);

    assert_eq!(descriptions[0].message_type, TypeId(SENDER_DESCRIPTION));
    assert_eq!(descriptions[0].sender, SenderId(0));
    assert_eq!(&parse_description_body(&descriptions[0].data.body_bytes).unwrap()[..], b"TrackerA");

    assert_eq!(descriptions[1].message_type, TypeId(SENDER_DESCRIPTION));
    assert_eq!(descriptions[1].sender, SenderId(1));
    assert_eq!(&parse_description_body(&descriptions[1].data.body_bytes).unwrap()[..], b"TrackerB");

    assert_eq!(descriptions[2].message_type, TypeId(TYPE_DESCRIPTION));
    assert_eq!(descriptions[2].sender, SenderId(0));
    assert_eq!(
        &parse_description_body(&descriptions[2].data.body_bytes).unwrap()[..],
        b"vrpn_Tracker Pos_Quat"
    );
    assert_eq!(descriptions[0].time, time);

    // Registration is idempotent by name.
    ep.register_local_sender(b"TrackerA").unwrap();
    assert_eq!(ep.describe_all(time).len(), 3);
}
