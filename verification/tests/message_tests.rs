use bytes::Bytes;
use vrpn::error::{BufferUnbufferError, BytesRequired, ParseKind};
use vrpn::message::{buffer_message, unbuffer_message, GenericBody, Message};
use vrpn::size::{MessageSize, UNPADDED_HEADER_SIZE};
use vrpn::tracker::{
    buffer_pose_report, unbuffer_pose_message, unbuffer_pose_report, PoseReport, Quat, Sensor,
    Vec3,
};
use vrpn::types::{SenderId, SequenceNumber, TimeVal, TypeId};

#[test]
fn constant() {
    // The size field is a u32.
    let len_size = 4;

    assert_eq!(
        UNPADDED_HEADER_SIZE,
        len_size
            + TimeVal::constant_buffer_size()
            + SenderId::constant_buffer_size()
            + TypeId::constant_buffer_size()
    );
}

fn sample_pose() -> PoseReport {
    PoseReport {
        sensor: Sensor(3),
        pos: Vec3 {
            x: 1.0f64.to_bits(),
            y: 2.0f64.to_bits(),
            z: 3.0f64.to_bits(),
        },
        quat: Quat {
            x: 0.0f64.to_bits(),
            y: 0.0f64.to_bits(),
            z: 0.0f64.to_bits(),
            w: 1.0f64.to_bits(),
        },
    }
}

#[test]
fn minimal_empty_body() {
    let msg = Message {
        time: TimeVal { seconds: 1, microseconds: 2 },
        message_type: TypeId(0),
        sender: SenderId(0),
        data: GenericBody { body_bytes: Vec::new() },
        sequence_number: Some(SequenceNumber(1)),
    };
    let mut wire = Vec::new();
    buffer_message(&msg, &mut wire);
    // Length field = 20, total wire = 24 bytes, no body padding.
    assert_eq!(wire.len(), 24);
    assert_eq!(&wire[..4], &[0, 0, 0, 20]);

    let mut buf = Bytes::from(wire);
    let decoded = unbuffer_message(&mut buf).unwrap();
    assert_eq!(decoded, msg);
    // Trailing stream position = 24: everything consumed.
    assert_eq!(buf.len(), 0);
}

#[test]
fn message_size_geometry() {
    let size = MessageSize::from_unpadded_body_size(0);
    assert_eq!(size.unpadded_message_size(), 20);
    assert_eq!(size.padded_body_size(), 0);
    assert_eq!(size.padded_message_size(), 24);

    let size = MessageSize::from_unpadded_body_size(1);
    assert_eq!(size.padded_body_size(), 8);
    assert_eq!(size.padded_message_size(), 32);

    let size = MessageSize::from_unpadded_message_size(84);
    assert_eq!(size.unpadded_body_size, 64);
    assert_eq!(size.padded_message_size(), 88);
}

#[test]
fn pose_report_roundtrip() {
    let report = sample_pose();
    let mut body = Vec::new();
    buffer_pose_report(&report, &mut body);
    // Body is 64 bytes.
    assert_eq!(body.len(), 64);

    let msg = Message {
        time: TimeVal { seconds: 5, microseconds: 6 },
        message_type: TypeId(0),
        sender: SenderId(0),
        data: GenericBody { body_bytes: body },
        sequence_number: Some(SequenceNumber(7)),
    };
    let mut wire = Vec::new();
    buffer_message(&msg, &mut wire);
    // Full wire frame is 24 + 64 = 88 bytes, zero trailing pad.
    assert_eq!(wire.len(), 88);

    let mut buf = Bytes::from(wire);
    let decoded = unbuffer_message(&mut buf).unwrap();
    assert_eq!(decoded, msg);

    let typed = unbuffer_pose_message(&decoded).unwrap();
    assert_eq!(typed.data, report);
    assert_eq!(typed.time, msg.time);
    assert_eq!(typed.sequence_number, msg.sequence_number);
}

#[test]
fn partial_frame() {
    let report = sample_pose();
    let mut body = Vec::new();
    buffer_pose_report(&report, &mut body);
    let msg = Message {
        time: TimeVal { seconds: 5, microseconds: 6 },
        message_type: TypeId(0),
        sender: SenderId(0),
        data: GenericBody { body_bytes: body },
        sequence_number: Some(SequenceNumber(7)),
    };
    let mut wire = Vec::new();
    buffer_message(&msg, &mut wire);
    assert_eq!(wire.len(), 88);

    // Feed the decoder the first 10 bytes.
    let mut partial = Bytes::from(wire[..10].to_vec());
    let err = unbuffer_message(&mut partial).unwrap_err();
    assert_eq!(err, BufferUnbufferError::NeedMoreData(BytesRequired::AtLeast(78)));
    // Cursor unchanged.
    assert_eq!(partial.len(), 10);

    // Feed the remaining 78 bytes: success.
    let mut complete = partial.to_vec();
    complete.extend_from_slice(&wire[10..]);
    let mut buf = Bytes::from(complete);
    let decoded = unbuffer_message(&mut buf).unwrap();
    assert_eq!(decoded, msg);
}

#[test]
fn frame_alignment() {
    // After encoding any message, the write count is a multiple of 8.
    for body_len in [0usize, 1, 3, 7, 8, 9, 15, 16, 63, 64, 100] {
        let msg = Message {
            time: TimeVal { seconds: 0, microseconds: 0 },
            message_type: TypeId(4),
            sender: SenderId(2),
            data: GenericBody { body_bytes: vec![0xAB; body_len] },
            sequence_number: Some(SequenceNumber(0)),
        };
        let mut wire = Vec::new();
        buffer_message(&msg, &mut wire);
        assert_eq!(wire.len() % 8, 0, "body_len {}", body_len);
        // Encoding consumed exactly the predicted buffer size.
        assert_eq!(wire.len(), msg.buffer_size(), "body_len {}", body_len);

        let mut buf = Bytes::from(wire);
        let decoded = unbuffer_message(&mut buf).unwrap();
        assert_eq!(decoded, msg);
        assert_eq!(buf.len(), 0);
    }
}

#[test]
fn tiny_prefix_needs_at_least_four() {
    let mut buf = Bytes::from_static(&[0, 0]);
    let err = unbuffer_message(&mut buf).unwrap_err();
    assert_eq!(err, BufferUnbufferError::NeedMoreData(BytesRequired::AtLeast(2)));
    assert_eq!(buf.len(), 2);
}

#[test]
fn bad_length_field() {
    // A length field below the header size cannot describe a frame.
    let mut buf = Bytes::from_static(&[0, 0, 0, 19, 0, 0, 0, 0]);
    let err = unbuffer_message(&mut buf).unwrap_err();
    assert_eq!(
        err,
        BufferUnbufferError::ParseError { parsing_kind: ParseKind::LengthField, detail: 19 }
    );
    assert_eq!(buf.len(), 8);
}

#[test]
fn pose_body_length_must_match() {
    let msg = Message {
        time: TimeVal { seconds: 0, microseconds: 0 },
        message_type: TypeId(0),
        sender: SenderId(0),
        data: GenericBody { body_bytes: vec![0u8; 63] },
        sequence_number: None,
    };
    let err = unbuffer_pose_message(&msg).unwrap_err();
    assert_eq!(
        err,
        BufferUnbufferError::ParseError { parsing_kind: ParseKind::MessageBody, detail: 1 }
    );

    let msg = Message {
        time: TimeVal { seconds: 0, microseconds: 0 },
        message_type: TypeId(0),
        sender: SenderId(0),
        data: GenericBody { body_bytes: vec![0u8; 66] },
        sequence_number: None,
    };
    let err = unbuffer_pose_message(&msg).unwrap_err();
    assert_eq!(
        err,
        BufferUnbufferError::ParseError { parsing_kind: ParseKind::MessageBody, detail: 2 }
    );
}

#[test]
fn pose_report_from_stream() {
    let report = sample_pose();
    let mut body = Vec::new();
    buffer_pose_report(&report, &mut body);
    let mut buf = Bytes::from(body);
    let parsed = unbuffer_pose_report(&mut buf).unwrap();
    assert_eq!(parsed, report);
    assert_eq!(buf.len(), 0);
    // The bit patterns survive exactly.
    assert_eq!(f64::from_bits(parsed.pos.y), 2.0);
}

#[test]
fn sequence_number_on_wire() {
    // A message without a sequence number is written with sequence 0 and
    // decodes with it made explicit.
    let msg = Message {
        time: TimeVal { seconds: 1, microseconds: 2 },
        message_type: TypeId(3),
        sender: SenderId(4),
        data: GenericBody { body_bytes: vec![9, 9] },
        sequence_number: None,
    };
    let mut wire = Vec::new();
    buffer_message(&msg, &mut wire);
    assert_eq!(&wire[20..24], &[0, 0, 0, 0]);
    let mut buf = Bytes::from(wire);
    let decoded = unbuffer_message(&mut buf).unwrap();
    assert_eq!(decoded.sequence_number, Some(SequenceNumber(0)));
    assert_eq!(decoded.data, msg.data);
}
