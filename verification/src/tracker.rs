//! Types related to the tracker device class: the pose report and its
//! 64-byte body layout.
//!
//! The protocol carries positions and orientations as IEEE-754 doubles.
//! Floating point stays outside the verified core, so the fields here hold
//! the 64-bit patterns of those doubles; converting pattern to number is
//! the caller's business and does not change the bytes.

use vstd::prelude::*;

use crate::bytes_buf::{bytes_from_vec, bytes_len, bytes_view};
use crate::error::{BufferUnbufferError, BytesRequired, ParseKind};
use crate::message::{GenericMessage, Message};
use crate::primitives::{
    be_bytes_i32, be_bytes_u64, buffer_i32, buffer_u64, i32_be_bytes, lemma_i32_be_roundtrip,
    lemma_u64_be_roundtrip, u64_be_bytes, unbuffer_i32, unbuffer_u64,
};

verus! {

/// A sensor number within one tracker device.
#[derive(Debug, Clone, Copy, PartialEq, Eq, Hash, Structural)]
pub struct Sensor(pub i32);

impl Sensor {
    /// Number of bytes this type always occupies on the wire.
    pub fn constant_buffer_size() -> (r: usize)
        ensures
            r == 4,
    {
        4
    }
}

/// Three doubles, as their 64-bit patterns.
#[derive(Debug, Clone, Copy, PartialEq, Eq, Hash, Structural)]
pub struct Vec3 {
    pub x: u64,
    pub y: u64,
    pub z: u64,
}

impl Vec3 {
    /// Number of bytes this type always occupies on the wire.
    pub fn constant_buffer_size() -> (r: usize)
        ensures
            r == 24,
    {
        24
    }
}

/// A quaternion (x, y, z, w order), as four 64-bit patterns.
#[derive(Debug, Clone, Copy, PartialEq, Eq, Hash, Structural)]
pub struct Quat {
    pub x: u64,
    pub y: u64,
    pub z: u64,
    pub w: u64,
}

impl Quat {
    /// Number of bytes this type always occupies on the wire.
    pub fn constant_buffer_size() -> (r: usize)
        ensures
            r == 32,
    {
        32
    }
}

/// Position and orientation for trackers.
#[derive(Debug, Clone, Copy, PartialEq, Eq, Hash, Structural)]
pub struct PoseReport {
    /// Sensor id
    pub sensor: Sensor,
    /// Position
    pub pos: Vec3,
    /// Orientation
    pub quat: Quat,
}

/// On-wire size of a pose report body: the sensor id twice (the second
/// copy is layout padding), then three and four doubles.
pub const POSE_REPORT_SIZE: usize = 64;

impl PoseReport {
    /// Number of bytes this type always occupies on the wire.
    pub fn constant_buffer_size() -> (r: usize)
        ensures
            r == POSE_REPORT_SIZE,
    {
        POSE_REPORT_SIZE
    }
}

/// The ASCII bytes of `"vrpn_Tracker Pos_Quat"`, the user-message name a
/// pose report is registered under.
pub open spec fn pose_report_type_name() -> Seq<u8> {
    seq![
        118u8, 114u8, 112u8, 110u8, 95u8, 84u8, 114u8, 97u8, 99u8, 107u8, 101u8, 114u8, 32u8,
        80u8, 111u8, 115u8, 95u8, 81u8, 117u8, 97u8, 116u8,
    ]
}

/// The pose-report message-type name as a vector.
pub fn make_pose_report_type_name() -> (v: Vec<u8>)
    ensures
        v@ == pose_report_type_name(),
{
    let mut v: Vec<u8> = Vec::new();
    v.push(118);
    v.push(114);
    v.push(112);
    v.push(110);
    v.push(95);
    v.push(84);
    v.push(114);
    v.push(97);
    v.push(99);
    v.push(107);
    v.push(101);
    v.push(114);
    v.push(32);
    v.push(80);
    v.push(111);
    v.push(115);
    v.push(95);
    v.push(81);
    v.push(117);
    v.push(97);
    v.push(116);
    proof {
        assert(v@ =~= pose_report_type_name());
    }
    v
}

/// The 64 bytes of an encoded pose report.
pub open spec fn pose_report_wire(p: PoseReport) -> Seq<u8> {
    i32_be_bytes(p.sensor.0) + i32_be_bytes(p.sensor.0) + u64_be_bytes(p.pos.x) + u64_be_bytes(
        p.pos.y,
    ) + u64_be_bytes(p.pos.z) + u64_be_bytes(p.quat.x) + u64_be_bytes(p.quat.y) + u64_be_bytes(
        p.quat.z,
    ) + u64_be_bytes(p.quat.w)
}

/// The pose report encoded at the head of `s`. The second sensor word is
/// layout padding and is ignored.
pub open spec fn pose_report_of(s: Seq<u8>) -> PoseReport
    recommends
        s.len() >= POSE_REPORT_SIZE,
{
    PoseReport {
        sensor: Sensor(be_bytes_i32(s.subrange(0, 4))),
        pos: Vec3 {
            x: be_bytes_u64(s.subrange(8, 16)),
            y: be_bytes_u64(s.subrange(16, 24)),
            z: be_bytes_u64(s.subrange(24, 32)),
        },
        quat: Quat {
            x: be_bytes_u64(s.subrange(32, 40)),
            y: be_bytes_u64(s.subrange(40, 48)),
            z: be_bytes_u64(s.subrange(48, 56)),
            w: be_bytes_u64(s.subrange(56, 64)),
        },
    }
}

/// Serialize a pose report to the sink.
pub fn buffer_pose_report(p: &PoseReport, out: &mut Vec<u8>)
    ensures
        final(out)@ == old(out)@ + pose_report_wire(*p),
{
    buffer_i32(out, p.sensor.0);
    // The layout reserves a second sensor-sized word; it carries a copy.
    buffer_i32(out, p.sensor.0);
    buffer_u64(out, p.pos.x);
    buffer_u64(out, p.pos.y);
    buffer_u64(out, p.pos.z);
    buffer_u64(out, p.quat.x);
    buffer_u64(out, p.quat.y);
    buffer_u64(out, p.quat.z);
    buffer_u64(out, p.quat.w);
    proof {
        assert(out@ =~= old(out)@ + pose_report_wire(*p));
    }
}

/// Deserialize a pose report from the head of the source; on success the
/// source is advanced past the 64 bytes.
pub fn unbuffer_pose_report(buf: &mut bytes::Bytes) -> (r: Result<PoseReport, BufferUnbufferError>)
    ensures
        bytes_view(*old(buf)).len() >= POSE_REPORT_SIZE ==> r == Ok::<
            PoseReport,
            BufferUnbufferError,
        >(pose_report_of(bytes_view(*old(buf)).take(POSE_REPORT_SIZE as int))) && bytes_view(
            *final(buf),
        ) == bytes_view(*old(buf)).skip(POSE_REPORT_SIZE as int),
        bytes_view(*old(buf)).len() < POSE_REPORT_SIZE ==> r == Err::<
            PoseReport,
            BufferUnbufferError,
        >(
            BufferUnbufferError::NeedMoreData(
                BytesRequired::Exactly((POSE_REPORT_SIZE - bytes_view(*old(buf)).len()) as usize),
            ),
        ) && bytes_view(*final(buf)) == bytes_view(*old(buf)),
{
    let ghost s = bytes_view(*old(buf));
    let n = bytes_len(buf);
    if n < POSE_REPORT_SIZE {
        return Err(BufferUnbufferError::NeedMoreData(BytesRequired::Exactly(POSE_REPORT_SIZE - n)));
    }
    let sensor = match unbuffer_i32(buf) {
        Ok(v) => v,
        Err(e) => {
            return Err(e);
        },
    };
    let _padding = match unbuffer_i32(buf) {
        Ok(v) => v,
        Err(e) => {
            return Err(e);
        },
    };
    proof {
        assert(s.skip(4).skip(4) =~= s.skip(8));
    }
    let px = match unbuffer_u64(buf) {
        Ok(v) => v,
        Err(e) => {
            return Err(e);
        },
    };
    proof {
        assert(s.skip(8).skip(8) =~= s.skip(16));
    }
    let py = match unbuffer_u64(buf) {
        Ok(v) => v,
        Err(e) => {
            return Err(e);
        },
    };
    proof {
        assert(s.skip(16).skip(8) =~= s.skip(24));
    }
    let pz = match unbuffer_u64(buf) {
        Ok(v) => v,
        Err(e) => {
            return Err(e);
        },
    };
    proof {
        assert(s.skip(24).skip(8) =~= s.skip(32));
    }
    let qx = match unbuffer_u64(buf) {
        Ok(v) => v,
        Err(e) => {
            return Err(e);
        },
    };
    proof {
        assert(s.skip(32).skip(8) =~= s.skip(40));
    }
    let qy = match unbuffer_u64(buf) {
        Ok(v) => v,
        Err(e) => {
            return Err(e);
        },
    };
    proof {
        assert(s.skip(40).skip(8) =~= s.skip(48));
    }
    let qz = match unbuffer_u64(buf) {
        Ok(v) => v,
        Err(e) => {
            return Err(e);
        },
    };
    proof {
        assert(s.skip(48).skip(8) =~= s.skip(56));
    }
    let qw = match unbuffer_u64(buf) {
        Ok(v) => v,
        Err(e) => {
            return Err(e);
        },
    };
    proof {
        assert(s.skip(56).skip(8) =~= s.skip(64));
        assert(s.take(4) =~= s.take(64).subrange(0, 4));
        assert(s.skip(8).take(8) =~= s.take(64).subrange(8, 16));
        assert(s.skip(16).take(8) =~= s.take(64).subrange(16, 24));
        assert(s.skip(24).take(8) =~= s.take(64).subrange(24, 32));
        assert(s.skip(32).take(8) =~= s.take(64).subrange(32, 40));
        assert(s.skip(40).take(8) =~= s.take(64).subrange(40, 48));
        assert(s.skip(48).take(8) =~= s.take(64).subrange(48, 56));
        assert(s.skip(56).take(8) =~= s.take(64).subrange(56, 64));
    }
    Ok(
        PoseReport {
            sensor: Sensor(sensor),
            pos: Vec3 { x: px, y: py, z: pz },
            quat: Quat { x: qx, y: qy, z: qz, w: qw },
        },
    )
}

/// Round trip: an encoded pose report, possibly followed by further bytes,
/// parses back to the report that was written.
pub proof fn lemma_pose_report_wire_parses(p: PoseReport, rest: Seq<u8>)
    ensures
        pose_report_wire(p).len() == POSE_REPORT_SIZE,
        pose_report_of((pose_report_wire(p) + rest).take(POSE_REPORT_SIZE as int)) == p,
{
    let w = (pose_report_wire(p) + rest).take(POSE_REPORT_SIZE as int);
    assert(w.subrange(0, 4) =~= i32_be_bytes(p.sensor.0));
    assert(w.subrange(8, 16) =~= u64_be_bytes(p.pos.x));
    assert(w.subrange(16, 24) =~= u64_be_bytes(p.pos.y));
    assert(w.subrange(24, 32) =~= u64_be_bytes(p.pos.z));
    assert(w.subrange(32, 40) =~= u64_be_bytes(p.quat.x));
    assert(w.subrange(40, 48) =~= u64_be_bytes(p.quat.y));
    assert(w.subrange(48, 56) =~= u64_be_bytes(p.quat.z));
    assert(w.subrange(56, 64) =~= u64_be_bytes(p.quat.w));
    lemma_i32_be_roundtrip(p.sensor.0);
    lemma_u64_be_roundtrip(p.pos.x);
    lemma_u64_be_roundtrip(p.pos.y);
    lemma_u64_be_roundtrip(p.pos.z);
    lemma_u64_be_roundtrip(p.quat.x);
    lemma_u64_be_roundtrip(p.quat.y);
    lemma_u64_be_roundtrip(p.quat.z);
    lemma_u64_be_roundtrip(p.quat.w);
}

/// Parse the body of a generic message as a pose report, keeping the
/// header. The body must hold exactly one pose report: a short body or
/// trailing bytes are a parse error (`detail` is the number of missing or
/// unconsumed bytes).
pub fn unbuffer_pose_message(msg: &GenericMessage) -> (r: Result<
    Message<PoseReport>,
    BufferUnbufferError,
>)
    ensures
        msg.data.body_bytes@.len() == POSE_REPORT_SIZE ==> (r matches Ok(m) && m.time == msg.time
            && m.message_type == msg.message_type && m.sender == msg.sender && m.sequence_number
            == msg.sequence_number && m.data == pose_report_of(msg.data.body_bytes@)),
        msg.data.body_bytes@.len() < POSE_REPORT_SIZE ==> r == Err::<
            Message<PoseReport>,
            BufferUnbufferError,
        >(
            (BufferUnbufferError::ParseError {
                parsing_kind: ParseKind::MessageBody,
                detail: (POSE_REPORT_SIZE - msg.data.body_bytes@.len()) as usize,
            }),
        ),
        msg.data.body_bytes@.len() > POSE_REPORT_SIZE ==> r == Err::<
            Message<PoseReport>,
            BufferUnbufferError,
        >(
            (BufferUnbufferError::ParseError {
                parsing_kind: ParseKind::MessageBody,
                detail: (msg.data.body_bytes@.len() - POSE_REPORT_SIZE) as usize,
            }),
        ),
{
    let ghost body = msg.data.body_bytes@;
    let mut buf = bytes_from_vec(msg.data.body_bytes.clone());
    let report = match unbuffer_pose_report(&mut buf) {
        Ok(v) => v,
        Err(_) => {
            return Err(
                BufferUnbufferError::ParseError {
                    parsing_kind: ParseKind::MessageBody,
                    detail: POSE_REPORT_SIZE - msg.data.body_bytes.len(),
                },
            );
        },
    };
    let remaining = bytes_len(&buf);
    if remaining > 0 {
        return Err(
            BufferUnbufferError::ParseError {
                parsing_kind: ParseKind::MessageBody,
                detail: remaining,
            },
        );
    }
    proof {
        if body.len() == POSE_REPORT_SIZE {
            assert(body.take(POSE_REPORT_SIZE as int) =~= body);
        }
    }
    Ok(
        Message {
            time: msg.time,
            message_type: msg.message_type,
            sender: msg.sender,
            data: report,
            sequence_number: msg.sequence_number,
        },
    )
}

} // verus!
