use bytes::Bytes;
use vrpn::error::{BufferUnbufferError, BytesRequired};
use vrpn::primitives::{
    buffer_i32, buffer_i64, buffer_u32, buffer_u64, buffer_u8, unbuffer_i32, unbuffer_i64,
    unbuffer_u32, unbuffer_u64, unbuffer_u8,
};
use vrpn::types::{buffer_timeval, unbuffer_timeval, TimeVal};

#[test]
fn u32_exact_bytes() {
    let mut out = Vec::new();
    buffer_u32(&mut out, 0x0102_0304);
    assert_eq!(out, vec![1, 2, 3, 4]);
    let mut buf = Bytes::from(out);
    assert_eq!(unbuffer_u32(&mut buf), Ok(0x0102_0304));
    assert_eq!(buf.len(), 0);
}

#[test]
fn i32_negative_roundtrip() {
    let mut out = Vec::new();
    buffer_i32(&mut out, -2);
    assert_eq!(out, vec![0xFF, 0xFF, 0xFF, 0xFE]);
    let mut buf = Bytes::from(out);
    assert_eq!(unbuffer_i32(&mut buf), Ok(-2));
}

#[test]
fn u64_roundtrip() {
    let mut out = Vec::new();
    buffer_u64(&mut out, 0x0102_0304_0506_0708);
    assert_eq!(out, vec![1, 2, 3, 4, 5, 6, 7, 8]);
    let mut buf = Bytes::from(out);
    assert_eq!(unbuffer_u64(&mut buf), Ok(0x0102_0304_0506_0708));
}

#[test]
fn i64_roundtrip() {
    let mut out = Vec::new();
    buffer_i64(&mut out, -1);
    assert_eq!(out, vec![0xFF; 8]);
    let mut buf = Bytes::from(out);
    assert_eq!(unbuffer_i64(&mut buf), Ok(-1));
}

#[test]
fn u8_roundtrip() {
    let mut out = Vec::new();
    buffer_u8(&mut out, 0xAB);
    assert_eq!(out, vec![0xAB]);
    let mut buf = Bytes::from(out);
    assert_eq!(unbuffer_u8(&mut buf), Ok(0xAB));
    // An empty source reports the exact shortage without advancing.
    assert_eq!(
        unbuffer_u8(&mut buf),
        Err(BufferUnbufferError::NeedMoreData(BytesRequired::Exactly(1)))
    );
}

#[test]
fn timeval_roundtrip() {
    let t = TimeVal { seconds: -5, microseconds: 250_000 };
    let mut out = Vec::new();
    buffer_timeval(&mut out, &t);
    assert_eq!(out.len(), 8);
    let mut buf = Bytes::from(out);
    assert_eq!(unbuffer_timeval(&mut buf), Ok(t));
    assert_eq!(buf.len(), 0);
}

#[test]
fn primitive_shortage_is_exact() {
    let mut buf = Bytes::from_static(&[1, 2]);
    assert_eq!(
        unbuffer_u32(&mut buf),
        Err(BufferUnbufferError::NeedMoreData(BytesRequired::Exactly(2)))
    );
    assert_eq!(buf.len(), 2);
    assert_eq!(
        unbuffer_u64(&mut buf),
        Err(BufferUnbufferError::NeedMoreData(BytesRequired::Exactly(6)))
    );
    assert_eq!(
        unbuffer_timeval(&mut buf),
        Err(BufferUnbufferError::NeedMoreData(BytesRequired::Exactly(6)))
    );
}
