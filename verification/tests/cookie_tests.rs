use bytes::Bytes;
use bytes::BytesMut;
use vrpn::cookie::{
    buffer_cookie, check_ver_nonfile_compatible, dec_digits, from_dec, magic_data,
    unbuffer_cookie, CookieData, LogMode, Version, VersionError, COOKIE_SIZE,
};
use vrpn::error::BufferUnbufferError;

#[test]
fn magic_size() {
    // Make sure the size is right.
    let mut magic_cookie = CookieData::from(magic_data());
    magic_cookie.log_mode = Some(LogMode::none());
    assert_eq!(magic_cookie.required_buffer_size(), COOKIE_SIZE);

    let mut buf = Vec::new();
    buffer_cookie(&magic_cookie, &mut buf);
    assert_eq!(buf.len(), COOKIE_SIZE);
}

#[test]
fn roundtrip() {
    let mut magic_cookie = CookieData::from(magic_data());
    magic_cookie.log_mode = Some(LogMode::none());
    let mut buf = Vec::with_capacity(magic_cookie.required_buffer_size());
    buffer_cookie(&magic_cookie, &mut buf);
    let mut buf = Bytes::from(buf);
    assert_eq!(unbuffer_cookie(&mut buf).unwrap(), magic_cookie);
    assert_eq!(buf.len(), 0);
}

#[test]
fn roundtrip_bytesmut() {
    let mut magic_cookie = CookieData::from(magic_data());
    magic_cookie.log_mode = Some(LogMode::none());

    let mut staging = Vec::new();
    buffer_cookie(&magic_cookie, &mut staging);
    let mut bytes_mut = BytesMut::with_capacity(staging.len());
    bytes_mut.extend_from_slice(&staging[..]);
    let mut buf = bytes_mut.freeze();
    assert_eq!(unbuffer_cookie(&mut buf).unwrap(), magic_cookie);
    assert_eq!(buf.len(), 0);
}

#[test]
fn basics() {
    assert_eq!(from_dec(b"1"), Ok(1_u8));
    assert_eq!(from_dec(b"12"), Ok(12_u8));
}

#[test]
fn dec_digits_fn() {
    {
        let mut buf = Bytes::from_static(b"1");
        assert_eq!(dec_digits(&mut buf, 1), Ok(1_u8));
        assert_eq!(buf.len(), 0);
    }
    {
        let mut buf = Bytes::from_static(b"12");
        assert_eq!(dec_digits(&mut buf, 2), Ok(12_u8));
        assert_eq!(buf.len(), 0);
    }
}

#[test]
fn parse_decimal() {
    assert_eq!(0_u8, from_dec(b"0").unwrap());
    assert_eq!(0_u8, from_dec(b"00").unwrap());
    assert_eq!(0_u8, from_dec(b"000").unwrap());
    assert_eq!(1_u8, from_dec(b"1").unwrap());
    assert_eq!(1_u8, from_dec(b"01").unwrap());
    assert_eq!(1_u8, from_dec(b"001").unwrap());
    assert_eq!(1_u8, from_dec(b"0001").unwrap());
    assert_eq!(10_u8, from_dec(b"10").unwrap());
    assert_eq!(10_u8, from_dec(b"010").unwrap());
    assert_eq!(10_u8, from_dec(b"0010").unwrap());
    assert_eq!(10_u8, from_dec(b"00010").unwrap());
}

#[test]
fn cookie_wire_text() {
    // Encoding version 7.35, log mode 0 gives the documented 24 bytes:
    // the ASCII text then five NULs.
    let cookie = CookieData {
        version: Version { major: 7, minor: 35 },
        log_mode: Some(LogMode::none()),
    };
    let mut buf = Vec::new();
    buffer_cookie(&cookie, &mut buf);
    assert_eq!(buf.len(), 24);
    assert_eq!(&buf[..19], b"vrpn: ver. 07.35  0");
    assert_eq!(&buf[19..], &[0u8, 0, 0, 0, 0]);

    let mut rd = Bytes::from(buf);
    let parsed = unbuffer_cookie(&mut rd).unwrap();
    assert_eq!(parsed, cookie);
}

#[test]
fn cookie_short_buffer() {
    let mut buf = Bytes::from_static(b"vrpn: ver. 07");
    let before = buf.clone();
    let err = unbuffer_cookie(&mut buf).unwrap_err();
    assert_eq!(
        err,
        BufferUnbufferError::NeedMoreData(vrpn::error::BytesRequired::Exactly(11))
    );
    // The cursor did not move.
    assert_eq!(buf, before);
}

#[test]
fn cookie_bad_magic() {
    let mut buf = Bytes::from_static(b"xrpn: ver. 07.35  0\0\0\0\0\0");
    let err = unbuffer_cookie(&mut buf).unwrap_err();
    match err {
        BufferUnbufferError::UnexpectedAsciiData { actual, expected } => {
            assert_eq!(&actual[..], b"xrpn: ver. ");
            assert_eq!(&expected[..], b"vrpn: ver. ");
        }
        other => panic!("expected UnexpectedAsciiData, got {:?}", other),
    }
}

#[test]
fn cookie_bad_digits() {
    let mut buf = Bytes::from_static(b"vrpn: ver. a7.35  0\0\0\0\0\0");
    let err = unbuffer_cookie(&mut buf).unwrap_err();
    match err {
        BufferUnbufferError::ParseError { .. } => {}
        other => panic!("expected ParseError, got {:?}", other),
    }
}

#[test]
fn cookie_bad_dot() {
    // The first failing segment decides the error: here the dot.
    let mut buf = Bytes::from_static(b"vrpn: ver. 07x35  0\0\0\0\0\0");
    let err = unbuffer_cookie(&mut buf).unwrap_err();
    match err {
        BufferUnbufferError::UnexpectedAsciiData { actual, expected } => {
            assert_eq!(&actual[..], b"x");
            assert_eq!(&expected[..], b".");
        }
        other => panic!("expected UnexpectedAsciiData, got {:?}", other),
    }
    // The source itself was not advanced.
    assert_eq!(buf.len(), 24);
}

#[test]
fn cookie_bad_padding() {
    let mut buf = Bytes::from_static(b"vrpn: ver. 07.35  0\0\0!\0\0");
    let err = unbuffer_cookie(&mut buf).unwrap_err();
    match err {
        BufferUnbufferError::UnexpectedAsciiData { actual, expected } => {
            assert_eq!(&actual[..], b"\0\0!\0\0");
            assert_eq!(&expected[..], &[0u8; 5]);
        }
        other => panic!("expected UnexpectedAsciiData, got {:?}", other),
    }
}

#[test]
fn from_dec_rejects() {
    assert!(from_dec(b"").is_err());
    assert!(from_dec(b"1a").is_err());
    assert!(from_dec(b"999").is_err());
    assert_eq!(from_dec(b"255"), Ok(255_u8));
    assert!(from_dec(b"256").is_err());
}

#[test]
fn version_compatibility() {
    assert_eq!(check_ver_nonfile_compatible(Version { major: 7, minor: 35 }), Ok(()));
    // Minor versions may differ.
    assert_eq!(check_ver_nonfile_compatible(Version { major: 7, minor: 12 }), Ok(()));
    // Major versions must match exactly.
    assert_eq!(
        check_ver_nonfile_compatible(Version { major: 8, minor: 35 }),
        Err(VersionError::VersionMismatch {
            actual: Version { major: 8, minor: 35 },
            expected: Version { major: 7, minor: 35 },
        })
    );
}

#[test]
fn log_mode_from_digit() {
    assert_eq!(vrpn::cookie::u8_to_log_mode(0), LogMode(0));
    assert_eq!(vrpn::cookie::u8_to_log_mode(1), LogMode(1));
    assert_eq!(vrpn::cookie::u8_to_log_mode(2), LogMode(2));
    assert_eq!(vrpn::cookie::u8_to_log_mode(3), LogMode(3));
    // Bits beyond the two defined flags are masked off.
    assert_eq!(vrpn::cookie::u8_to_log_mode(7), LogMode(3));
}
