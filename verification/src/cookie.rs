//! The cookie handshake frame: a fixed 24-byte greeting holding the ASCII
//! magic, the protocol version as two 2-digit decimal numbers, and a
//! 1-digit log mode, padded with NULs.

use vstd::prelude::*;

use crate::bytes_buf::{bytes_advance, bytes_clone, bytes_len, bytes_view};
use crate::error::{BufferUnbufferError, BytesRequired, ParseKind};
use crate::message::{buffer_bytes, unbuffer_bytes, zero_bytes};
use crate::unbuffer::consume_expected;

verus! {

/// On-wire size of the cookie.
pub const COOKIE_SIZE: usize = 24;

/// ASCII `'0'`, the base of the decimal digits.
pub const ASCII_ZERO: u8 = 48;

/// ASCII `'.'`, between the major and minor version digits.
pub const ASCII_DOT: u8 = 46;

/// ASCII `' '`, twice between the version and the log-mode digit.
pub const ASCII_SPACE: u8 = 32;

/// Log-mode flag: record incoming traffic.
pub const LOG_INCOMING: u8 = 1;

/// Log-mode flag: record outgoing traffic.
pub const LOG_OUTGOING: u8 = 2;

/// Major version of the protocol this library speaks.
pub const MAGIC_MAJOR: u8 = 7;

/// Minor version of the protocol this library speaks.
pub const MAGIC_MINOR: u8 = 35;

/// The ASCII bytes of the magic `"vrpn: ver. "` that opens every cookie.
pub open spec fn magic_prefix() -> Seq<u8> {
    seq![118u8, 114u8, 112u8, 110u8, 58u8, 32u8, 118u8, 101u8, 114u8, 46u8, 32u8]
}

/// The magic prefix as a vector, for writing and comparing.
pub fn make_magic_prefix() -> (v: Vec<u8>)
    ensures
        v@ == magic_prefix(),
{
    let mut v: Vec<u8> = Vec::new();
    v.push(118);
    v.push(114);
    v.push(112);
    v.push(110);
    v.push(58);
    v.push(32);
    v.push(118);
    v.push(101);
    v.push(114);
    v.push(46);
    v.push(32);
    proof {
        assert(v@ =~= magic_prefix());
    }
    v
}

/// A protocol version: major and minor, each rendered as two decimal
/// digits in the cookie.
#[derive(Debug, Clone, Copy, PartialEq, Eq, Structural)]
pub struct Version {
    pub major: u8,
    pub minor: u8,
}

/// Which directions of traffic a peer asks to have logged. The cookie
/// carries it as one decimal digit; only the two low flag bits are defined.
#[derive(Debug, Clone, Copy, PartialEq, Eq, Structural)]
pub struct LogMode(pub u8);

impl LogMode {
    /// No logging.
    pub fn none() -> (r: LogMode)
        ensures
            r.0 == 0,
    {
        LogMode(0)
    }

    /// Turn a flag on.
    pub fn set(&mut self, flag: u8)
        ensures
            final(self).0 == (old(self).0 | flag),
    {
        self.0 = self.0 | flag;
    }

    /// Whether a flag is on.
    pub fn contains(&self, flag: u8) -> (r: bool)
        ensures
            r == ((self.0 & flag) != 0),
    {
        (self.0 & flag) != 0
    }
}

/// The contents of a handshake cookie.
#[derive(Debug, Clone, Copy, PartialEq, Eq, Structural)]
pub struct CookieData {
    pub version: Version,
    pub log_mode: Option<LogMode>,
}

impl CookieData {
    /// Number of bytes this type always occupies on the wire.
    pub fn constant_buffer_size() -> (r: usize)
        ensures
            r == COOKIE_SIZE,
    {
        COOKIE_SIZE
    }

    /// Number of bytes required to serialize this value.
    pub fn required_buffer_size(&self) -> (r: usize)
        ensures
            r == COOKIE_SIZE,
    {
        COOKIE_SIZE
    }
}

/// The version this library writes into its own cookie.
pub fn magic_data() -> (r: Version)
    ensures
        r == (Version { major: MAGIC_MAJOR, minor: MAGIC_MINOR }),
{
    Version { major: MAGIC_MAJOR, minor: MAGIC_MINOR }
}

impl From<Version> for CookieData {
    fn from(version: Version) -> (r: CookieData) {
        CookieData { version, log_mode: None }
    }
}

impl vstd::std_specs::convert::FromSpecImpl<Version> for CookieData {
    open spec fn obeys_from_spec() -> bool {
        true
    }

    open spec fn from_spec(version: Version) -> CookieData {
        CookieData { version, log_mode: None }
    }
}

/// The digit the cookie carries for the log mode: its flag bits, or 0 when
/// no mode was set.
pub open spec fn spec_log_digit(c: CookieData) -> u8 {
    match c.log_mode {
        Some(m) => m.0,
        None => 0,
    }
}

/// The ASCII digit for `n`.
pub open spec fn dec_digit(n: nat) -> u8
    recommends
        n <= 9,
{
    (48 + n) as u8
}

/// Whether `b` is an ASCII decimal digit.
pub open spec fn is_dec_digit(b: u8) -> bool {
    48 <= b && b <= 57
}

/// Whether every byte of `s` is an ASCII decimal digit.
pub open spec fn all_dec_digits(s: Seq<u8>) -> bool {
    forall|i: int| 0 <= i < s.len() ==> is_dec_digit(s[i])
}

/// The number written in decimal in `s`.
pub open spec fn dec_value(s: Seq<u8>) -> nat
    recommends
        all_dec_digits(s),
    decreases s.len(),
{
    if s.len() == 0 {
        0
    } else {
        (dec_value(s.drop_last()) * 10 + (s.last() - 48)) as nat
    }
}

pub proof fn lemma_dec_value_one(s: Seq<u8>)
    requires
        s.len() == 1,
        is_dec_digit(s[0]),
    ensures
        dec_value(s) == s[0] - 48,
{
    reveal_with_fuel(dec_value, 2);
    assert(s.drop_last() =~= Seq::<u8>::empty());
}

pub proof fn lemma_dec_value_two(s: Seq<u8>)
    requires
        s.len() == 2,
        is_dec_digit(s[0]),
        is_dec_digit(s[1]),
    ensures
        dec_value(s) == (s[0] - 48) * 10 + (s[1] - 48),
        dec_value(s) <= 99,
{
    assert(s.drop_last() =~= s.take(1));
    lemma_dec_value_one(s.take(1));
}

/// The value only grows as digits are appended, so a prefix that already
/// exceeds a bound dooms the whole string.
pub proof fn lemma_dec_value_prefix_le(s: Seq<u8>, j: int)
    requires
        0 <= j <= s.len(),
        all_dec_digits(s),
    ensures
        dec_value(s.take(j)) <= dec_value(s),
    decreases s.len() - j,
{
    if j == s.len() {
        assert(s.take(j) =~= s);
    } else {
        lemma_dec_value_prefix_le(s, j + 1);
        assert(s.take(j + 1).drop_last() =~= s.take(j));
        assert(s.take(j + 1).last() == s[j]);
    }
}

/// Parse an unsigned decimal number of at most one byte's worth from an
/// ASCII digit string. Rejects empty input, any non-digit byte, and values
/// over 255.
pub fn from_dec(input: &[u8]) -> (r: Result<u8, BufferUnbufferError>)
    ensures
        (input@.len() > 0 && all_dec_digits(input@) && dec_value(input@) <= 255) ==> r == Ok::<
            u8,
            BufferUnbufferError,
        >((dec_value(input@) as u8)),
        !(input@.len() > 0 && all_dec_digits(input@) && dec_value(input@) <= 255) ==> r == Err::<
            u8,
            BufferUnbufferError,
        >(
            (BufferUnbufferError::ParseError {
                parsing_kind: ParseKind::Integer,
                detail: input@.len() as usize,
            }),
        ),
{
    let n = input.len();
    if n == 0 {
        return Err(BufferUnbufferError::ParseError { parsing_kind: ParseKind::Integer, detail: 0 });
    }
    let mut acc: u16 = 0;
    let mut i: usize = 0;
    while i < n
        invariant
            0 < n == input@.len(),
            i <= n,
            all_dec_digits(input@.take(i as int)),
            acc == dec_value(input@.take(i as int)),
            acc <= 255,
        decreases n - i,
    {
        let b = input[i];
        if b < 48 || b > 57 {
            return Err(
                BufferUnbufferError::ParseError { parsing_kind: ParseKind::Integer, detail: n },
            );
        }
        let d = (b - 48) as u16;
        proof {
            assert(input@.take(i + 1).drop_last() =~= input@.take(i as int));
            assert(input@.take(i + 1).last() == input@[i as int]);
        }
        let next = acc * 10 + d;
        if next > 255 {
            proof {
                if all_dec_digits(input@) {
                    lemma_dec_value_prefix_le(input@, i + 1);
                }
            }
            return Err(
                BufferUnbufferError::ParseError { parsing_kind: ParseKind::Integer, detail: n },
            );
        }
        acc = next;
        i = i + 1;
    }
    proof {
        assert(input@.take(n as int) =~= input@);
    }
    Ok(acc as u8)
}

/// Read `n` bytes from the source and parse them as a decimal number.
/// The source is advanced past the `n` bytes whether or not they parse.
pub fn dec_digits(buf: &mut bytes::Bytes, n: usize) -> (r: Result<u8, BufferUnbufferError>)
    requires
        n <= bytes_view(*old(buf)).len(),
    ensures
        bytes_view(*final(buf)) == bytes_view(*old(buf)).skip(n as int),
        ({
            let s = bytes_view(*old(buf)).take(n as int);
            &&& (n > 0 && all_dec_digits(s) && dec_value(s) <= 255) ==> r == Ok::<
                u8,
                BufferUnbufferError,
            >((dec_value(s) as u8))
            &&& !(n > 0 && all_dec_digits(s) && dec_value(s) <= 255) ==> r == Err::<
                u8,
                BufferUnbufferError,
            >(
                (BufferUnbufferError::ParseError {
                    parsing_kind: ParseKind::Integer,
                    detail: n,
                }),
            )
        }),
{
    let v = match unbuffer_bytes(buf, n) {
        Ok(v) => v,
        Err(e) => {
            return Err(e);
        },
    };
    from_dec(v.as_slice())
}

/// Rebuild a log mode from the digit carried in a cookie: only the two
/// defined flag bits are kept.
pub fn u8_to_log_mode(v: u8) -> (r: LogMode)
    ensures
        r.0 == (v & 3),
{
    let mut mode = LogMode::none();
    if (v & LOG_INCOMING) != 0 {
        mode.set(LOG_INCOMING);
    }
    if (v & LOG_OUTGOING) != 0 {
        mode.set(LOG_OUTGOING);
    }
    proof {
        assert(((0u8 | 1u8) | 2u8) == 3u8) by (bit_vector);
        assert((0u8 | 1u8) == 1u8) by (bit_vector);
        assert((0u8 | 2u8) == 2u8) by (bit_vector);
        assert((v & 1) != 0 && (v & 2) != 0 ==> (v & 3) == 3) by (bit_vector);
        assert((v & 1) != 0 && (v & 2) == 0 ==> (v & 3) == 1) by (bit_vector);
        assert((v & 1) == 0 && (v & 2) != 0 ==> (v & 3) == 2) by (bit_vector);
        assert((v & 1) == 0 && (v & 2) == 0 ==> (v & 3) == 0) by (bit_vector);
    }
    mode
}

/// The 24 bytes of an encoded cookie: magic, `MM.mm`, two spaces, the log
/// digit, five NULs.
pub open spec fn cookie_wire(c: CookieData) -> Seq<u8>
    recommends
        c.version.major <= 99,
        c.version.minor <= 99,
        spec_log_digit(c) <= 9,
{
    magic_prefix() + seq![
        dec_digit((c.version.major / 10) as nat),
        dec_digit((c.version.major % 10) as nat),
        ASCII_DOT,
        dec_digit((c.version.minor / 10) as nat),
        dec_digit((c.version.minor % 10) as nat),
        ASCII_SPACE,
        ASCII_SPACE,
        dec_digit(spec_log_digit(c) as nat),
    ] + zero_bytes(5)
}

/// Serialize a cookie to the sink. The digits can only render values up to
/// 99 (and one digit for the log mode), which bounds the inputs.
pub fn buffer_cookie(c: &CookieData, out: &mut Vec<u8>)
    requires
        c.version.major <= 99,
        c.version.minor <= 99,
        spec_log_digit(*c) <= 9,
    ensures
        final(out)@ == old(out)@ + cookie_wire(*c),
{
    let prefix = make_magic_prefix();
    buffer_bytes(out, &prefix);
    out.push(ASCII_ZERO + c.version.major / 10);
    out.push(ASCII_ZERO + c.version.major % 10);
    out.push(ASCII_DOT);
    out.push(ASCII_ZERO + c.version.minor / 10);
    out.push(ASCII_ZERO + c.version.minor % 10);
    out.push(ASCII_SPACE);
    out.push(ASCII_SPACE);
    let digit: u8 = match c.log_mode {
        Some(m) => m.0,
        None => 0,
    };
    out.push(ASCII_ZERO + digit);
    out.push(0);
    out.push(0);
    out.push(0);
    out.push(0);
    out.push(0);
    proof {
        assert(out@ =~= old(out)@ + cookie_wire(*c));
    }
}

/// Whether the 24 bytes at the head of `s` are a well-formed cookie.
pub open spec fn cookie_parse_ok(s: Seq<u8>) -> bool {
    &&& s.len() >= COOKIE_SIZE
    &&& s.subrange(0, 11) == magic_prefix()
    &&& is_dec_digit(s[11])
    &&& is_dec_digit(s[12])
    &&& s[13] == ASCII_DOT
    &&& is_dec_digit(s[14])
    &&& is_dec_digit(s[15])
    &&& s[16] == ASCII_SPACE
    &&& s[17] == ASCII_SPACE
    &&& is_dec_digit(s[18])
    &&& s.subrange(19, 24) == zero_bytes(5)
}

/// The cookie encoded at the head of `s`.
pub open spec fn cookie_of(s: Seq<u8>) -> CookieData
    recommends
        cookie_parse_ok(s),
{
    CookieData {
        version: Version {
            major: dec_value(s.subrange(11, 13)) as u8,
            minor: dec_value(s.subrange(14, 16)) as u8,
        },
        log_mode: Some(LogMode((dec_value(s.subrange(18, 19)) as u8) & 3)),
    }
}

/// Which error a malformed but complete cookie produces: the first
/// failing segment decides. A fixed-text mismatch (magic, dot, spaces,
/// NUL padding) returns the bytes read alongside what was expected; a
/// non-digit where a version or log digit belongs is an integer parse
/// error whose detail is the field width.
pub open spec fn cookie_error_outcome(
    s: Seq<u8>,
    r: Result<CookieData, BufferUnbufferError>,
) -> bool
    recommends
        s.len() >= COOKIE_SIZE,
        !cookie_parse_ok(s),
{
    if s.subrange(0, 11) != magic_prefix() {
        r matches Err(e) && (e matches BufferUnbufferError::UnexpectedAsciiData {
            actual: a,
            expected: x,
        } && a@ == s.subrange(0, 11) && x@ == magic_prefix())
    } else if !(is_dec_digit(s[11]) && is_dec_digit(s[12])) {
        r == Err::<CookieData, BufferUnbufferError>(
            (BufferUnbufferError::ParseError { parsing_kind: ParseKind::Integer, detail: 2 }),
        )
    } else if s[13] != ASCII_DOT {
        r matches Err(e) && (e matches BufferUnbufferError::UnexpectedAsciiData {
            actual: a,
            expected: x,
        } && a@ == s.subrange(13, 14) && x@ == seq![ASCII_DOT])
    } else if !(is_dec_digit(s[14]) && is_dec_digit(s[15])) {
        r == Err::<CookieData, BufferUnbufferError>(
            (BufferUnbufferError::ParseError { parsing_kind: ParseKind::Integer, detail: 2 }),
        )
    } else if !(s[16] == ASCII_SPACE && s[17] == ASCII_SPACE) {
        r matches Err(e) && (e matches BufferUnbufferError::UnexpectedAsciiData {
            actual: a,
            expected: x,
        } && a@ == s.subrange(16, 18) && x@ == seq![ASCII_SPACE, ASCII_SPACE])
    } else if !is_dec_digit(s[18]) {
        r == Err::<CookieData, BufferUnbufferError>(
            (BufferUnbufferError::ParseError { parsing_kind: ParseKind::Integer, detail: 1 }),
        )
    } else {
        r matches Err(e) && (e matches BufferUnbufferError::UnexpectedAsciiData {
            actual: a,
            expected: x,
        } && a@ == s.subrange(19, 24) && x@ == zero_bytes(5))
    }
}

/// Deserialize a cookie from the head of the source.
///
/// A source shorter than the cookie leaves the cursor untouched and
/// reports the exact shortage. A malformed cookie fails with the error of
/// its first bad segment (see `cookie_error_outcome`), also without
/// advancing. Only a well-formed cookie advances the cursor, by exactly
/// the cookie size.
pub fn unbuffer_cookie(buf: &mut bytes::Bytes) -> (r: Result<CookieData, BufferUnbufferError>)
    ensures
        ({
            let s = bytes_view(*old(buf));
            &&& s.len() < COOKIE_SIZE ==> r == Err::<CookieData, BufferUnbufferError>(
                BufferUnbufferError::NeedMoreData(
                    BytesRequired::Exactly((COOKIE_SIZE - s.len()) as usize),
                ),
            ) && bytes_view(*final(buf)) == s
            &&& (s.len() >= COOKIE_SIZE && cookie_parse_ok(s)) ==> r == Ok::<
                CookieData,
                BufferUnbufferError,
            >(cookie_of(s)) && bytes_view(*final(buf)) == s.skip(COOKIE_SIZE as int)
            &&& (s.len() >= COOKIE_SIZE && !cookie_parse_ok(s)) ==> cookie_error_outcome(s, r)
                && bytes_view(*final(buf)) == s
        }),
{
    let ghost s = bytes_view(*old(buf));
    let n = bytes_len(buf);
    if n < COOKIE_SIZE {
        return Err(BufferUnbufferError::NeedMoreData(BytesRequired::Exactly(COOKIE_SIZE - n)));
    }
    // Parse from a second handle; the source itself is advanced only once
    // the whole cookie has checked out.
    let mut work = bytes_clone(buf);
    let prefix = make_magic_prefix();
    match consume_expected(&mut work, prefix.as_slice()) {
        Ok(()) => {},
        Err(e) => {
            proof {
                assert(s.take(11) =~= s.subrange(0, 11));
            }
            return Err(e);
        },
    }
    proof {
        assert(s.take(11) =~= s.subrange(0, 11));
    }
    let major = match dec_digits(&mut work, 2) {
        Ok(v) => v,
        Err(e) => {
            proof {
                let two = s.skip(11).take(2);
                assert(two[0] == s[11] && two[1] == s[12]);
                if is_dec_digit(s[11]) && is_dec_digit(s[12]) {
                    lemma_dec_value_two(two);
                }
            }
            return Err(e);
        },
    };
    proof {
        assert(s.skip(11).skip(2) =~= s.skip(13));
        let two = s.skip(11).take(2);
        assert(two[0] == s[11] && two[1] == s[12]);
        assert(is_dec_digit(two[0]) && is_dec_digit(two[1]));
    }
    let dot: Vec<u8> = {
        let mut v: Vec<u8> = Vec::new();
        v.push(ASCII_DOT);
        v
    };
    match consume_expected(&mut work, dot.as_slice()) {
        Ok(()) => {},
        Err(e) => {
            proof {
                if s[13] == ASCII_DOT {
                    assert(s.skip(13).take(1) =~= dot@);
                }
                assert(s.skip(13).take(1) =~= s.subrange(13, 14));
                assert(dot@ =~= seq![ASCII_DOT]);
            }
            return Err(e);
        },
    }
    proof {
        assert(s.skip(13).skip(1) =~= s.skip(14));
        assert(s.skip(13).take(1)[0] == s[13]);
        assert(dot@[0] == ASCII_DOT);
    }
    let minor = match dec_digits(&mut work, 2) {
        Ok(v) => v,
        Err(e) => {
            proof {
                let two = s.skip(14).take(2);
                assert(two[0] == s[14] && two[1] == s[15]);
                if is_dec_digit(s[14]) && is_dec_digit(s[15]) {
                    lemma_dec_value_two(two);
                }
            }
            return Err(e);
        },
    };
    proof {
        assert(s.skip(14).skip(2) =~= s.skip(16));
        let two = s.skip(14).take(2);
        assert(two[0] == s[14] && two[1] == s[15]);
        assert(is_dec_digit(two[0]) && is_dec_digit(two[1]));
    }
    let spaces: Vec<u8> = {
        let mut v: Vec<u8> = Vec::new();
        v.push(ASCII_SPACE);
        v.push(ASCII_SPACE);
        v
    };
    match consume_expected(&mut work, spaces.as_slice()) {
        Ok(()) => {},
        Err(e) => {
            proof {
                if s[16] == ASCII_SPACE && s[17] == ASCII_SPACE {
                    assert(s.skip(16).take(2) =~= spaces@);
                }
                assert(s.skip(16).take(2) =~= s.subrange(16, 18));
                assert(spaces@ =~= seq![ASCII_SPACE, ASCII_SPACE]);
            }
            return Err(e);
        },
    }
    proof {
        assert(s.skip(16).skip(2) =~= s.skip(18));
        assert(s.skip(16).take(2)[0] == s[16]);
        assert(s.skip(16).take(2)[1] == s[17]);
        assert(spaces@[0] == ASCII_SPACE && spaces@[1] == ASCII_SPACE);
    }
    let log_digit_value = match dec_digits(&mut work, 1) {
        Ok(v) => v,
        Err(e) => {
            proof {
                let one = s.skip(18).take(1);
                assert(one[0] == s[18]);
                if is_dec_digit(s[18]) {
                    lemma_dec_value_one(one);
                }
            }
            return Err(e);
        },
    };
    proof {
        assert(s.skip(18).skip(1) =~= s.skip(19));
        assert(s.skip(18).take(1)[0] == s[18]);
    }
    let padding: Vec<u8> = {
        let mut v: Vec<u8> = Vec::new();
        v.push(0);
        v.push(0);
        v.push(0);
        v.push(0);
        v.push(0);
        v
    };
    match consume_expected(&mut work, padding.as_slice()) {
        Ok(()) => {},
        Err(e) => {
            proof {
                assert(s.skip(19).take(5) =~= s.subrange(19, 24));
                assert(padding@ =~= zero_bytes(5));
            }
            return Err(e);
        },
    }
    bytes_advance(buf, COOKIE_SIZE);
    let log_mode = u8_to_log_mode(log_digit_value);
    proof {
        assert(s.skip(19).take(5) =~= s.subrange(19, 24));
        assert(padding@ =~= zero_bytes(5));
        assert(s.skip(11).take(2) =~= s.subrange(11, 13));
        assert(s.skip(14).take(2) =~= s.subrange(14, 16));
        assert(s.skip(18).take(1) =~= s.subrange(18, 19));
        assert(s.skip(11).take(2)[0] == s[11] && s.skip(11).take(2)[1] == s[12]);
        assert(s.skip(14).take(2)[0] == s[14] && s.skip(14).take(2)[1] == s[15]);
    }
    Ok(CookieData { version: Version { major, minor }, log_mode: Some(log_mode) })
}

/// Round trip: an encoded cookie, possibly followed by further bytes,
/// parses back to the cookie that was written. A cookie whose log mode was
/// `None` comes back as the explicit no-logging mode, which the digit `0`
/// cannot distinguish; log bits beyond the two defined flags do not survive
/// the single digit, so they are excluded.
pub proof fn lemma_cookie_wire_parses(c: CookieData, rest: Seq<u8>)
    requires
        c.version.major <= 99,
        c.version.minor <= 99,
        spec_log_digit(c) <= 3,
    ensures
        cookie_wire(c).len() == COOKIE_SIZE,
        cookie_parse_ok(cookie_wire(c) + rest),
        cookie_of(cookie_wire(c) + rest) == (CookieData {
            version: c.version,
            log_mode: Some(LogMode(spec_log_digit(c))),
        }),
{
    let w = cookie_wire(c) + rest;
    assert(w.subrange(0, 11) =~= magic_prefix());
    assert(w.subrange(19, 24) =~= zero_bytes(5));
    let maj = c.version.major;
    let min = c.version.minor;
    let d = spec_log_digit(c);
    assert(w[11] == dec_digit((maj / 10) as nat) && w[12] == dec_digit((maj % 10) as nat));
    assert(w[14] == dec_digit((min / 10) as nat) && w[15] == dec_digit((min % 10) as nat));
    assert(w[18] == dec_digit(d as nat));
    lemma_dec_value_two(w.subrange(11, 13));
    lemma_dec_value_two(w.subrange(14, 16));
    lemma_dec_value_one(w.subrange(18, 19));
    assert(w.subrange(11, 13)[0] == w[11] && w.subrange(11, 13)[1] == w[12]);
    assert(w.subrange(14, 16)[0] == w[14] && w.subrange(14, 16)[1] == w[15]);
    assert(w.subrange(18, 19)[0] == w[18]);
    assert(dec_value(w.subrange(11, 13)) == maj);
    assert(dec_value(w.subrange(14, 16)) == min);
    assert(dec_value(w.subrange(18, 19)) == d);
    assert(d <= 3 ==> (d & 3) == d) by (bit_vector);
}

/// Error from comparing a peer's cookie version against our own.
#[derive(Debug, Clone, Copy, PartialEq, Eq, Structural)]
pub enum VersionError {
    VersionMismatch { actual: Version, expected: Version },
}

/// Version rule for non-file streams: major versions must match exactly;
/// minor versions may differ.
pub fn check_ver_nonfile_compatible(version: Version) -> (r: Result<(), VersionError>)
    ensures
        version.major == MAGIC_MAJOR ==> r == Ok::<(), VersionError>(()),
        version.major != MAGIC_MAJOR ==> r == Err::<(), VersionError>(
            (VersionError::VersionMismatch {
                actual: version,
                expected: (Version { major: MAGIC_MAJOR, minor: MAGIC_MINOR }),
            }),
        ),
{
    if version.major == MAGIC_MAJOR {
        Ok(())
    } else {
        Err(
            VersionError::VersionMismatch {
                actual: version,
                expected: Version { major: MAGIC_MAJOR, minor: MAGIC_MINOR },
            },
        )
    }
}

} // verus!
