//! Parsing primitives shared by the grammars: text, small integers and
//! timestamps out of raw bytes.

use crate::codec::scan::decimal;
use crate::codec::scan::digits_end;
use crate::codec::scan::scan_decimal;
use crate::time::Timestamp;
use chrono::DateTime;
use chrono::FixedOffset;
use vstd::prelude::*;
use vstd::utf8::decode_utf8;
use vstd::utf8::encode_utf8;
use vstd::utf8::encode_utf8_decode_utf8;
use vstd::utf8::valid_utf8;

verus! {

/// Why a primitive could not read its bytes.
#[derive(Clone, Copy, Debug, PartialEq, Eq, Structural)]
pub enum ErrorKind {
    /// The bytes are not UTF-8.
    Utf8Error,
    /// The text is not a decimal number of the wanted size.
    ParseIntError,
    /// The text is no timestamp in any of the accepted forms.
    TimestampError,
}

/// std's `Utf8Error`: nothing is read from it.
#[verifier::external_type_specification]
#[verifier::external_body]
pub struct ExUtf8Error(std::str::Utf8Error);

/// chrono's `ParseError`: nothing is read from it.
#[verifier::external_type_specification]
#[verifier::external_body]
pub struct ExChronoParseError(chrono::format::ParseError);

/// `std::str::from_utf8`: succeeds exactly on well-formed UTF-8, and the text
/// it gives is the one those bytes encode.
#[verifier::external_body]
fn from_utf8(bytes: &[u8]) -> (r: Result<&str, std::str::Utf8Error>)
    ensures
        r is Ok <==> valid_utf8(bytes@),
        r matches Ok(s) ==> s@ == decode_utf8(bytes@),
{
    std::str::from_utf8(bytes)
}

/// The instant that chrono's `DateTime::parse_from_rfc3339` reads from a
/// text, where it reads one.
pub uninterp spec fn rfc3339_instant(text: Seq<char>) -> Option<Timestamp>;

/// The instant that chrono's `DateTime::parse_from_str` reads from a text
/// under a format, where it reads one.
pub uninterp spec fn formatted_instant(text: Seq<char>, format: Seq<char>) -> Option<Timestamp>;

/// Calls chrono's `DateTime::parse_from_rfc3339` and takes the result apart
/// into seconds, nanoseconds and offset. The outcome depends on the text
/// alone. chrono documents that `from_timestamp` rebuilds a `DateTime` from
/// its `timestamp` and `timestamp_subsec_nanos`, so the numbers lie in the
/// calendar's range.
#[verifier::external_body]
fn parse_rfc3339(s: &str) -> (r: Result<Timestamp, chrono::format::ParseError>)
    ensures
        r matches Ok(t) ==> rfc3339_instant(s@) == Some(t) && t.wf(),
        r is Err ==> rfc3339_instant(s@) is None,
{
    let parsed: DateTime<FixedOffset> = DateTime::parse_from_rfc3339(s)?;
    Ok(Timestamp {
        secs: parsed.timestamp(),
        nanos: parsed.timestamp_subsec_nanos(),
        offset: parsed.offset().local_minus_utc(),
    })
}

/// Calls chrono's `DateTime::parse_from_str` and takes the result apart in
/// the same way. The outcome depends on the text and the format alone.
#[verifier::external_body]
fn parse_formatted(s: &str, format: &str) -> (r: Result<Timestamp, chrono::format::ParseError>)
    ensures
        r matches Ok(t) ==> formatted_instant(s@, format@) == Some(t) && t.wf(),
        r is Err ==> formatted_instant(s@, format@) is None,
{
    let parsed: DateTime<FixedOffset> = DateTime::parse_from_str(s, format)?;
    Ok(Timestamp {
        secs: parsed.timestamp(),
        nanos: parsed.timestamp_subsec_nanos(),
        offset: parsed.offset().local_minus_utc(),
    })
}

/// The text that a run of bytes encodes, where it is UTF-8.
pub open spec fn string_of(bytes: Seq<u8>) -> Result<Seq<char>, ErrorKind> {
    if valid_utf8(bytes) {
        Ok(decode_utf8(bytes))
    } else {
        Err(ErrorKind::Utf8Error)
    }
}

/// Reads bytes as UTF-8 text, without copying them.
pub fn string(bytes: &[u8]) -> (r: Result<&str, ErrorKind>)
    ensures
        r is Ok <==> string_of(bytes@) is Ok,
        r matches Ok(s) ==> string_of(bytes@) == Ok::<Seq<char>, ErrorKind>(s@),
        r matches Err(e) ==> string_of(bytes@) == Err::<Seq<char>, ErrorKind>(e),
{
    match from_utf8(bytes) {
        Ok(s) => Ok(s),
        Err(_) => Err(ErrorKind::Utf8Error),
    }
}

/// The number that a text writes: an optional plus sign, then decimal digits
/// and nothing else, with a value of at most 255.
pub open spec fn int_u8_of(bytes: Seq<u8>) -> Result<u8, ErrorKind> {
    let start: int = if bytes.len() > 0 && bytes[0] == 0x2b {
        1
    } else {
        0
    };
    let end = digits_end(bytes, start);
    let value = decimal(bytes.subrange(start, end));
    if !valid_utf8(bytes) {
        Err(ErrorKind::Utf8Error)
    } else if start < end && end == bytes.len() && value <= 255 {
        Ok(value as u8)
    } else {
        Err(ErrorKind::ParseIntError)
    }
}

/// Reads bytes as the decimal text of a number from 0 to 255.
pub fn int_u8(bytes: &[u8]) -> (r: Result<u8, ErrorKind>)
    ensures
        r == int_u8_of(bytes@),
{
    match string(bytes) {
        Ok(_) => {},
        Err(e) => {
            return Err(e);
        },
    }
    let start: usize = if bytes.len() > 0 && bytes[0] == 0x2b {
        1
    } else {
        0
    };
    match scan_decimal(bytes, start, 255) {
        Some((value, end)) => {
            if end == bytes.len() {
                Ok(value as u8)
            } else {
                Err(ErrorKind::ParseIntError)
            }
        },
        None => Err(ErrorKind::ParseIntError),
    }
}

/// Whether two texts are the same, decided on their bytes.
pub fn same_text(a: &str, b: &str) -> (same: bool)
    ensures
        same == (a@ == b@),
{
    let x = a.as_bytes();
    let y = b.as_bytes();
    proof {
        encode_utf8_decode_utf8(a@);
        encode_utf8_decode_utf8(b@);
    }
    if x.len() != y.len() {
        return false;
    }
    let mut at: usize = 0;
    while at < x.len()
        invariant
            at <= x.len(),
            x.len() == y.len(),
            x@ == encode_utf8(a@),
            y@ == encode_utf8(b@),
            forall|k: int| 0 <= k < at ==> x@[k] == y@[k],
        decreases x.len() - at,
    {
        if x[at] != y[at] {
            return false;
        }
        at = at + 1;
    }
    proof {
        assert(x@ =~= y@);
        assert(encode_utf8(a@) == encode_utf8(b@));
    }
    true
}

/// First accepted form: the day of the month padded with a space.
pub open spec fn bsd_format_padded() -> Seq<char> {
    "%b %e %H:%M:%S"@
}

/// Second accepted form: the day of the month padded with a zero.
pub open spec fn bsd_format_zero() -> Seq<char> {
    "%b %d %H:%M:%S"@
}

/// The instant that a text stands for: read as RFC 3339 first, then in each
/// of the two BSD forms.
pub open spec fn instant_of(text: Seq<char>) -> Option<Timestamp> {
    if rfc3339_instant(text) is Some {
        rfc3339_instant(text)
    } else if formatted_instant(text, bsd_format_padded()) is Some {
        formatted_instant(text, bsd_format_padded())
    } else {
        formatted_instant(text, bsd_format_zero())
    }
}

/// What `timestamp` makes of a run of bytes.
pub open spec fn timestamp_of(bytes: Seq<u8>) -> Result<Timestamp, ErrorKind> {
    if !valid_utf8(bytes) {
        Err(ErrorKind::Utf8Error)
    } else {
        match instant_of(decode_utf8(bytes)) {
            Some(t) => Ok(t),
            None => Err(ErrorKind::TimestampError),
        }
    }
}

/// Reads a timestamp: RFC 3339, or one of the two BSD forms.
pub fn timestamp(bytes: &[u8]) -> (r: Result<Timestamp, ErrorKind>)
    ensures
        r == timestamp_of(bytes@),
        r matches Ok(t) ==> t.wf(),
{
    let s = match string(bytes) {
        Ok(s) => s,
        Err(e) => {
            return Err(e);
        },
    };
    match parse_rfc3339(s) {
        Ok(t) => Ok(t),
        Err(_) => match parse_formatted(s, "%b %e %H:%M:%S") {
            Ok(t) => Ok(t),
            Err(_) => match parse_formatted(s, "%b %d %H:%M:%S") {
                Ok(t) => Ok(t),
                Err(_) => Err(ErrorKind::TimestampError),
            },
        },
    }
}

} // verus!
