//! The grammar of one RFC 5424 record: header fields divided by single
//! spaces, structured data, and an optional payload.

use crate::codec::parse::string;
use crate::codec::parse::timestamp;
use crate::codec::parse::timestamp_of;
use crate::codec::scan::decimal_at;
use crate::codec::scan::find;
use crate::codec::scan::find_byte;
use crate::codec::scan::scan_decimal;
use crate::codec::syslog::sdata::lemma_decode_nonempty;
use crate::codec::syslog::sdata::parse_structured_data;
use crate::codec::syslog::sdata::structured_data_at;
use crate::codec::syslog::sdata::DASH;
use crate::codec::syslog::sdata::SPACE;
use crate::codec::syslog::Facility;
use crate::codec::syslog::Message;
use crate::codec::syslog::MessageModel;
use crate::codec::syslog::Severity;
use crate::codec::syslog::SyslogError;
use crate::codec::syslog::SyslogEvent;
use crate::codec::syslog::SyslogRecord;
use crate::time::Timestamp;
use vstd::prelude::*;
use vstd::slice::slice_subrange;
use vstd::slice::slice_to_vec;
use vstd::utf8::decode_utf8;
use vstd::utf8::valid_utf8;

verus! {

pub const LESS: u8 = 0x3c;

pub const GREATER: u8 = 0x3e;

pub const VERSION: u8 = 0x31;

/// The largest priority: facility 23 with severity 7.
pub const MAX_PRIORITY: u64 = 191;

/// The tag `<PRI>1` at the start of a record: the priority, written in
/// decimal digits and at most 191, and the position behind the version.
pub open spec fn priority_at(s: Seq<u8>) -> Option<(u8, int)> {
    if s.len() > 0 && s[0] == LESS {
        match decimal_at(s, 1, MAX_PRIORITY as nat) {
            Some((value, end)) => if end + 1 < s.len() && s[end as int] == GREATER && s[end + 1]
                == VERSION {
                Some((value as u8, end + 2))
            } else {
                None
            },
            None => None,
        }
    } else {
        None
    }
}

/// A header field at `from`: a run of bytes other than the space, not
/// empty, with a space behind it; and the position behind that space.
pub open spec fn token_at(s: Seq<u8>, from: int) -> Option<(Seq<u8>, int)> {
    let end = find_byte(s, from, SPACE);
    if 0 <= from < end < s.len() {
        Some((s.subrange(from, end), end + 1))
    } else {
        None
    }
}

/// A header field that is UTF-8 text.
pub open spec fn field_at(s: Seq<u8>, from: int) -> Option<(Seq<u8>, int)> {
    match token_at(s, from) {
        Some((token, next)) => if valid_utf8(token) {
            Some((token, next))
        } else {
            None
        },
        None => None,
    }
}

/// The timestamp field: a space at `from`, then a token that reads as a
/// timestamp.
pub open spec fn timestamp_at(s: Seq<u8>, from: int) -> Option<(Timestamp, int)> {
    if 0 <= from < s.len() && s[from] == SPACE {
        match token_at(s, from + 1) {
            Some((token, next)) => match timestamp_of(token) {
                Ok(t) => Some((t, next)),
                Err(_) => None,
            },
            None => None,
        }
    } else {
        None
    }
}

/// The text of a field that may be left out: a single dash stands for none.
pub open spec fn optional_text(token: Seq<u8>) -> Option<Seq<char>> {
    if token == seq![DASH] {
        None
    } else {
        Some(decode_utf8(token))
    }
}

/// The three bytes that mark a payload as UTF-8 text.
pub open spec fn has_bom(payload: Seq<u8>) -> bool {
    payload.len() >= 3 && payload[0] == 0xef && payload[1] == 0xbb && payload[2] == 0xbf
}

/// The message that a payload holds: text where the mark stands in front,
/// and then the rest must be UTF-8; else the bytes as they are.
pub open spec fn payload_of(payload: Seq<u8>) -> Result<MessageModel, SyslogError> {
    if has_bom(payload) {
        if valid_utf8(payload.skip(3)) {
            Ok(MessageModel::String(decode_utf8(payload.skip(3))))
        } else {
            Err(SyslogError::PayloadEncoding)
        }
    } else {
        Ok(MessageModel::MaybeString(payload))
    }
}

/// What follows the structured data: nothing, or a space and the payload,
/// which runs to the end of the record.
pub open spec fn message_at(s: Seq<u8>, from: int) -> Result<Option<MessageModel>, SyslogError> {
    if from < 0 || from >= s.len() {
        Ok(None)
    } else if s[from] == SPACE {
        match payload_of(s.subrange(from + 1, s.len() as int)) {
            Ok(message) => Ok(Some(message)),
            Err(kind) => Err(kind),
        }
    } else {
        Err(SyslogError::StructuredDataElement)
    }
}

/// The facility of a priority.
pub open spec fn facility_of(priority: u8) -> Facility {
    Facility::of_code(priority as int / 8).unwrap()
}

/// The severity of a priority.
pub open spec fn severity_of(priority: u8) -> Severity {
    Severity::of_code(priority as int % 8).unwrap()
}

/// The record that a run of bytes writes, or the kind of the first thing
/// wrong with it. The fields stand in this order: priority and version,
/// timestamp, hostname, application name, process id, message id,
/// structured data, payload. The hostname may not be a dash.
pub open spec fn record_of(s: Seq<u8>) -> Result<SyslogRecord, SyslogError> {
    match priority_at(s) {
        None => Err(SyslogError::Priority),
        Some((priority, a)) => match timestamp_at(s, a) {
            None => Err(SyslogError::Timestamp),
            Some((timestamp, b)) => match field_at(s, b) {
                None => Err(SyslogError::Hostname),
                Some((hostname, c)) => if hostname == seq![DASH] {
                    Err(SyslogError::Hostname)
                } else {
                    match field_at(s, c) {
                        None => Err(SyslogError::AppName),
                        Some((app_name, d)) => match field_at(s, d) {
                            None => Err(SyslogError::ProcId),
                            Some((proc_id, e)) => match field_at(s, e) {
                                None => Err(SyslogError::MsgId),
                                Some((msg_id, f)) => match structured_data_at(s, f) {
                                    Err(kind) => Err(kind),
                                    Ok((structured_data, g)) => match message_at(s, g) {
                                        Err(kind) => Err(kind),
                                        Ok(message) => Ok(
                                            SyslogRecord {
                                                facility: facility_of(priority),
                                                severity: severity_of(priority),
                                                timestamp,
                                                hostname: decode_utf8(hostname),
                                                app_name: optional_text(app_name),
                                                proc_id: optional_text(proc_id),
                                                msg_id: optional_text(msg_id),
                                                structured_data,
                                                message,
                                            },
                                        ),
                                    },
                                },
                            },
                        },
                    }
                },
            },
        },
    }
}

/// Reads the tag `<PRI>1`.
pub fn parse_priority(input: &[u8]) -> (r: Option<(u8, usize)>)
    ensures
        match priority_at(input@) {
            Some((priority, to)) => r == Some((priority, to as usize)) && priority <= 191 && 0 < to
                <= input.len(),
            None => r is None,
        },
{
    if input.len() == 0 || input[0] != LESS {
        return None;
    }
    match scan_decimal(input, 1, MAX_PRIORITY) {
        Some((value, end)) => {
            if input.len() - end >= 2 && input[end] == GREATER && input[end + 1] == VERSION {
                Some((value as u8, end + 2))
            } else {
                None
            }
        },
        None => None,
    }
}

/// Reads one header field: the token at `from` and the position behind the
/// space that ends it.
pub fn parse_token(input: &[u8], from: usize) -> (r: Option<(&[u8], usize)>)
    requires
        from <= input.len(),
    ensures
        match token_at(input@, from as int) {
            Some((token, to)) => r matches Some((read, next)) && read@ == token && next == to
                && from < next <= input.len() && token.len() > 0,
            None => r is None,
        },
{
    let end = find(input, from, SPACE);
    if end == from || end >= input.len() {
        return None;
    }
    Some((slice_subrange(input, from, end), end + 1))
}

/// Reads one header field that is text.
pub fn parse_field(input: &[u8], from: usize) -> (r: Option<(&str, usize)>)
    requires
        from <= input.len(),
    ensures
        match field_at(input@, from as int) {
            Some((token, to)) => r matches Some((text, next)) && text@ == decode_utf8(token)
                && next == to && from < next <= input.len() && text@.len() > 0 && ((token
                == seq![DASH]) <==> is_dash(text)),
            None => r is None,
        },
{
    match parse_token(input, from) {
        Some((token, next)) => match string(token) {
            Ok(text) => {
                proof {
                    lemma_decode_nonempty(token@);
                    lemma_dash(token@);
                }
                Some((text, next))
            },
            Err(_) => None,
        },
        None => None,
    }
}

/// The text is a single dash.
pub open spec fn is_dash(text: &str) -> bool {
    text@ == seq!['-']
}

/// UTF-8 text is a single dash exactly if its bytes are the one byte of a
/// dash.
pub proof fn lemma_dash(token: Seq<u8>)
    requires
        valid_utf8(token),
    ensures
        (token == seq![DASH]) <==> decode_utf8(token) == seq!['-'],
{
    vstd::utf8::decode_utf8_encode_utf8(token);
    vstd::utf8::encode_utf8_decode_utf8(seq!['-']);
    assert(vstd::utf8::is_ascii_chars(seq!['-']));
    vstd::utf8::is_ascii_chars_encode_utf8(seq!['-']);
    assert(vstd::utf8::encode_utf8(seq!['-']) =~= seq![DASH]);
}

/// Whether a text is a single dash.
pub fn is_nil(text: &str) -> (nil: bool)
    ensures
        nil == is_dash(text),
{
    let bytes = text.as_bytes();
    proof {
        vstd::utf8::encode_utf8_valid_utf8(text@);
        vstd::utf8::encode_utf8_decode_utf8(text@);
        lemma_dash(bytes@);
        assert(nil_bytes(bytes@) <==> bytes@ == seq![DASH]);
    }
    bytes.len() == 1 && bytes[0] == DASH
}

/// The bytes are the one byte of a dash.
pub open spec fn nil_bytes(bytes: Seq<u8>) -> bool {
    bytes.len() == 1 && bytes[0] == DASH
}

/// The owned text of a field that may be left out.
pub fn optional(text: &str) -> (r: Option<String>)
    ensures
        is_dash(text) ==> r is None,
        !is_dash(text) ==> (r matches Some(owned) && owned@ == text@),
{
    if is_nil(text) {
        None
    } else {
        Some(text.to_owned())
    }
}

/// Reads a payload: text behind the UTF-8 mark, else bytes.
pub fn parse_payload(payload: &[u8]) -> (r: Result<Message, SyslogError>)
    ensures
        match payload_of(payload@) {
            Ok(message) => r matches Ok(read) && read@ == message,
            Err(kind) => r matches Err(e) && e == kind,
        },
{
    if payload.len() >= 3 && payload[0] == 0xef && payload[1] == 0xbb && payload[2] == 0xbf {
        proof {
            assert(payload@.subrange(3, payload@.len() as int) =~= payload@.skip(3));
        }
        match string(slice_subrange(payload, 3, payload.len())) {
            Ok(text) => Ok(Message::String(text.to_owned())),
            Err(_) => Err(SyslogError::PayloadEncoding),
        }
    } else {
        Ok(Message::MaybeString(slice_to_vec(payload)))
    }
}

/// Reads what follows the structured data.
pub fn parse_message(input: &[u8], from: usize) -> (r: Result<Option<Message>, SyslogError>)
    requires
        from <= input.len(),
    ensures
        match message_at(input@, from as int) {
            Ok(message) => r matches Ok(read) && crate::codec::syslog::message_view(read)
                == message,
            Err(kind) => r matches Err(e) && e == kind,
        },
{
    if from >= input.len() {
        return Ok(None);
    }
    if input[from] != SPACE {
        return Err(SyslogError::StructuredDataElement);
    }
    match parse_payload(slice_subrange(input, from + 1, input.len())) {
        Ok(message) => Ok(Some(message)),
        Err(kind) => Err(kind),
    }
}

/// Reads the timestamp field with the space before it.
pub fn parse_timestamp(input: &[u8], from: usize) -> (r: Option<(Timestamp, usize)>)
    requires
        from <= input.len(),
    ensures
        match timestamp_at(input@, from as int) {
            Some((t, to)) => r == Some((t, to as usize)) && t.wf() && from < to <= input.len(),
            None => r is None,
        },
{
    if from >= input.len() || input[from] != SPACE {
        return None;
    }
    match parse_token(input, from + 1) {
        Some((token, next)) => match timestamp(token) {
            Ok(t) => Some((t, next)),
            Err(_) => None,
        },
        None => None,
    }
}

/// Reads one RFC 5424 record from a complete frame. The record it gives is
/// the one that `record_of` describes, stamped with the present moment; the
/// error is the kind that `record_of` gives.
pub fn syslog_rfc5424(input: &[u8]) -> (r: Result<SyslogEvent, SyslogError>)
    ensures
        match record_of(input@) {
            Ok(record) => r matches Ok(event) && event@ == record && event.wf(),
            Err(kind) => r matches Err(e) && e == kind,
        },
        r matches Ok(event) ==> (event.facility.code_spec() <= 23 && event.severity.code_spec()
            <= 7),
{
    let (priority, at) = match parse_priority(input) {
        Some(read) => read,
        None => {
            return Err(SyslogError::Priority);
        },
    };
    let (facility, severity) = match (
        Facility::from_code(priority / 8),
        Severity::from_code(priority % 8),
    ) {
        (Some(facility), Some(severity)) => (facility, severity),
        _ => {
            return Err(SyslogError::Priority);
        },
    };
    let (timestamp, at) = match parse_timestamp(input, at) {
        Some(read) => read,
        None => {
            return Err(SyslogError::Timestamp);
        },
    };
    let (hostname, at) = match parse_field(input, at) {
        Some(read) => read,
        None => {
            return Err(SyslogError::Hostname);
        },
    };
    if is_nil(hostname) {
        return Err(SyslogError::Hostname);
    }
    let (app_name, at) = match parse_field(input, at) {
        Some(read) => read,
        None => {
            return Err(SyslogError::AppName);
        },
    };
    let (proc_id, at) = match parse_field(input, at) {
        Some(read) => read,
        None => {
            return Err(SyslogError::ProcId);
        },
    };
    let (msg_id, at) = match parse_field(input, at) {
        Some(read) => read,
        None => {
            return Err(SyslogError::MsgId);
        },
    };
    let (structured_data, at) = match parse_structured_data(input, at) {
        Ok(read) => read,
        Err(kind) => {
            return Err(kind);
        },
    };
    let message = match parse_message(input, at) {
        Ok(read) => read,
        Err(kind) => {
            return Err(kind);
        },
    };
    Ok(
        SyslogEvent {
            facility,
            severity,
            timestamp,
            hostname: hostname.to_owned(),
            app_name: optional(app_name),
            proc_id: optional(proc_id),
            msg_id: optional(msg_id),
            structured_data,
            message,
            processed: Timestamp::now(),
        },
    )
}

/// Every record that is read has a facility from 0 to 23 and a severity
/// from 0 to 7: the quotient and the remainder of its priority by 8.
pub proof fn lemma_record_priority(s: Seq<u8>)
    requires
        record_of(s) is Ok,
    ensures
        priority_at(s) is Some,
        ({
            let record = record_of(s)->Ok_0;
            let priority = priority_at(s)->Some_0.0;
            &&& priority <= 191
            &&& record.facility.code_spec() == priority / 8
            &&& record.severity.code_spec() == priority % 8
            &&& 0 <= record.facility.code_spec() <= 23
            &&& 0 <= record.severity.code_spec() <= 7
        }),
{
}

/// No record that is read has an empty hostname or a dash for one.
pub proof fn lemma_hostname_is_given(s: Seq<u8>)
    requires
        record_of(s) is Ok,
    ensures
        record_of(s)->Ok_0.hostname.len() > 0,
        record_of(s)->Ok_0.hostname != seq!['-'],
{
    let a = priority_at(s)->Some_0.1;
    let b = timestamp_at(s, a)->Some_0.1;
    let hostname = field_at(s, b)->Some_0.0;
    lemma_decode_nonempty(hostname);
    lemma_dash(hostname);
}

/// A record whose hostname field is a dash is refused for its hostname.
pub proof fn lemma_hostname_dash_is_refused(s: Seq<u8>)
    requires
        priority_at(s) is Some,
        timestamp_at(s, priority_at(s)->Some_0.1) is Some,
        field_at(s, timestamp_at(s, priority_at(s)->Some_0.1)->Some_0.1) matches Some((token, _))
            && token == seq![DASH],
    ensures
        record_of(s) == Err::<SyslogRecord, SyslogError>(SyslogError::Hostname),
{
}

/// A field that may be left out is absent exactly where it is a dash; any
/// other text is kept, and is no dash.
pub proof fn lemma_optional_text(token: Seq<u8>)
    requires
        valid_utf8(token),
    ensures
        optional_text(token) is None <==> token == seq![DASH],
        optional_text(token) matches Some(text) ==> text == decode_utf8(token) && text != seq![
            '-',
        ],
{
    lemma_dash(token);
}

/// A record has no message exactly where it ends behind its structured
/// data.
pub proof fn lemma_absent_message(s: Seq<u8>, from: int)
    requires
        0 <= from,
    ensures
        message_at(s, from) == Ok::<Option<MessageModel>, SyslogError>(None) <==> from >= s.len(),
{
}

/// The UTF-8 mark alone decides the kind of a message. Behind the mark the
/// payload is text, or refused for its encoding where it is not UTF-8;
/// without the mark it is kept as bytes, UTF-8 or not.
pub proof fn lemma_payload_kind(payload: Seq<u8>)
    ensures
        has_bom(payload) && valid_utf8(payload.skip(3)) ==> payload_of(payload) == Ok::<
            MessageModel,
            SyslogError,
        >(MessageModel::String(decode_utf8(payload.skip(3)))),
        has_bom(payload) && !valid_utf8(payload.skip(3)) ==> payload_of(payload) == Err::<
            MessageModel,
            SyslogError,
        >(SyslogError::PayloadEncoding) && SyslogError::PayloadEncoding.code_spec() == 20,
        !has_bom(payload) ==> payload_of(payload) == Ok::<MessageModel, SyslogError>(
            MessageModel::MaybeString(payload),
        ),
{
}

} // verus!
