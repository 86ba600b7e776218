//! Writing events out as JSON objects, field by field and in a fixed order.
//!
//! The text of every string, number and array is serde_json's. The braces,
//! commas and colons that make an object of them are written here, in the
//! compact form, so that an event goes into the buffer without a tree being
//! built of it first.

use crate::event::cow_bytes;
use crate::event::cow_text;
use crate::event::lemma_fields_model;
use crate::event::meta_view;
use crate::event::tags_view;
use crate::event::Event;
use crate::event::LogstashEvent;
use crate::event::MetaModel;
use crate::event::MetaValue;
use crate::event::Payload;
use crate::event::PayloadModel;
use vstd::prelude::*;

verus! {

pub const OPEN_BRACE: u8 = 0x7b;

pub const CLOSE_BRACE: u8 = 0x7d;

pub const COMMA: u8 = 0x2c;

pub const COLON: u8 = 0x3a;

/// serde_json's `Error`: it is handed on as it came.
#[verifier::external_type_specification]
#[verifier::external_body]
pub struct ExJsonError(serde_json::Error);

/// What serde_json writes for a string: its JSON text, in double quotes
/// and with its escapes; none where serde_json refuses the string.
pub uninterp spec fn serde_text(text: Seq<char>) -> Option<Seq<u8>>;

/// What serde_json writes for a number: its JSON text; none where
/// serde_json refuses the number.
pub uninterp spec fn serde_number(number: u64) -> Option<Seq<u8>>;

/// What serde_json writes for a run of bytes: an array of numbers; none
/// where serde_json refuses the bytes.
pub uninterp spec fn serde_bytes(bytes: Seq<u8>) -> Option<Seq<u8>>;

/// What serde_json writes for a list of strings: an array of strings; none
/// where serde_json refuses the list.
pub uninterp spec fn serde_texts(texts: Seq<Seq<char>>) -> Option<Seq<u8>>;

/// The bytes that were written, where any were.
pub open spec fn written(outcome: Option<Seq<u8>>) -> Seq<u8> {
    match outcome {
        Some(bytes) => bytes,
        None => Seq::empty(),
    }
}

/// The JSON text of a string, as serde_json writes it.
pub open spec fn json_text(text: Seq<char>) -> Seq<u8> {
    written(serde_text(text))
}

/// The JSON text of a number, as serde_json writes it.
pub open spec fn json_number(number: u64) -> Seq<u8> {
    written(serde_number(number))
}

/// The JSON text of a run of bytes, as serde_json writes it.
pub open spec fn json_bytes(bytes: Seq<u8>) -> Seq<u8> {
    written(serde_bytes(bytes))
}

/// The JSON text of a list of strings, as serde_json writes it.
pub open spec fn json_texts(texts: Seq<Seq<char>>) -> Seq<u8> {
    written(serde_texts(texts))
}

/// Calls `serde_json::to_writer` on a vector and a string. Whether the
/// call succeeds, and the text it appends where it does, depend on the
/// string alone: serde_json fails only where the writer fails or the value
/// refuses to be written, and hands the writer nothing but the text. The
/// writer is a vector, which only grows at its end, so what was in it
/// stays in front whatever comes back.
#[verifier::external_body]
fn write_text(out: &mut Vec<u8>, text: &str) -> (r: Result<(), serde_json::Error>)
    ensures
        r is Ok <==> serde_text(text@) is Some,
        r is Ok ==> final(out)@ == old(out)@ + json_text(text@),
        old(out)@.is_prefix_of(final(out)@),
{
    serde_json::to_writer(out, text)
}

/// Calls `serde_json::to_writer` on a vector and a number. Whether the
/// call succeeds, and the text it appends where it does, depend on the
/// number alone. What was in the vector stays in front whatever comes back.
#[verifier::external_body]
fn write_number(out: &mut Vec<u8>, number: u64) -> (r: Result<(), serde_json::Error>)
    ensures
        r is Ok <==> serde_number(number) is Some,
        r is Ok ==> final(out)@ == old(out)@ + json_number(number),
        old(out)@.is_prefix_of(final(out)@),
{
    serde_json::to_writer(out, &number)
}

/// Calls `serde_json::to_writer` on a vector and a slice of bytes. Whether
/// the call succeeds, and the text it appends where it does, depend on the
/// bytes alone. What was in the vector stays in front whatever comes back.
#[verifier::external_body]
fn write_bytes(out: &mut Vec<u8>, bytes: &[u8]) -> (r: Result<(), serde_json::Error>)
    ensures
        r is Ok <==> serde_bytes(bytes@) is Some,
        r is Ok ==> final(out)@ == old(out)@ + json_bytes(bytes@),
        old(out)@.is_prefix_of(final(out)@),
{
    serde_json::to_writer(out, bytes)
}

/// Calls `serde_json::to_writer` on a vector and a list of strings.
/// Whether the call succeeds, and the text it appends where it does,
/// depend on the strings alone. What was in the vector stays in front
/// whatever comes back.
#[verifier::external_body]
fn write_texts(out: &mut Vec<u8>, texts: &Vec<&'static str>) -> (r: Result<
    (),
    serde_json::Error,
>)
    ensures
        r is Ok <==> serde_texts(tags_view(texts@)) is Some,
        r is Ok ==> final(out)@ == old(out)@ + json_texts(tags_view(texts@)),
        old(out)@.is_prefix_of(final(out)@),
{
    serde_json::to_writer(out, texts)
}

/// Whether a string can be written.
pub open spec fn can_write_text(text: Seq<char>) -> bool {
    serde_text(text) is Some
}

/// Whether a meta value can be written: every name and every value in it.
pub open spec fn can_write_meta(value: MetaModel) -> bool
    decreases value,
{
    match value {
        MetaModel::String(text) => can_write_text(text),
        MetaModel::U64(number) => serde_number(number) is Some,
        MetaModel::Object(fields) => can_write_fields(fields, fields.len()),
    }
}

/// Whether the first `n` fields of a list can be written.
pub open spec fn can_write_fields(fields: Seq<(Seq<char>, MetaModel)>, n: nat) -> bool
    decreases fields, n,
{
    if n == 0 || n > fields.len() {
        true
    } else {
        can_write_fields(fields, (n - 1) as nat) && can_write_text(fields[n - 1].0)
            && can_write_meta(fields[n - 1].1)
    }
}

/// Whether the field that carries the payload can be written.
pub open spec fn can_write_payload(payload: Option<PayloadModel>) -> bool {
    match payload {
        Some(PayloadModel::String(text)) => can_write_text("message"@) && can_write_text(text),
        Some(PayloadModel::Data(bytes)) => can_write_text("data"@) && serde_bytes(bytes) is Some,
        None => true,
    }
}

/// Whether the field `message` of a Logstash event can be written.
pub open spec fn can_write_message(message: Option<Seq<char>>) -> bool {
    match message {
        Some(text) => can_write_text("message"@) && can_write_text(text),
        None => true,
    }
}

/// Whether a plain event can be written: each of its names and values.
pub open spec fn can_write_event(
    id: Seq<char>,
    source: Seq<char>,
    timestamp: Seq<char>,
    payload: Option<PayloadModel>,
    meta: Seq<(Seq<char>, MetaModel)>,
) -> bool {
    &&& can_write_text("id"@)
    &&& can_write_text(id)
    &&& can_write_text("source"@)
    &&& can_write_text(source)
    &&& can_write_text("timestamp"@)
    &&& can_write_text(timestamp)
    &&& can_write_payload(payload)
    &&& can_write_fields(meta, meta.len())
}

/// Whether a Logstash event can be written: each of its names and values.
pub open spec fn can_write_logstash_event(
    timestamp: Seq<char>,
    version: Seq<char>,
    message: Option<Seq<char>>,
    event_type: Seq<char>,
    tags: Seq<Seq<char>>,
    processed: Seq<char>,
    id: Seq<char>,
    fields: Seq<(Seq<char>, MetaModel)>,
) -> bool {
    &&& can_write_text("@timestamp"@)
    &&& can_write_text(timestamp)
    &&& can_write_text("@version"@)
    &&& can_write_text(version)
    &&& can_write_message(message)
    &&& can_write_text("type"@)
    &&& can_write_text(event_type)
    &&& can_write_text("tags"@)
    &&& serde_texts(tags) is Some
    &&& can_write_text("@processed"@)
    &&& can_write_text(processed)
    &&& can_write_text("@id"@)
    &&& can_write_text(id)
    &&& can_write_fields(fields, fields.len())
}

/// Where one of the first `n` fields of a list cannot be written, the
/// first `n` cannot.
pub proof fn lemma_field_refused(fields: Seq<(Seq<char>, MetaModel)>, at: int, n: nat)
    requires
        0 <= at < n <= fields.len(),
        !(can_write_text(fields[at].0) && can_write_meta(fields[at].1)),
    ensures
        !can_write_fields(fields, n),
    decreases n,
{
    if at < n - 1 {
        lemma_field_refused(fields, at, (n - 1) as nat);
    }
}

/// What stands before the value of a field: a comma unless the field is
/// the first of its object, the name, and a colon.
pub open spec fn entry_head(fresh: bool, key: Seq<char>) -> Seq<u8> {
    (if fresh {
        Seq::<u8>::empty()
    } else {
        seq![COMMA]
    }) + json_text(key) + seq![COLON]
}

/// The JSON text of a meta value: objects within objects.
pub open spec fn meta_json(value: MetaModel) -> Seq<u8>
    decreases value,
{
    match value {
        MetaModel::String(text) => json_text(text),
        MetaModel::U64(number) => json_number(number),
        MetaModel::Object(fields) => seq![OPEN_BRACE] + fields_json(fields, fields.len(), true)
            + seq![CLOSE_BRACE],
    }
}

/// The JSON text of the first `n` fields of a list, in their order, inside
/// an object that is still empty where `fresh` says so.
pub open spec fn fields_json(fields: Seq<(Seq<char>, MetaModel)>, n: nat, fresh: bool) -> Seq<u8>
    decreases fields, n,
{
    if n == 0 || n > fields.len() {
        Seq::empty()
    } else {
        fields_json(fields, (n - 1) as nat, fresh) + entry_head(fresh && n == 1, fields[n - 1].0)
            + meta_json(fields[n - 1].1)
    }
}

/// The field that carries the payload: `message` for text, `data` for
/// bytes, nothing where there is no payload.
pub open spec fn payload_json(payload: Option<PayloadModel>) -> Seq<u8> {
    match payload {
        Some(PayloadModel::String(text)) => entry_head(false, "message"@) + json_text(text),
        Some(PayloadModel::Data(bytes)) => entry_head(false, "data"@) + json_bytes(bytes),
        None => Seq::empty(),
    }
}

/// The field `message` of a Logstash event, where it has a message.
pub open spec fn message_json(message: Option<Seq<char>>) -> Seq<u8> {
    match message {
        Some(text) => entry_head(false, "message"@) + json_text(text),
        None => Seq::empty(),
    }
}

/// The JSON object of a plain event: `id`, `source`, `timestamp`, the
/// payload, and then each meta field.
pub open spec fn event_json(
    id: Seq<char>,
    source: Seq<char>,
    timestamp: Seq<char>,
    payload: Option<PayloadModel>,
    meta: Seq<(Seq<char>, MetaModel)>,
) -> Seq<u8> {
    seq![OPEN_BRACE] + entry_head(true, "id"@) + json_text(id) + entry_head(false, "source"@)
        + json_text(source) + entry_head(false, "timestamp"@) + json_text(timestamp)
        + payload_json(payload) + fields_json(meta, meta.len(), false) + seq![CLOSE_BRACE]
}

/// The JSON object of a Logstash event: `@timestamp`, `@version`, the
/// message where there is one, `type`, `tags`, `@processed`, `@id`, and
/// then each further field.
pub open spec fn logstash_json(
    timestamp: Seq<char>,
    version: Seq<char>,
    message: Option<Seq<char>>,
    event_type: Seq<char>,
    tags: Seq<Seq<char>>,
    processed: Seq<char>,
    id: Seq<char>,
    fields: Seq<(Seq<char>, MetaModel)>,
) -> Seq<u8> {
    seq![OPEN_BRACE] + entry_head(true, "@timestamp"@) + json_text(timestamp) + entry_head(
        false,
        "@version"@,
    ) + json_text(version) + message_json(message) + entry_head(false, "type"@) + json_text(
        event_type,
    ) + entry_head(false, "tags"@) + json_texts(tags) + entry_head(false, "@processed"@)
        + json_text(processed) + entry_head(false, "@id"@) + json_text(id) + fields_json(
        fields,
        fields.len(),
        false,
    ) + seq![CLOSE_BRACE]
}

/// A buffer that grew and grew again still starts with what it held at
/// first.
pub proof fn lemma_grown(start: Seq<u8>, before: Seq<u8>, after: Seq<u8>)
    requires
        start.is_prefix_of(before),
        before.is_prefix_of(after),
    ensures
        start.is_prefix_of(after),
{
    assert(start =~= after.subrange(0, start.len() as int)) by {
        assert(forall|i: int| 0 <= i < start.len() ==> start[i] == before[i]);
        assert(forall|i: int| 0 <= i < before.len() ==> before[i] == after[i]);
    }
}

/// A buffer with more bytes behind it starts with what it held.
pub proof fn lemma_grown_by(before: Seq<u8>, more: Seq<u8>)
    ensures
        before.is_prefix_of(before + more),
        before.is_prefix_of(before),
{
    assert(before =~= (before + more).subrange(0, before.len() as int));
    assert(before =~= before.subrange(0, before.len() as int));
}

/// Writes what stands before the value of a field. It fails exactly
/// where serde_json refuses the name. Whatever comes back, what the buffer
/// held stays in front of what was written.
pub fn write_key(out: &mut Vec<u8>, fresh: bool, key: &str) -> (r: Result<(), serde_json::Error>)
    ensures
        r is Ok <==> can_write_text(key@),
        r is Ok ==> final(out)@ == old(out)@ + entry_head(fresh, key@),
        old(out)@.is_prefix_of(final(out)@),
{
    let ghost start = out@;
    if !fresh {
        out.push(COMMA);
    }
    match write_text(out, key) {
        Ok(()) => {},
        Err(e) => {
            return Err(e);
        },
    }
    out.push(COLON);
    proof {
        assert(out@ =~= start + entry_head(fresh, key@));
    }
    Ok(())
}

/// Writes a field whose value is text. It fails exactly where serde_json
/// refuses the name or the text.
pub fn write_text_field(out: &mut Vec<u8>, fresh: bool, key: &str, text: &str) -> (r: Result<
    (),
    serde_json::Error,
>)
    ensures
        r is Ok <==> can_write_text(key@) && can_write_text(text@),
        r is Ok ==> final(out)@ == old(out)@ + entry_head(fresh, key@) + json_text(text@),
        old(out)@.is_prefix_of(final(out)@),
{
    match write_key(out, fresh, key) {
        Ok(()) => write_text(out, text),
        Err(e) => Err(e),
    }
}

/// Writes a meta value. It fails exactly where serde_json refuses a name
/// or a value in it.
pub fn write_meta(out: &mut Vec<u8>, value: &MetaValue) -> (r: Result<(), serde_json::Error>)
    ensures
        r is Ok <==> can_write_meta(value.model()),
        r is Ok ==> final(out)@ == old(out)@ + meta_json(value.model()),
        old(out)@.is_prefix_of(final(out)@),
    decreases value,
{
    match value {
        MetaValue::String(text) => write_text(out, text),
        MetaValue::U64(number) => write_number(out, *number),
        MetaValue::Object(fields) => {
            let ghost start = out@;
            out.push(OPEN_BRACE);
            proof {
                lemma_fields_model(fields@, fields@.len());
            }
            match write_fields(out, fields, true) {
                Ok(()) => {},
                Err(e) => {
                    return Err(e);
                },
            }
            out.push(CLOSE_BRACE);
            proof {
                assert(out@ =~= start + meta_json(value.model()));
            }
            Ok(())
        },
    }
}

/// Writes the fields of a list, in their order, into an object that is
/// still empty where `fresh` says so. It fails exactly where serde_json
/// refuses a name or a value of the list, and stops at the first such.
pub fn write_fields(out: &mut Vec<u8>, fields: &Vec<(&str, MetaValue)>, fresh: bool) -> (r: Result<
    (),
    serde_json::Error,
>)
    ensures
        r is Ok <==> can_write_fields(meta_view(fields@), fields@.len()),
        r is Ok ==> final(out)@ == old(out)@ + fields_json(
            meta_view(fields@),
            fields@.len(),
            fresh,
        ),
        old(out)@.is_prefix_of(final(out)@),
    decreases fields,
{
    let ghost start = out@;
    let mut at: usize = 0;
    proof {
        assert(out@ =~= start + fields_json(meta_view(fields@), 0, fresh));
        lemma_fields_model(fields@, fields@.len());
    }
    while at < fields.len()
        invariant
            at <= fields.len(),
            start == old(out)@,
            out@ == start + fields_json(meta_view(fields@), at as nat, fresh),
            can_write_fields(meta_view(fields@), at as nat),
            meta_view(fields@).len() == fields@.len(),
            forall|i: int|
                0 <= i < fields@.len() ==> #[trigger] meta_view(fields@)[i] == (
                    fields@[i].0@,
                    fields@[i].1.model(),
                ),
        decreases fields.len() - at,
    {
        let ghost before = out@;
        proof {
            lemma_grown_by(start, fields_json(meta_view(fields@), at as nat, fresh));
        }
        match write_key(out, fresh && at == 0, fields[at].0) {
            Ok(()) => {},
            Err(e) => {
                proof {
                    lemma_field_refused(meta_view(fields@), at as int, fields@.len());
                    lemma_grown(start, before, out@);
                }
                return Err(e);
            },
        }
        let ghost named = out@;
        proof {
            lemma_grown(start, before, named);
        }
        match write_meta(out, &fields[at].1) {
            Ok(()) => {},
            Err(e) => {
                proof {
                    lemma_field_refused(meta_view(fields@), at as int, fields@.len());
                    lemma_grown(start, named, out@);
                }
                return Err(e);
            },
        }
        proof {
            let model = meta_view(fields@);
            assert(model[at as int] == (fields@[at as int].0@, fields@[at as int].1.model()));
            assert(out@ =~= start + fields_json(model, (at + 1) as nat, fresh));
        }
        at = at + 1;
    }
    Ok(())
}

/// Writes the field that carries the payload. It fails exactly where
/// serde_json refuses the name or the payload.
pub fn write_payload(out: &mut Vec<u8>, payload: &Option<Payload>) -> (r: Result<
    (),
    serde_json::Error,
>)
    ensures
        r is Ok <==> can_write_payload(crate::event::payload_view(*payload)),
        r is Ok ==> final(out)@ == old(out)@ + payload_json(crate::event::payload_view(*payload)),
        old(out)@.is_prefix_of(final(out)@),
{
    let ghost start = out@;
    match payload {
        Some(Payload::String(text)) => write_text_field(out, false, "message", cow_text(text)),
        Some(Payload::Data(bytes)) => {
            match write_key(out, false, "data") {
                Ok(()) => write_bytes(out, cow_bytes(bytes)),
                Err(e) => Err(e),
            }
        },
        None => {
            proof {
                assert(out@ =~= start + Seq::<u8>::empty());
            }
            Ok(())
        },
    }
}

/// Writes the JSON object of a plain event from its parts. It fails
/// exactly where serde_json refuses one of the names or values. Whatever
/// comes back, what the buffer held stays in front of what was written.
pub fn write_event(
    out: &mut Vec<u8>,
    id: &str,
    source: &str,
    timestamp: &str,
    payload: &Option<Payload>,
    meta: &Vec<(&str, MetaValue)>,
) -> (r: Result<(), serde_json::Error>)
    ensures
        r is Ok <==> can_write_event(
            id@,
            source@,
            timestamp@,
            crate::event::payload_view(*payload),
            meta_view(meta@),
        ),
        r is Ok ==> final(out)@ == old(out)@ + event_json(
            id@,
            source@,
            timestamp@,
            crate::event::payload_view(*payload),
            meta_view(meta@),
        ),
        old(out)@.is_prefix_of(final(out)@),
{
    let ghost start = out@;
    out.push(OPEN_BRACE);
    match write_text_field(out, true, "id", id) {
        Ok(()) => {},
        Err(e) => {
            return Err(e);
        },
    }
    match write_text_field(out, false, "source", source) {
        Ok(()) => {},
        Err(e) => {
            return Err(e);
        },
    }
    match write_text_field(out, false, "timestamp", timestamp) {
        Ok(()) => {},
        Err(e) => {
            return Err(e);
        },
    }
    match write_payload(out, payload) {
        Ok(()) => {},
        Err(e) => {
            return Err(e);
        },
    }
    proof {
        lemma_fields_model(meta@, meta@.len());
    }
    match write_fields(out, meta, false) {
        Ok(()) => {},
        Err(e) => {
            return Err(e);
        },
    }
    out.push(CLOSE_BRACE);
    proof {
        assert(out@ =~= start + event_json(
            id@,
            source@,
            timestamp@,
            crate::event::payload_view(*payload),
            meta_view(meta@),
        ));
    }
    Ok(())
}

/// Appending in two steps is appending the two pieces joined.
pub proof fn lemma_append(a: Seq<u8>, b: Seq<u8>, c: Seq<u8>)
    ensures
        (a + b) + c == a + (b + c),
{
    assert((a + b) + c =~= a + (b + c));
}

/// Appending a field is appending its two parts, one after the other.
pub proof fn lemma_append_field(a: Seq<u8>, b: Seq<u8>, head: Seq<u8>, value: Seq<u8>)
    ensures
        ((a + b) + head) + value == a + ((b + head) + value),
        ((a + b) + head) + value == a + (b + (head + value)),
{
    assert(((a + b) + head) + value =~= a + ((b + head) + value));
    assert(((a + b) + head) + value =~= a + (b + (head + value)));
}

/// Writes the JSON object of a Logstash event from its parts. It fails
/// exactly where serde_json refuses one of the names or values. Whatever
/// comes back, what the buffer held stays in front of what was written.
pub fn write_logstash_event(
    out: &mut Vec<u8>,
    timestamp: &str,
    version: &str,
    message: &Option<std::borrow::Cow<str>>,
    event_type: &str,
    tags: &Vec<&'static str>,
    processed: &str,
    id: &str,
    fields: &Vec<(&str, MetaValue)>,
) -> (r: Result<(), serde_json::Error>)
    ensures
        r is Ok <==> can_write_logstash_event(
            timestamp@,
            version@,
            crate::event::message_text(*message),
            event_type@,
            tags_view(tags@),
            processed@,
            id@,
            meta_view(fields@),
        ),
        r is Ok ==> final(out)@ == old(out)@ + logstash_json(
            timestamp@,
            version@,
            crate::event::message_text(*message),
            event_type@,
            tags_view(tags@),
            processed@,
            id@,
            meta_view(fields@),
        ),
        old(out)@.is_prefix_of(final(out)@),
{
    let ghost start = out@;
    let ghost mut done: Seq<u8> = seq![OPEN_BRACE];
    out.push(OPEN_BRACE);
    assert(out@ == start + done) by {
        assert(out@ =~= start + done);
    }
    match write_text_field(out, true, "@timestamp", timestamp) {
        Ok(()) => {},
        Err(e) => {
            return Err(e);
        },
    }
    proof {
        lemma_append_field(start, done, entry_head(true, "@timestamp"@), json_text(timestamp@));
        done = done + entry_head(true, "@timestamp"@) + json_text(timestamp@);
    }
    match write_text_field(out, false, "@version", version) {
        Ok(()) => {},
        Err(e) => {
            return Err(e);
        },
    }
    proof {
        lemma_append_field(start, done, entry_head(false, "@version"@), json_text(version@));
        done = done + entry_head(false, "@version"@) + json_text(version@);
    }
    match message {
        Some(text) => {
            match write_text_field(out, false, "message", cow_text(text)) {
                Ok(()) => {},
                Err(e) => {
                    return Err(e);
                },
            }
            proof {
                lemma_append_field(start, done, entry_head(false, "message"@), json_text(text@));
            }
        },
        None => {
            proof {
                assert(done + Seq::<u8>::empty() =~= done);
            }
        },
    }
    proof {
        done = done + message_json(crate::event::message_text(*message));
    }
    assert(out@ == start + done);
    match write_text_field(out, false, "type", event_type) {
        Ok(()) => {},
        Err(e) => {
            return Err(e);
        },
    }
    proof {
        lemma_append_field(start, done, entry_head(false, "type"@), json_text(event_type@));
        done = done + entry_head(false, "type"@) + json_text(event_type@);
    }
    match write_key(out, false, "tags") {
        Ok(()) => {},
        Err(e) => {
            return Err(e);
        },
    }
    match write_texts(out, tags) {
        Ok(()) => {},
        Err(e) => {
            return Err(e);
        },
    }
    proof {
        lemma_append_field(start, done, entry_head(false, "tags"@), json_texts(tags_view(tags@)));
        done = done + entry_head(false, "tags"@) + json_texts(tags_view(tags@));
    }
    match write_text_field(out, false, "@processed", processed) {
        Ok(()) => {},
        Err(e) => {
            return Err(e);
        },
    }
    proof {
        lemma_append_field(start, done, entry_head(false, "@processed"@), json_text(processed@));
        done = done + entry_head(false, "@processed"@) + json_text(processed@);
    }
    match write_text_field(out, false, "@id", id) {
        Ok(()) => {},
        Err(e) => {
            return Err(e);
        },
    }
    proof {
        lemma_append_field(start, done, entry_head(false, "@id"@), json_text(id@));
        done = done + entry_head(false, "@id"@) + json_text(id@);
    }
    assert(out@ == start + done);
    proof {
        lemma_fields_model(fields@, fields@.len());
    }
    match write_fields(out, fields, false) {
        Ok(()) => {},
        Err(e) => {
            return Err(e);
        },
    }
    proof {
        let tail = fields_json(meta_view(fields@), meta_view(fields@).len(), false);
        lemma_append(start, done, tail);
        done = done + tail;
    }
    let ghost before = out@;
    out.push(CLOSE_BRACE);
    proof {
        assert(out@ =~= before + seq![CLOSE_BRACE]);
        lemma_append(start, done, seq![CLOSE_BRACE]);
        done = done + seq![CLOSE_BRACE];
    }
    Ok(())
}

/// A way to write events of one kind into a buffer of bytes.
pub trait Serializer<T> {
    type Error;

    /// The events that the serializer takes.
    spec fn accepts(event: &T) -> bool;

    /// Whether `text` is a rendering of the event.
    spec fn renders(event: &T, text: Seq<u8>) -> bool;

    /// Whether the event has a form that the serializer cannot render.
    spec fn refuses(event: &T) -> bool;

    /// Whether the serializer takes the event.
    fn takes(event: &T) -> (ok: bool)
        ensures
            ok == Self::accepts(event),
    ;

    /// Appends a rendering of the event to `out` and hands the buffer
    /// back. It fails only on an event that it cannot render, and then the
    /// buffer is gone.
    fn serialize(event: &T, out: Vec<u8>) -> (r: Result<Vec<u8>, Self::Error>)
        requires
            Self::accepts(event),
        ensures
            r matches Ok(written) ==> exists|text: Seq<u8>|
                #![auto]
                Self::renders(event, text) && written@ == out@ + text,
            r is Err ==> Self::refuses(event),
    ;
}

/// Writes an event as a JSON object of its id, source, timestamp, payload
/// and meta fields.
#[derive(Default)]
pub struct JsonEventSerializer;

/// Writes an event as the JSON object that Logstash expects.
#[derive(Default)]
pub struct JsonLogstashEventSerializer;

impl<T: Event> Serializer<T> for JsonEventSerializer {
    type Error = serde_json::Error;

    open spec fn accepts(event: &T) -> bool {
        event.event_wf()
    }

    open spec fn renders(event: &T, text: Seq<u8>) -> bool {
        exists|id: Seq<char>|
            #![auto]
            event.event_id_is(id) && can_write_event(
                id,
                event.event_source(),
                event.event_timestamp().text(),
                event.event_payload(),
                event.event_meta(),
            ) && text == event_json(
                id,
                event.event_source(),
                event.event_timestamp().text(),
                event.event_payload(),
                event.event_meta(),
            )
    }

    open spec fn refuses(event: &T) -> bool {
        exists|id: Seq<char>|
            #![auto]
            event.event_id_is(id) && !can_write_event(
                id,
                event.event_source(),
                event.event_timestamp().text(),
                event.event_payload(),
                event.event_meta(),
            )
    }

    fn takes(event: &T) -> (ok: bool) {
        event.event_ok()
    }

    fn serialize(event: &T, out: Vec<u8>) -> (r: Result<Vec<u8>, serde_json::Error>) {
        let mut written = out;
        let id = event.id();
        let source = event.source();
        let timestamp = event.timestamp().to_rfc3339();
        let payload = event.payload();
        let meta = event.meta();
        match write_event(
            &mut written,
            cow_text(&id),
            cow_text(&source),
            timestamp.as_str(),
            &payload,
            &meta,
        ) {
            Ok(()) => {
                proof {
                    let text = event_json(
                        id@,
                        event.event_source(),
                        event.event_timestamp().text(),
                        event.event_payload(),
                        event.event_meta(),
                    );
                    assert(Self::renders(event, text));
                }
                Ok(written)
            },
            Err(e) => {
                proof {
                    assert(Self::refuses(event));
                }
                Err(e)
            },
        }
    }
}

impl<T: LogstashEvent> Serializer<T> for JsonLogstashEventSerializer {
    type Error = serde_json::Error;

    open spec fn accepts(event: &T) -> bool {
        event.logstash_wf()
    }

    open spec fn renders(event: &T, text: Seq<u8>) -> bool {
        exists|id: Seq<char>|
            #![auto]
            event.logstash_id_is(id) && can_write_logstash_event(
                event.logstash_timestamp().text(),
                event.logstash_version(),
                event.logstash_message(),
                event.logstash_type(),
                event.logstash_tags(),
                event.logstash_processed().text(),
                id,
                event.logstash_fields(),
            ) && text == logstash_json(
                event.logstash_timestamp().text(),
                event.logstash_version(),
                event.logstash_message(),
                event.logstash_type(),
                event.logstash_tags(),
                event.logstash_processed().text(),
                id,
                event.logstash_fields(),
            )
    }

    open spec fn refuses(event: &T) -> bool {
        exists|id: Seq<char>|
            #![auto]
            event.logstash_id_is(id) && !can_write_logstash_event(
                event.logstash_timestamp().text(),
                event.logstash_version(),
                event.logstash_message(),
                event.logstash_type(),
                event.logstash_tags(),
                event.logstash_processed().text(),
                id,
                event.logstash_fields(),
            )
    }

    fn takes(event: &T) -> (ok: bool) {
        event.logstash_ok()
    }

    fn serialize(event: &T, out: Vec<u8>) -> (r: Result<Vec<u8>, serde_json::Error>) {
        let mut written = out;
        let timestamp = event.timestamp().to_rfc3339();
        let message = event.message();
        let tags = event.tags();
        let processed = event.processed().to_rfc3339();
        let id = event.id();
        let fields = event.fields();
        match write_logstash_event(
            &mut written,
            timestamp.as_str(),
            event.version(),
            &message,
            event.event_type(),
            &tags,
            processed.as_str(),
            cow_text(&id),
            &fields,
        ) {
            Ok(()) => {
                proof {
                    let text = logstash_json(
                        event.logstash_timestamp().text(),
                        event.logstash_version(),
                        event.logstash_message(),
                        event.logstash_type(),
                        event.logstash_tags(),
                        event.logstash_processed().text(),
                        id@,
                        event.logstash_fields(),
                    );
                    assert(Self::renders(event, text));
                }
                Ok(written)
            },
            Err(e) => {
                proof {
                    assert(Self::refuses(event));
                }
                Err(e)
            },
        }
    }
}

/// Whether one run of bytes stands somewhere inside another.
pub open spec fn occurs_in(part: Seq<u8>, whole: Seq<u8>) -> bool {
    exists|at: int|
        0 <= at && at + part.len() <= whole.len() && #[trigger] whole.subrange(
            at,
            at + part.len(),
        ) == part
}

/// What stands between two runs of bytes stands inside the whole.
pub proof fn lemma_occurs_between(before: Seq<u8>, part: Seq<u8>, after: Seq<u8>)
    ensures
        occurs_in(part, before + part + after),
{
    let whole = before + part + after;
    let at = before.len() as int;
    assert(whole.subrange(at, at + part.len()) =~= part);
}

/// In an object of seven fields with something between the second and the
/// third, the first, third, fourth and last field each stand inside the
/// whole, head and value together.
pub proof fn lemma_fields_occur(
    open: Seq<u8>,
    h1: Seq<u8>,
    v1: Seq<u8>,
    h2: Seq<u8>,
    v2: Seq<u8>,
    between: Seq<u8>,
    h3: Seq<u8>,
    v3: Seq<u8>,
    h4: Seq<u8>,
    v4: Seq<u8>,
    h5: Seq<u8>,
    v5: Seq<u8>,
    h6: Seq<u8>,
    v6: Seq<u8>,
    rest: Seq<u8>,
    close: Seq<u8>,
)
    ensures
        ({
            let whole = open + h1 + v1 + h2 + v2 + between + h3 + v3 + h4 + v4 + h5 + v5 + h6
                + v6 + rest + close;
            &&& occurs_in(h1 + v1, whole)
            &&& occurs_in(h3 + v3, whole)
            &&& occurs_in(h4 + v4, whole)
            &&& occurs_in(h6 + v6, whole)
        }),
{
    let whole = open + h1 + v1 + h2 + v2 + between + h3 + v3 + h4 + v4 + h5 + v5 + h6 + v6 + rest
        + close;
    let a = open;
    let b = h1 + v1;
    let c = h2 + v2 + between;
    let d = h3 + v3;
    let e = h4 + v4;
    let f = h5 + v5;
    let g = h6 + v6;
    let h = rest + close;
    assert(whole =~= a + b + c + d + e + f + g + h);
    assert(whole =~= a + b + (c + d + e + f + g + h));
    lemma_occurs_between(a, b, c + d + e + f + g + h);
    assert(whole =~= (a + b + c) + d + (e + f + g + h));
    lemma_occurs_between(a + b + c, d, e + f + g + h);
    assert(whole =~= (a + b + c + d) + e + (f + g + h));
    lemma_occurs_between(a + b + c + d, e, f + g + h);
    assert(whole =~= (a + b + c + d + e + f) + g + h);
    lemma_occurs_between(a + b + c + d + e + f, g, h);
}

/// The JSON object of a Logstash event holds the fields `@timestamp`,
/// `type`, `tags` and `@id`, each with the value that the event gives.
pub proof fn lemma_logstash_json_holds(
    timestamp: Seq<char>,
    version: Seq<char>,
    message: Option<Seq<char>>,
    event_type: Seq<char>,
    tags: Seq<Seq<char>>,
    processed: Seq<char>,
    id: Seq<char>,
    fields: Seq<(Seq<char>, MetaModel)>,
)
    ensures
        ({
            let whole = logstash_json(
                timestamp,
                version,
                message,
                event_type,
                tags,
                processed,
                id,
                fields,
            );
            &&& occurs_in(entry_head(true, "@timestamp"@) + json_text(timestamp), whole)
            &&& occurs_in(entry_head(false, "type"@) + json_text(event_type), whole)
            &&& occurs_in(entry_head(false, "tags"@) + json_texts(tags), whole)
            &&& occurs_in(entry_head(false, "@id"@) + json_text(id), whole)
        }),
{
    lemma_fields_occur(
        seq![OPEN_BRACE],
        entry_head(true, "@timestamp"@),
        json_text(timestamp),
        entry_head(false, "@version"@),
        json_text(version),
        message_json(message),
        entry_head(false, "type"@),
        json_text(event_type),
        entry_head(false, "tags"@),
        json_texts(tags),
        entry_head(false, "@processed"@),
        json_text(processed),
        entry_head(false, "@id"@),
        json_text(id),
        fields_json(fields, fields.len(), false),
        seq![CLOSE_BRACE],
    );
}

} // verus!
