//! A syslog record as a plain event and as a Logstash event.

use crate::codec::syslog::Message;
use crate::codec::syslog::SyslogEvent;
use crate::codec::syslog::SyslogRecord;
use crate::event::lemma_fields_model;
use crate::event::lossy_text;
use crate::event::lossy_utf8;
use crate::event::meta_view;
use crate::event::Event;
use crate::event::LogstashEvent;
use crate::event::MetaModel;
use crate::event::MetaValue;
use crate::event::Payload;
use crate::event::PayloadModel;
use crate::time::Timestamp;
use std::borrow::Cow;
use uuid::Uuid;
use vstd::prelude::*;

verus! {

/// A digit of a number written in base sixteen with small letters.
pub open spec fn is_lower_hex(c: char) -> bool {
    ('0' <= c <= '9') || ('a' <= c <= 'f')
}

/// The shape of a generated id: 32 digits in base sixteen, no dashes.
pub open spec fn is_simple_uuid(id: Seq<char>) -> bool {
    &&& id.len() == 32
    &&& forall|i: int| 0 <= i < id.len() ==> is_lower_hex(#[trigger] id[i])
}

/// Calls uuid's `Uuid::new_v4` and writes the result in its simple form.
/// The value is random; every one is written as 32 digits in base sixteen
/// with small letters.
#[verifier::external_body]
fn fresh_id() -> (id: String)
    ensures
        is_simple_uuid(id@),
{
    Uuid::new_v4().simple().to_string()
}

/// The ids that a record may give: its message id where it has one, else
/// any generated id.
pub open spec fn syslog_id_is(record: SyslogRecord, id: Seq<char>) -> bool {
    match record.msg_id {
        Some(msg_id) => id == msg_id,
        None => is_simple_uuid(id),
    }
}

/// The payload of a record.
pub open spec fn syslog_payload(record: SyslogRecord) -> Option<PayloadModel> {
    match record.message {
        Some(crate::codec::syslog::MessageModel::String(text)) => Some(PayloadModel::String(text)),
        Some(crate::codec::syslog::MessageModel::MaybeString(bytes)) => Some(
            PayloadModel::Data(bytes),
        ),
        None => None,
    }
}

/// The message of a record as text: bytes are read as text as far as they
/// are text.
pub open spec fn syslog_message(record: SyslogRecord) -> Option<Seq<char>> {
    match record.message {
        Some(crate::codec::syslog::MessageModel::String(text)) => Some(text),
        Some(crate::codec::syslog::MessageModel::MaybeString(bytes)) => Some(lossy_utf8(bytes)),
        None => None,
    }
}

/// The field `program`, where the record names an application.
pub open spec fn program_field(record: SyslogRecord) -> Seq<(Seq<char>, MetaModel)> {
    match record.app_name {
        Some(name) => seq![("program"@, MetaModel::String(name))],
        None => Seq::empty(),
    }
}

/// The field `pid`, where the record names a process.
pub open spec fn pid_field(record: SyslogRecord) -> Seq<(Seq<char>, MetaModel)> {
    match record.proc_id {
        Some(id) => seq![("pid"@, MetaModel::String(id))],
        None => Seq::empty(),
    }
}

/// The further fields of a record, in their order: `logsource`, `severity`,
/// `facility`, and then `program` and `pid` where the record has them.
pub open spec fn syslog_fields(record: SyslogRecord) -> Seq<(Seq<char>, MetaModel)> {
    seq![
        ("logsource"@, MetaModel::String(record.hostname)),
        ("severity"@, MetaModel::String(record.severity.name_spec())),
        ("facility"@, MetaModel::String(record.facility.name_spec())),
    ] + program_field(record) + pid_field(record)
}

/// The one tag of a syslog event.
pub open spec fn syslog_tags() -> Seq<Seq<char>> {
    seq!["class:syslog"@]
}

impl SyslogEvent {
    /// The id of the event: the message id where the record has one, else
    /// a newly generated one.
    pub fn event_id(&self) -> (id: Cow<str>)
        ensures
            syslog_id_is(self@, id@),
    {
        match &self.msg_id {
            Some(msg_id) => Cow::Borrowed(msg_id.as_str()),
            None => Cow::Owned(fresh_id()),
        }
    }

    /// The further fields of the event, in their order.
    pub fn event_fields<'i>(&'i self) -> (fields: Vec<(&'i str, MetaValue<'i>)>)
        ensures
            meta_view(fields@) == syslog_fields(self@),
    {
        let mut fields: Vec<(&'i str, MetaValue<'i>)> = Vec::new();
        fields.push(("logsource", MetaValue::String(self.hostname.as_str())));
        fields.push(("severity", MetaValue::String(self.severity.name())));
        fields.push(("facility", MetaValue::String(self.facility.name())));
        match &self.app_name {
            Some(name) => {
                fields.push(("program", MetaValue::String(name.as_str())));
            },
            None => {},
        }
        match &self.proc_id {
            Some(id) => {
                fields.push(("pid", MetaValue::String(id.as_str())));
            },
            None => {},
        }
        proof {
            lemma_fields_model(fields@, fields@.len());
            assert(meta_view(fields@) =~= syslog_fields(self@));
        }
        fields
    }
}

impl Event for SyslogEvent {
    open spec fn event_wf(&self) -> bool {
        self.wf()
    }

    open spec fn event_id_is(&self, id: Seq<char>) -> bool {
        syslog_id_is(self@, id)
    }

    open spec fn event_source(&self) -> Seq<char> {
        self.hostname@
    }

    open spec fn event_timestamp(&self) -> Timestamp {
        Timestamp { offset: 0, ..self.timestamp }
    }

    open spec fn event_payload(&self) -> Option<PayloadModel> {
        syslog_payload(self@)
    }

    open spec fn event_meta(&self) -> Seq<(Seq<char>, MetaModel)> {
        syslog_fields(self@)
    }

    fn event_ok(&self) -> (ok: bool) {
        self.is_wf()
    }

    fn id(&self) -> (id: Cow<str>) {
        self.event_id()
    }

    fn source(&self) -> (source: Cow<str>) {
        Cow::Borrowed(self.hostname.as_str())
    }

    fn timestamp(&self) -> (t: Timestamp) {
        self.timestamp.to_utc()
    }

    fn payload(&self) -> (payload: Option<Payload>) {
        match &self.message {
            Some(Message::String(text)) => Some(Payload::String(Cow::Borrowed(text.as_str()))),
            Some(Message::MaybeString(bytes)) => Some(
                Payload::Data(Cow::Borrowed(bytes.as_slice())),
            ),
            None => None,
        }
    }

    fn meta<'i>(&'i self) -> (meta: Vec<(&'i str, MetaValue<'i>)>) {
        self.event_fields()
    }
}

impl LogstashEvent for SyslogEvent {
    open spec fn logstash_wf(&self) -> bool {
        self.wf()
    }

    open spec fn logstash_timestamp(&self) -> Timestamp {
        Timestamp { offset: 0, ..self.timestamp }
    }

    open spec fn logstash_version(&self) -> Seq<char> {
        "1"@
    }

    open spec fn logstash_message(&self) -> Option<Seq<char>> {
        syslog_message(self@)
    }

    open spec fn logstash_type(&self) -> Seq<char> {
        "syslog"@
    }

    open spec fn logstash_tags(&self) -> Seq<Seq<char>> {
        syslog_tags()
    }

    open spec fn logstash_processed(&self) -> Timestamp {
        self.processed
    }

    open spec fn logstash_id_is(&self, id: Seq<char>) -> bool {
        syslog_id_is(self@, id)
    }

    open spec fn logstash_fields(&self) -> Seq<(Seq<char>, MetaModel)> {
        syslog_fields(self@)
    }

    fn logstash_ok(&self) -> (ok: bool) {
        self.is_wf()
    }

    fn timestamp(&self) -> (t: Timestamp) {
        self.timestamp.to_utc()
    }

    fn version(&self) -> (version: &str) {
        crate::event::default_version()
    }

    fn message(&self) -> (message: Option<Cow<str>>) {
        match &self.message {
            Some(Message::String(text)) => Some(Cow::Borrowed(text.as_str())),
            Some(Message::MaybeString(bytes)) => Some(Cow::Owned(lossy_text(bytes.as_slice()))),
            None => None,
        }
    }

    fn event_type(&self) -> (name: &str) {
        "syslog"
    }

    fn tags(&self) -> (tags: Vec<&'static str>) {
        let mut tags: Vec<&'static str> = Vec::new();
        tags.push("class:syslog");
        proof {
            assert(crate::event::tags_view(tags@) =~= syslog_tags());
        }
        tags
    }

    fn processed(&self) -> (t: Timestamp) {
        self.processed
    }

    fn id(&self) -> (id: Cow<str>) {
        self.event_id()
    }

    fn fields<'i>(&'i self) -> (fields: Vec<(&'i str, MetaValue<'i>)>) {
        self.event_fields()
    }
}

/// Whatever record was read, each of its renderings for Logstash holds the
/// fields `@timestamp`, with the record's time in UTC; `type`, with the
/// value `syslog`; `tags`, with the one tag `class:syslog`; and `@id`, with
/// an id of the record.
pub proof fn lemma_logstash_projection(event: SyslogEvent, text: Seq<u8>)
    requires
        <crate::serialize::JsonLogstashEventSerializer as crate::serialize::Serializer<
            SyslogEvent,
        >>::renders(&event, text),
    ensures
        crate::serialize::occurs_in(
            crate::serialize::entry_head(true, "@timestamp"@) + crate::serialize::json_text(
                (Timestamp { offset: 0, ..event.timestamp }).text(),
            ),
            text,
        ),
        crate::serialize::occurs_in(
            crate::serialize::entry_head(false, "type"@) + crate::serialize::json_text("syslog"@),
            text,
        ),
        crate::serialize::occurs_in(
            crate::serialize::entry_head(false, "tags"@) + crate::serialize::json_texts(
                seq!["class:syslog"@],
            ),
            text,
        ),
        exists|id: Seq<char>|
            #![auto]
            syslog_id_is(event@, id) && crate::serialize::occurs_in(
                crate::serialize::entry_head(false, "@id"@) + crate::serialize::json_text(id),
                text,
            ),
{
    let id = choose|id: Seq<char>|
        #![auto]
        event.logstash_id_is(id) && text == crate::serialize::logstash_json(
            event.logstash_timestamp().text(),
            event.logstash_version(),
            event.logstash_message(),
            event.logstash_type(),
            event.logstash_tags(),
            event.logstash_processed().text(),
            id,
            event.logstash_fields(),
        );
    crate::serialize::lemma_logstash_json_holds(
        event.logstash_timestamp().text(),
        event.logstash_version(),
        event.logstash_message(),
        event.logstash_type(),
        event.logstash_tags(),
        event.logstash_processed().text(),
        id,
        event.logstash_fields(),
    );
}

} // verus!
