//! What an event has to offer to be written out: the plain event, and the
//! event as Logstash expects it.

use crate::time::Timestamp;
use maybe_string::MaybeStr;
use std::borrow::Cow;
use vstd::prelude::*;
use vstd::string::StringExecFns;
use vstd::utf8::decode_utf8;
use vstd::utf8::valid_utf8;

verus! {

/// The body of an event: text, or bytes that may or may not be text.
#[derive(Debug, PartialEq)]
pub enum Payload<'e> {
    String(Cow<'e, str>),
    Data(Cow<'e, [u8]>),
}

/// What a payload holds.
pub enum PayloadModel {
    String(Seq<char>),
    Data(Seq<u8>),
}

impl<'e> View for Payload<'e> {
    type V = PayloadModel;

    open spec fn view(&self) -> PayloadModel {
        match self {
            Payload::String(text) => PayloadModel::String(text@),
            Payload::Data(bytes) => PayloadModel::Data(bytes@),
        }
    }
}

/// What an optional payload holds.
pub open spec fn payload_view(payload: Option<Payload>) -> Option<PayloadModel> {
    match payload {
        Some(p) => Some(p@),
        None => None,
    }
}

/// The text that maybe-string's `MaybeStr::to_lossy_string` makes of bytes:
/// the text they encode, with a replacement character wherever they are not
/// UTF-8.
pub uninterp spec fn lossy_utf8(bytes: Seq<u8>) -> Seq<char>;

/// Calls `MaybeStr::to_lossy_string`, which is std's
/// `String::from_utf8_lossy`. The text depends on the bytes alone, and
/// bytes that are UTF-8 give the text they encode.
#[verifier::external_body]
pub(crate) fn lossy_text(bytes: &[u8]) -> (text: String)
    ensures
        text@ == lossy_utf8(bytes@),
        valid_utf8(bytes@) ==> text@ == decode_utf8(bytes@),
{
    MaybeStr::from_bytes(bytes).to_lossy_string()
}

impl<'e> Payload<'e> {
    /// What `to_text` writes.
    pub open spec fn text_spec(&self) -> Seq<char> {
        match self {
            Payload::String(text) => text@,
            Payload::Data(bytes) => "<DATA>"@ + lossy_utf8(bytes@),
        }
    }

    /// The payload for display: text as it is, bytes behind the word
    /// `<DATA>` and read as text as far as they are text.
    pub fn to_text(&self) -> (text: String)
        ensures
            text@ == self.text_spec(),
    {
        match self {
            Payload::String(text) => cow_text(text).to_owned(),
            Payload::Data(bytes) => {
                let mut text = String::from_str("<DATA>");
                let tail = lossy_text(cow_bytes(bytes));
                text.append(tail.as_str());
                text
            },
        }
    }
}

/// The text behind a `Cow`.
pub fn cow_text<'a>(text: &'a Cow<'_, str>) -> (r: &'a str)
    ensures
        r@ == text@,
{
    match text {
        Cow::Borrowed(borrowed) => borrowed,
        Cow::Owned(owned) => owned.as_str(),
    }
}

/// The bytes behind a `Cow`.
pub fn cow_bytes<'a>(bytes: &'a Cow<'_, [u8]>) -> (r: &'a [u8])
    ensures
        r@ == bytes@,
{
    match bytes {
        Cow::Borrowed(borrowed) => borrowed,
        Cow::Owned(owned) => owned.as_slice(),
    }
}

/// The value of a meta field: text, a number, or fields of its own.
#[derive(Debug, PartialEq)]
pub enum MetaValue<'i> {
    String(&'i str),
    U64(u64),
    Object(Vec<(&'i str, MetaValue<'i>)>),
}

/// What a meta value holds.
pub enum MetaModel {
    String(Seq<char>),
    U64(u64),
    Object(Seq<(Seq<char>, MetaModel)>),
}

impl<'i> MetaValue<'i> {
    /// What the value holds.
    pub open spec fn model(self) -> MetaModel
        decreases self,
    {
        match self {
            MetaValue::String(text) => MetaModel::String(text@),
            MetaValue::U64(number) => MetaModel::U64(number),
            MetaValue::Object(fields) => MetaModel::Object(
                fields_model(fields@, fields@.len()),
            ),
        }
    }
}

/// What the first `n` fields of a list hold, in their order.
pub open spec fn fields_model(fields: Seq<(&str, MetaValue)>, n: nat) -> Seq<
    (Seq<char>, MetaModel),
>
    decreases fields, n,
{
    if n == 0 || n > fields.len() {
        Seq::empty()
    } else {
        fields_model(fields, (n - 1) as nat).push(
            (fields[n - 1].0@, fields[n - 1].1.model()),
        )
    }
}

/// What a list of fields holds.
pub open spec fn meta_view(fields: Seq<(&str, MetaValue)>) -> Seq<(Seq<char>, MetaModel)> {
    fields_model(fields, fields.len())
}

/// The plain event.
pub trait Event {
    /// What the methods ask of the event.
    spec fn event_wf(&self) -> bool;

    /// Whether the event may give `id` as its id.
    spec fn event_id_is(&self, id: Seq<char>) -> bool;

    /// Where the event comes from.
    spec fn event_source(&self) -> Seq<char>;

    /// When the event happened, in UTC.
    spec fn event_timestamp(&self) -> Timestamp;

    /// The body of the event.
    spec fn event_payload(&self) -> Option<PayloadModel>;

    /// The further fields of the event, in their order.
    spec fn event_meta(&self) -> Seq<(Seq<char>, MetaModel)>;

    /// Whether the event meets what the other methods ask of it.
    fn event_ok(&self) -> (ok: bool)
        ensures
            ok == self.event_wf(),
    ;

    fn id(&self) -> (id: Cow<str>)
        requires
            self.event_wf(),
        ensures
            self.event_id_is(id@),
    ;

    fn source(&self) -> (source: Cow<str>)
        requires
            self.event_wf(),
        ensures
            source@ == self.event_source(),
    ;

    fn timestamp(&self) -> (t: Timestamp)
        requires
            self.event_wf(),
        ensures
            t == self.event_timestamp(),
            t.wf(),
            t.offset == 0,
    ;

    fn payload(&self) -> (payload: Option<Payload>)
        requires
            self.event_wf(),
        ensures
            payload_view(payload) == self.event_payload(),
    ;

    fn meta<'i>(&'i self) -> (meta: Vec<(&'i str, MetaValue<'i>)>)
        requires
            self.event_wf(),
        ensures
            meta_view(meta@) == self.event_meta(),
    ;
}

/// The texts of a list of tags.
pub open spec fn tags_view(tags: Seq<&'static str>) -> Seq<Seq<char>> {
    tags.map_values(|tag: &'static str| tag@)
}

/// The text of an optional message.
pub open spec fn message_text(message: Option<Cow<str>>) -> Option<Seq<char>> {
    match message {
        Some(text) => Some(text@),
        None => None,
    }
}

/// The event as Logstash expects it.
pub trait LogstashEvent {
    /// What the methods ask of the event.
    spec fn logstash_wf(&self) -> bool;

    /// When the event happened, in UTC.
    spec fn logstash_timestamp(&self) -> Timestamp;

    /// The version of the format.
    spec fn logstash_version(&self) -> Seq<char>;

    /// The message, where the event has one.
    spec fn logstash_message(&self) -> Option<Seq<char>>;

    /// The type of the event.
    spec fn logstash_type(&self) -> Seq<char>;

    /// The tags of the event, in their order.
    spec fn logstash_tags(&self) -> Seq<Seq<char>>;

    /// When the event was read, in UTC.
    spec fn logstash_processed(&self) -> Timestamp;

    /// Whether the event may give `id` as its id.
    spec fn logstash_id_is(&self, id: Seq<char>) -> bool;

    /// The further fields of the event, in their order.
    spec fn logstash_fields(&self) -> Seq<(Seq<char>, MetaModel)>;

    /// Whether the event meets what the other methods ask of it.
    fn logstash_ok(&self) -> (ok: bool)
        ensures
            ok == self.logstash_wf(),
    ;

    fn timestamp(&self) -> (t: Timestamp)
        requires
            self.logstash_wf(),
        ensures
            t == self.logstash_timestamp(),
            t.wf(),
            t.offset == 0,
    ;

    fn version(&self) -> (version: &str)
        requires
            self.logstash_wf(),
        ensures
            version@ == self.logstash_version(),
    ;

    fn message(&self) -> (message: Option<Cow<str>>)
        requires
            self.logstash_wf(),
        ensures
            message_text(message) == self.logstash_message(),
    ;

    fn event_type(&self) -> (name: &str)
        requires
            self.logstash_wf(),
        ensures
            name@ == self.logstash_type(),
    ;

    fn tags(&self) -> (tags: Vec<&'static str>)
        requires
            self.logstash_wf(),
        ensures
            tags_view(tags@) == self.logstash_tags(),
    ;

    fn processed(&self) -> (t: Timestamp)
        requires
            self.logstash_wf(),
        ensures
            t == self.logstash_processed(),
            t.wf(),
            t.offset == 0,
    ;

    fn id(&self) -> (id: Cow<str>)
        requires
            self.logstash_wf(),
        ensures
            self.logstash_id_is(id@),
    ;

    fn fields<'i>(&'i self) -> (fields: Vec<(&'i str, MetaValue<'i>)>)
        requires
            self.logstash_wf(),
        ensures
            meta_view(fields@) == self.logstash_fields(),
    ;
}

/// The version that an event gives where it has no reason for another.
pub fn default_version() -> (version: &'static str)
    ensures
        version@ == "1"@,
{
    "1"
}

/// The model of a list of fields has one entry for each field, with the
/// field's name and what its value holds.
pub proof fn lemma_fields_model(fields: Seq<(&str, MetaValue)>, n: nat)
    requires
        n <= fields.len(),
    ensures
        fields_model(fields, n).len() == n,
        forall|i: int|
            0 <= i < n ==> #[trigger] fields_model(fields, n)[i] == (
                fields[i].0@,
                fields[i].1.model(),
            ),
    decreases n,
{
    if n > 0 {
        lemma_fields_model(fields, (n - 1) as nat);
    }
}

} // verus!
