//! The debug port: each event on a line of its own, with its id, source
//! and time in front of its rendering.

use crate::codec::syslog::event::syslog_id_is;
use crate::codec::syslog::SyslogEvent;
use crate::event::cow_text;
use crate::event::Event;
use crate::serialize::Serializer;
use crate::time::Timestamp;
use std::borrow::Cow;
use vstd::prelude::*;
use vstd::string::StringExecFns;
use vstd::utf8::encode_utf8;

verus! {

pub const LINE_END: u8 = 0x0a;

/// What an event has to offer to go out through the debug port.
pub trait DebugPort {
    type Payload;

    /// What the methods ask of the event.
    spec fn port_wf(&self) -> bool;

    /// Whether the event may give `id` as its id.
    spec fn port_id_is(&self, id: Seq<char>) -> bool;

    /// When the event happened, in UTC.
    spec fn port_timestamp(&self) -> Timestamp;

    /// Where the event comes from.
    spec fn port_source(&self) -> Seq<char>;

    /// The part of the event that a serializer renders.
    spec fn port_payload(&self) -> &Self::Payload;

    /// Whether the event meets what the other methods ask of it.
    fn port_ok(&self) -> (ok: bool)
        ensures
            ok == self.port_wf(),
    ;

    /// The part of the event that a serializer renders.
    fn payload(&self) -> (payload: &Self::Payload)
        ensures
            payload == self.port_payload(),
    ;

    fn id(&self) -> (id: Cow<str>)
        requires
            self.port_wf(),
        ensures
            self.port_id_is(id@),
    ;

    fn timestamp(&self) -> (t: Timestamp)
        requires
            self.port_wf(),
        ensures
            t == self.port_timestamp(),
            t.wf(),
    ;

    fn source(&self) -> (source: Cow<str>)
        requires
            self.port_wf(),
        ensures
            source@ == self.port_source(),
    ;

    /// Appends the rendering of the payload to `out`.
    fn write_payload<S: Serializer<Self::Payload>>(&self, out: Vec<u8>, serializer: &S) -> (r:
        Result<Vec<u8>, S::Error>)
        requires
            self.port_wf(),
            S::accepts(self.port_payload()),
        ensures
            r matches Ok(written) ==> exists|text: Seq<u8>|
                #![auto]
                S::renders(self.port_payload(), text) && written@ == out@ + text,
            r is Err ==> S::refuses(self.port_payload()),
    ;
}

/// Why the debug port could not write an event.
#[derive(Debug)]
pub enum DebugOuputError<SE> {
    Serialization(SE),
}

impl<SE> DebugOuputError<SE> {
    /// The error for display: the description, a colon and a space, and the
    /// text of the serializer's error, which the caller hands in.
    pub fn to_text(&self, cause: &str) -> (text: String)
        ensures
            text@ == "Failed to serialize debug event"@ + ": "@ + cause@,
    {
        let mut text = String::from_str(self.description());
        text.append(": ");
        text.append(cause);
        text
    }

    /// Short text that says what failed.
    pub fn description(&self) -> (text: &'static str)
        ensures
            text@ == "Failed to serialize debug event"@,
    {
        match self {
            DebugOuputError::Serialization(_) => "Failed to serialize debug event",
        }
    }
}

/// The bytes that stand before the rendering of an event: id, source, and
/// the time in square brackets, each with a space behind it, and then two
/// dashes and a space.
pub open spec fn debug_header(id: Seq<char>, source: Seq<char>, timestamp: Seq<char>) -> Seq<u8> {
    encode_utf8(id) + seq![0x20u8] + encode_utf8(source) + seq![0x20u8, 0x5bu8] + encode_utf8(
        timestamp,
    ) + seq![0x5du8, 0x20u8, 0x2du8, 0x2du8, 0x20u8]
}

/// Appends bytes to a buffer.
pub fn append_bytes(out: &mut Vec<u8>, bytes: &[u8])
    ensures
        final(out)@ == old(out)@ + bytes@,
{
    let ghost start = out@;
    let mut at: usize = 0;
    proof {
        assert(out@ =~= start + bytes@.take(0));
    }
    while at < bytes.len()
        invariant
            at <= bytes.len(),
            out@ == start + bytes@.take(at as int),
        decreases bytes.len() - at,
    {
        out.push(bytes[at]);
        proof {
            assert(out@ =~= start + bytes@.take(at + 1));
        }
        at = at + 1;
    }
    proof {
        assert(bytes@.take(bytes@.len() as int) =~= bytes@);
    }
}

/// Appends the header of a debug line to a buffer.
pub fn write_header(out: &mut Vec<u8>, id: &str, source: &str, timestamp: &str)
    ensures
        final(out)@ == old(out)@ + debug_header(id@, source@, timestamp@),
{
    let ghost start = out@;
    append_bytes(out, id.as_bytes());
    out.push(0x20);
    append_bytes(out, source.as_bytes());
    out.push(0x20);
    out.push(0x5b);
    append_bytes(out, timestamp.as_bytes());
    out.push(0x5d);
    out.push(0x20);
    out.push(0x2d);
    out.push(0x2d);
    out.push(0x20);
    proof {
        assert(out@ =~= start + debug_header(id@, source@, timestamp@));
    }
}

/// Writes one event as a line into the buffer: the header, the rendering
/// of the payload, and a newline. Where the serializer fails the buffer is
/// left empty.
pub fn serialize_event<T, S>(event: &T, buf: &mut Vec<u8>, serializer: &S) -> (r: Result<
    (),
    DebugOuputError<S::Error>,
>) where T: DebugPort, S: Serializer<T::Payload>
    requires
        event.port_wf(),
        S::accepts(event.port_payload()),
    ensures
        r is Ok ==> exists|id: Seq<char>, text: Seq<u8>|
            #![auto]
            event.port_id_is(id) && S::renders(event.port_payload(), text) && final(buf)@ == old(
                buf,
            )@ + debug_header(id, event.port_source(), event.port_timestamp().text()) + text
                + seq![LINE_END],
        r is Err ==> final(buf)@.len() == 0 && S::refuses(event.port_payload()),
{
    let id = event.id();
    let source = event.source();
    let timestamp = event.timestamp().to_rfc3339();
    write_header(buf, cow_text(&id), cow_text(&source), timestamp.as_str());
    let mut line: Vec<u8> = Vec::new();
    core::mem::swap(buf, &mut line);
    let ghost before = line@;
    match event.write_payload(line, serializer) {
        Ok(written) => {
            let ghost rendered = written@;
            let mut line = written;
            line.push(LINE_END);
            core::mem::swap(buf, &mut line);
            proof {
                let text = choose|text: Seq<u8>|
                    #![auto]
                    S::renders(event.port_payload(), text) && rendered == before + text;
                assert(buf@ =~= old(buf)@ + debug_header(
                    id@,
                    event.port_source(),
                    event.port_timestamp().text(),
                ) + text + seq![LINE_END]);
            }
            Ok(())
        },
        Err(error) => Err(DebugOuputError::Serialization(error)),
    }
}

/// Writes one event as a line into the buffer, where the event is fit for
/// the port and the serializer takes it; else the buffer is left as it is
/// and nothing is written.
pub fn try_serialize_event<T, S>(event: &T, buf: &mut Vec<u8>, serializer: &S) -> (r: Option<
    Result<(), DebugOuputError<S::Error>>,
>) where T: DebugPort, S: Serializer<T::Payload>
    ensures
        r is Some <==> event.port_wf() && S::accepts(event.port_payload()),
        r is None ==> final(buf)@ == old(buf)@,
        r matches Some(Ok(())) ==> exists|id: Seq<char>, text: Seq<u8>|
            #![auto]
            event.port_id_is(id) && S::renders(event.port_payload(), text) && final(buf)@ == old(
                buf,
            )@ + debug_header(id, event.port_source(), event.port_timestamp().text()) + text
                + seq![LINE_END],
        r matches Some(Err(_)) ==> final(buf)@.len() == 0 && S::refuses(event.port_payload()),
{
    if event.port_ok() && S::takes(event.payload()) {
        Some(serialize_event(event, buf, serializer))
    } else {
        None
    }
}

/// A syslog event on its way out through the debug port.
#[derive(Debug)]
pub struct SyslogDebugPortEvent(pub SyslogEvent);

impl DebugPort for SyslogDebugPortEvent {
    type Payload = SyslogEvent;

    open spec fn port_wf(&self) -> bool {
        self.0.wf()
    }

    open spec fn port_id_is(&self, id: Seq<char>) -> bool {
        syslog_id_is(self.0@, id)
    }

    open spec fn port_timestamp(&self) -> Timestamp {
        Timestamp { offset: 0, ..self.0.timestamp }
    }

    open spec fn port_source(&self) -> Seq<char> {
        self.0.hostname@
    }

    open spec fn port_payload(&self) -> &SyslogEvent {
        &self.0
    }

    fn port_ok(&self) -> (ok: bool) {
        self.0.is_wf()
    }

    fn payload(&self) -> (payload: &SyslogEvent) {
        &self.0
    }

    fn id(&self) -> (id: Cow<str>) {
        Event::id(&self.0)
    }

    fn timestamp(&self) -> (t: Timestamp) {
        Event::timestamp(&self.0)
    }

    fn source(&self) -> (source: Cow<str>) {
        Event::source(&self.0)
    }

    fn write_payload<S: Serializer<SyslogEvent>>(&self, out: Vec<u8>, serializer: &S) -> (r: Result<
        Vec<u8>,
        S::Error,
    >) {
        S::serialize(&self.0, out)
    }
}

} // verus!
