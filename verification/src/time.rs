//! Instants with an offset from UTC, held as plain numbers.

use chrono::DateTime;
use chrono::FixedOffset;
use chrono::Utc;
use vstd::prelude::*;

verus! {

/// Earliest second, counted from the Unix epoch, that the calendar behind
/// this type can hold (midnight of 1 January of the year -262143).
pub const MIN_SECS: i64 = -8_334_601_228_800;

/// Latest such second (the last second of 31 December of the year 262142).
pub const MAX_SECS: i64 = 8_210_266_876_799;

/// An instant: seconds and nanoseconds since the Unix epoch in UTC, and the
/// offset of the local time it was written in, in seconds east of UTC.
#[derive(Clone, Copy, Debug, PartialEq, Eq, Structural)]
pub struct Timestamp {
    pub secs: i64,
    pub nanos: u32,
    pub offset: i32,
}

/// The RFC 3339 text of an instant, as chrono's `DateTime::to_rfc3339`
/// writes it.
pub uninterp spec fn rfc3339_text(secs: int, nanos: int, offset: int) -> Seq<char>;

/// Whether a second is the last of its minute.
pub fn is_last_second(secs: i64) -> (last: bool)
    ensures
        last == (secs % 60 == 59),
{
    match secs.checked_rem_euclid(60) {
        Some(rest) => rest == 59,
        None => false,
    }
}

impl Timestamp {
    /// The instant exists in the calendar. A nanosecond count of a billion or
    /// more stands for a leap second and is only found in the last second of
    /// a minute.
    pub open spec fn wf(self) -> bool {
        &&& MIN_SECS <= self.secs <= MAX_SECS
        &&& self.nanos < 2_000_000_000
        &&& self.nanos >= 1_000_000_000 ==> self.secs % 60 == 59
        &&& -86_400 < self.offset < 86_400
    }

    /// Whether the instant exists in the calendar.
    pub fn is_wf(&self) -> (ok: bool)
        ensures
            ok == self.wf(),
    {
        MIN_SECS <= self.secs && self.secs <= MAX_SECS && self.nanos < 2_000_000_000 && (
        self.nanos < 1_000_000_000 || is_last_second(self.secs)) && -86_400 < self.offset
            && self.offset < 86_400
    }

    /// The text that `to_rfc3339` gives for this instant.
    pub open spec fn text(self) -> Seq<char> {
        rfc3339_text(self.secs as int, self.nanos as int, self.offset as int)
    }

    /// The same instant, seen from UTC.
    pub fn to_utc(self) -> (utc: Timestamp)
        ensures
            utc == (Timestamp { offset: 0, ..self }),
            self.wf() ==> utc.wf(),
    {
        Timestamp { secs: self.secs, nanos: self.nanos, offset: 0 }
    }

    /// The instant in RFC 3339 form, with its own offset.
    pub fn to_rfc3339(&self) -> (text: String)
        requires
            self.wf(),
        ensures
            text@ == self.text(),
    {
        render_rfc3339(self.secs, self.nanos, self.offset)
    }

    /// The instant in UTC that lies `secs` seconds and `nanos` nanoseconds
    /// behind the Unix epoch.
    pub fn at_utc(secs: i64, nanos: u32) -> (t: Timestamp)
        ensures
            t == (Timestamp { secs, nanos, offset: 0 }),
    {
        Timestamp { secs, nanos, offset: 0 }
    }

    /// The present moment, in UTC: what the clock gives, whatever that is.
    pub fn now() -> (t: Timestamp)
        ensures
            t.wf(),
            t.offset == 0,
    {
        let (secs, nanos) = utc_now();
        Timestamp::at_utc(secs, nanos)
    }
}

/// Calls chrono's `DateTime::to_rfc3339` on the instant that
/// `DateTime::from_timestamp` and `FixedOffset::east_opt` build from the
/// three numbers. Both builders accept every input that the precondition
/// admits; the text is taken to depend on the three numbers alone.
#[verifier::external_body]
fn render_rfc3339(secs: i64, nanos: u32, offset: i32) -> (text: String)
    requires
        MIN_SECS <= secs <= MAX_SECS,
        nanos < 2_000_000_000,
        nanos >= 1_000_000_000 ==> secs % 60 == 59,
        -86_400 < offset < 86_400,
    ensures
        text@ == rfc3339_text(secs as int, nanos as int, offset as int),
{
    let utc: DateTime<Utc> = DateTime::from_timestamp(secs, nanos).unwrap();
    let zone: FixedOffset = FixedOffset::east_opt(offset).unwrap();
    utc.with_timezone(&zone).to_rfc3339()
}

/// Calls chrono's `Utc::now` and hands back its seconds and nanoseconds.
/// chrono builds the value with `from_timestamp`, so the seconds lie in the
/// calendar's range, and takes the nanoseconds from the system clock's
/// sub-second part, which is below a billion.
#[verifier::external_body]
fn utc_now() -> (now: (i64, u32))
    ensures
        MIN_SECS <= now.0 <= MAX_SECS,
        now.1 < 1_000_000_000,
{
    let now: DateTime<Utc> = Utc::now();
    (now.timestamp(), now.timestamp_subsec_nanos())
}

} // verus!
