//! The two framings of syslog records on a stream: a length in front of the
//! record, or a newline behind it.

use crate::codec::nom::buffered;
use crate::codec::nom::Buffer;
use crate::codec::nom::IResult;
use crate::codec::nom::NomCodec;
use crate::codec::nom::NomParser;
use crate::codec::nom::ParserError;
use crate::codec::scan::decimal;
use crate::codec::scan::digits_end;
use crate::codec::scan::find;
use crate::codec::scan::find_byte;
use crate::codec::scan::lemma_digits_end;
use crate::codec::scan::lemma_find_byte;
use crate::codec::scan::scan_decimal;
use crate::codec::scan::scan_digits;
use crate::codec::syslog::grammar::record_of;
use crate::codec::syslog::grammar::syslog_rfc5424;
use crate::codec::syslog::rehydrate::rehydrate_message;
use crate::codec::syslog::rehydrate::rehydrated_message;
use crate::codec::syslog::rehydrate::NEWLINE;
use crate::codec::syslog::sdata::SPACE;
use crate::codec::syslog::SyslogError;
use crate::codec::syslog::SyslogEvent;
use crate::codec::syslog::SyslogRecord;
use vstd::prelude::*;
use vstd::slice::slice_subrange;

verus! {

/// The longest record that a length in front of it can announce.
pub const MAX_FRAME: u64 = 0xffff_ffff;

/// The record at the front of a stream of records that each end in a
/// newline: the bytes before the first newline, and the number of bytes
/// that the record and its newline take. None while no newline is there.
pub open spec fn newline_frame_of(s: Seq<u8>) -> Option<(Seq<u8>, int)> {
    let end = find_byte(s, 0, NEWLINE);
    if end < s.len() {
        Some((s.subrange(0, end), end + 1))
    } else {
        None
    }
}

/// The record at the front of a stream of records that each have their
/// length in front: decimal digits, one space, and then as many bytes as
/// the digits say. The length is refused where it does not start with a
/// digit, exceeds `MAX_FRAME`, or is not followed by a space. More bytes are
/// wanted while nothing is there, the digits have not ended, or the record
/// is not all there.
pub open spec fn rfc5425_frame_of(s: Seq<u8>) -> IResult<Seq<u8>, SyslogError> {
    let digits = digits_end(s, 0);
    let length = decimal(s.subrange(0, digits));
    if s.len() == 0 {
        IResult::Incomplete
    } else if digits == 0 || length > MAX_FRAME {
        IResult::Error(ParserError::Custom(SyslogError::FrameLength))
    } else if digits >= s.len() {
        IResult::Incomplete
    } else if s[digits] != SPACE {
        IResult::Error(ParserError::Custom(SyslogError::FrameLength))
    } else if s.len() - digits - 1 < length {
        IResult::Incomplete
    } else {
        IResult::Done((digits + 1 + length) as usize, s.subrange(digits + 1, digits + 1 + length))
    }
}

/// What the first bytes of a newline-framed stream give: the first record,
/// with a newline in place of each `#012` where its message is text, and
/// the bytes it takes with its newline.
pub open spec fn rfc5424_in_newline_frame_of(s: Seq<u8>) -> IResult<SyslogRecord, SyslogError> {
    match newline_frame_of(s) {
        None => IResult::Incomplete,
        Some((frame, consumed)) => match record_of(frame) {
            Err(kind) => IResult::Error(ParserError::Custom(kind)),
            Ok(record) => IResult::Done(
                consumed as usize,
                SyslogRecord { message: rehydrated_message(record.message), ..record },
            ),
        },
    }
}

/// What the first bytes of a length-framed stream give: the first record,
/// and the bytes it takes with its length.
pub open spec fn rfc5424_in_rfc5425_frame_of(s: Seq<u8>) -> IResult<SyslogRecord, SyslogError> {
    match rfc5425_frame_of(s) {
        IResult::Done(consumed, frame) => match record_of(frame) {
            Err(kind) => IResult::Error(ParserError::Custom(kind)),
            Ok(record) => IResult::Done(consumed, record),
        },
        IResult::Error(e) => IResult::Error(e),
        IResult::Incomplete => IResult::Incomplete,
    }
}

/// Cuts the first newline-ended record off the front of the input.
pub fn newline_frame(input: &[u8]) -> (r: Option<(&[u8], usize)>)
    ensures
        match newline_frame_of(input@) {
            Some((frame, consumed)) => r matches Some((read, n)) && read@ == frame && n
                == consumed && n == frame.len() + 1 && n <= input.len(),
            None => r is None,
        },
{
    let end = find(input, 0, NEWLINE);
    if end < input.len() {
        Some((slice_subrange(input, 0, end), end + 1))
    } else {
        None
    }
}

/// Cuts the first length-framed record off the front of the input.
pub fn rfc5425_frame(input: &[u8]) -> (r: IResult<&[u8], SyslogError>)
    ensures
        match rfc5425_frame_of(input@) {
            IResult::Done(consumed, frame) => r matches IResult::Done(n, read) && n == consumed
                && read@ == frame && n == digits_end(input@, 0) + 1 + frame.len() && n
                <= input.len(),
            IResult::Error(e) => r matches IResult::Error(f) && f == e,
            IResult::Incomplete => r is Incomplete,
        },
{
    if input.len() == 0 {
        return IResult::Incomplete;
    }
    let digits = scan_digits(input, 0);
    let length = match scan_decimal(input, 0, MAX_FRAME) {
        Some((length, _)) => length,
        None => {
            return IResult::Error(ParserError::Custom(SyslogError::FrameLength));
        },
    };
    if digits >= input.len() {
        return IResult::Incomplete;
    }
    if input[digits] != SPACE {
        return IResult::Error(ParserError::Custom(SyslogError::FrameLength));
    }
    let rest = input.len() - digits - 1;
    if (rest as u64) < length {
        IResult::Incomplete
    } else {
        let start = digits + 1;
        let end = start + length as usize;
        IResult::Done(end, slice_subrange(input, start, end))
    }
}

/// Drops the first frame of a newline-framed stream from the buffer, with
/// its newline, so that decoding can go on behind a frame that was
/// refused. Leaves the buffer as it is while no newline is there.
pub fn discard_newline_frame(buf: &mut Buffer) -> (discarded: bool)
    ensures
        match newline_frame_of(buffered(*old(buf))) {
            Some((_, consumed)) => discarded && buffered(*final(buf)) == buffered(*old(buf)).skip(
                consumed,
            ),
            None => !discarded && buffered(*final(buf)) == buffered(*old(buf)),
        },
{
    let consumed = match newline_frame(buf.as_slice()) {
        Some((_, consumed)) => consumed,
        None => {
            return false;
        },
    };
    let _ = buf.drain_to(consumed);
    true
}

/// Reads the first record of a newline-framed stream.
pub fn syslog_rfc5424_in_newline_frame(input: &[u8]) -> (r: IResult<SyslogEvent, SyslogError>)
    ensures
        match rfc5424_in_newline_frame_of(input@) {
            IResult::Done(consumed, record) => r matches IResult::Done(n, event) && n == consumed
                && event@ == record && event.wf() && n <= input.len(),
            IResult::Error(e) => r matches IResult::Error(f) && f == e,
            IResult::Incomplete => r is Incomplete,
        },
{
    let (frame, consumed) = match newline_frame(input) {
        Some(read) => read,
        None => {
            return IResult::Incomplete;
        },
    };
    let event = match syslog_rfc5424(frame) {
        Ok(event) => event,
        Err(kind) => {
            return IResult::Error(ParserError::Custom(kind));
        },
    };
    let SyslogEvent {
        facility,
        severity,
        timestamp,
        hostname,
        app_name,
        proc_id,
        msg_id,
        structured_data,
        message,
        processed,
    } = event;
    IResult::Done(
        consumed,
        SyslogEvent {
            facility,
            severity,
            timestamp,
            hostname,
            app_name,
            proc_id,
            msg_id,
            structured_data,
            message: rehydrate_message(message),
            processed,
        },
    )
}

/// Reads the first record of a length-framed stream.
pub fn syslog_rfc5424_in_rfc5425_frame(input: &[u8]) -> (r: IResult<SyslogEvent, SyslogError>)
    ensures
        match rfc5424_in_rfc5425_frame_of(input@) {
            IResult::Done(consumed, record) => r matches IResult::Done(n, event) && n == consumed
                && event@ == record && event.wf() && n <= input.len(),
            IResult::Error(e) => r matches IResult::Error(f) && f == e,
            IResult::Incomplete => r is Incomplete,
        },
{
    match rfc5425_frame(input) {
        IResult::Done(consumed, frame) => match syslog_rfc5424(frame) {
            Ok(event) => IResult::Done(consumed, event),
            Err(kind) => IResult::Error(ParserError::Custom(kind)),
        },
        IResult::Error(e) => IResult::Error(e),
        IResult::Incomplete => IResult::Incomplete,
    }
}

/// Whether an answer in words and with a stamped event is the one that a
/// grammar's outcome asks for: the same bytes taken and the same record, or
/// the description of the same kind of error.
pub open spec fn described(
    outcome: IResult<SyslogRecord, SyslogError>,
    result: IResult<SyslogEvent, &'static str>,
) -> bool {
    match outcome {
        IResult::Done(consumed, record) => result matches IResult::Done(n, event) && n == consumed
            && event@ == record && event.wf(),
        IResult::Error(ParserError::Custom(kind)) => result matches IResult::Error(
            ParserError::Custom(reason),
        ) && reason@ == kind.description_spec(),
        IResult::Error(ParserError::Other) => result matches IResult::Error(ParserError::Other),
        IResult::Incomplete => result is Incomplete,
    }
}

/// Puts the description in place of the kind of an error.
pub fn describe(answer: IResult<SyslogEvent, SyslogError>) -> (result: IResult<
    SyslogEvent,
    &'static str,
>)
    ensures
        match answer {
            IResult::Done(consumed, event) => result == IResult::<
                SyslogEvent,
                &'static str,
            >::Done(consumed, event),
            IResult::Error(ParserError::Custom(kind)) => result matches IResult::Error(
                ParserError::Custom(reason),
            ) && reason@ == kind.description_spec(),
            IResult::Error(ParserError::Other) => result matches IResult::Error(
                ParserError::Other,
            ),
            IResult::Incomplete => result is Incomplete,
        },
{
    match answer {
        IResult::Done(consumed, event) => IResult::Done(consumed, event),
        IResult::Error(ParserError::Custom(kind)) => IResult::Error(
            ParserError::Custom(kind.description()),
        ),
        IResult::Error(ParserError::Other) => IResult::Error(ParserError::Other),
        IResult::Incomplete => IResult::Incomplete,
    }
}

/// The parser of records that each end in a newline.
#[derive(Clone, Copy, Debug, PartialEq, Eq, Structural)]
pub struct Rfc5424InNewlineFrame;

/// The parser of records that each have their length in front.
#[derive(Clone, Copy, Debug, PartialEq, Eq, Structural)]
pub struct Rfc5424InRfc5425Frame;

impl NomParser for Rfc5424InNewlineFrame {
    type Output = SyslogEvent;

    open spec fn parses(&self, input: Seq<u8>, result: IResult<SyslogEvent, &'static str>) -> bool {
        described(rfc5424_in_newline_frame_of(input), result)
    }

    fn parse(&self, input: &[u8]) -> (result: IResult<SyslogEvent, &'static str>) {
        describe(syslog_rfc5424_in_newline_frame(input))
    }
}

impl NomParser for Rfc5424InRfc5425Frame {
    type Output = SyslogEvent;

    open spec fn parses(&self, input: Seq<u8>, result: IResult<SyslogEvent, &'static str>) -> bool {
        described(rfc5424_in_rfc5425_frame_of(input), result)
    }

    fn parse(&self, input: &[u8]) -> (result: IResult<SyslogEvent, &'static str>) {
        describe(syslog_rfc5424_in_rfc5425_frame(input))
    }
}

/// The decoders of syslog streams.
pub struct SyslogCodec;

impl SyslogCodec {
    /// A decoder of records that each end in a newline.
    pub fn rfc5424_in_newline_frame() -> (codec: NomCodec<Rfc5424InNewlineFrame>)
        ensures
            codec.parser == Rfc5424InNewlineFrame,
    {
        NomCodec::new(Rfc5424InNewlineFrame)
    }

    /// A decoder of records that each have their length in front.
    pub fn rfc5424_in_rfc5425_frame() -> (codec: NomCodec<Rfc5424InRfc5425Frame>)
        ensures
            codec.parser == Rfc5424InRfc5425Frame,
    {
        NomCodec::new(Rfc5424InRfc5425Frame)
    }
}

/// A newline-framed record takes exactly its own bytes and the one newline
/// behind them: where a record is read, the byte before the position it
/// ends at is the first newline of the input, and the bytes before that
/// newline are a whole record.
pub proof fn lemma_newline_frame_consumes(s: Seq<u8>)
    requires
        s.len() <= usize::MAX,
        rfc5424_in_newline_frame_of(s) is Done,
    ensures
        ({
            let consumed = rfc5424_in_newline_frame_of(s)->Done_0 as int;
            &&& 1 <= consumed <= s.len()
            &&& s[consumed - 1] == NEWLINE
            &&& forall|k: int| 0 <= k < consumed - 1 ==> s[k] != NEWLINE
            &&& record_of(s.subrange(0, consumed - 1)) is Ok
        }),
{
    lemma_find_byte(s, 0, NEWLINE);
}

/// A length-framed record takes exactly the digits of its length, the one
/// space behind them, and as many bytes as the digits say.
pub proof fn lemma_rfc5425_frame_consumes(s: Seq<u8>)
    requires
        s.len() <= usize::MAX,
        rfc5424_in_rfc5425_frame_of(s) is Done,
    ensures
        ({
            let consumed = rfc5424_in_rfc5425_frame_of(s)->Done_0 as int;
            let digits = digits_end(s, 0);
            let length = decimal(s.subrange(0, digits));
            &&& 0 < digits < s.len()
            &&& forall|k: int| 0 <= k < digits ==> crate::codec::scan::is_digit(s[k])
            &&& s[digits] == SPACE
            &&& consumed == digits + 1 + length
            &&& consumed <= s.len()
            &&& record_of(s.subrange(digits + 1, consumed)) is Ok
        }),
{
    lemma_digits_end(s, 0);
}

/// A decoder of newline-framed records takes, with every record it
/// reads, exactly the bytes of that record and the one newline behind
/// them.
pub proof fn lemma_newline_decoder_consumes(
    before: Seq<u8>,
    answer: IResult<SyslogEvent, &'static str>,
    r: Result<Option<SyslogEvent>, crate::codec::nom::DecodeError>,
    after: Seq<u8>,
)
    requires
        before.len() <= usize::MAX,
        Rfc5424InNewlineFrame.parses(before, answer),
        crate::codec::nom::decoded(answer, before, r, after),
        r matches Ok(Some(_)),
    ensures
        ({
            let record = find_byte(before, 0, NEWLINE);
            &&& record < before.len()
            &&& before[record] == NEWLINE
            &&& forall|k: int| 0 <= k < record ==> before[k] != NEWLINE
            &&& record_of(before.subrange(0, record)) is Ok
            &&& after == before.skip(record + 1)
        }),
{
    lemma_newline_frame_consumes(before);
    lemma_find_byte(before, 0, NEWLINE);
    assert(answer is Done);
    assert(newline_frame_of(before) is Some);
}

/// A decoder of length-framed records takes, with every record it reads,
/// exactly the digits of the length, the one space behind them, and as
/// many bytes as the digits say.
pub proof fn lemma_rfc5425_decoder_consumes(
    before: Seq<u8>,
    answer: IResult<SyslogEvent, &'static str>,
    r: Result<Option<SyslogEvent>, crate::codec::nom::DecodeError>,
    after: Seq<u8>,
)
    requires
        before.len() <= usize::MAX,
        Rfc5424InRfc5425Frame.parses(before, answer),
        crate::codec::nom::decoded(answer, before, r, after),
        r matches Ok(Some(_)),
    ensures
        ({
            let digits = digits_end(before, 0);
            let length = decimal(before.subrange(0, digits));
            &&& 0 < digits < before.len()
            &&& before[digits] == SPACE
            &&& digits + 1 + length <= before.len()
            &&& record_of(before.subrange(digits + 1, digits + 1 + length)) is Ok
            &&& after == before.skip(digits + 1 + length)
        }),
{
    lemma_rfc5425_frame_consumes(before);
}

/// Reading is a function of the bytes: two answers that describe the same
/// outcome hold the same record and take the same number of bytes,
/// whatever the moment each was read at.
pub proof fn lemma_described_once(
    outcome: IResult<SyslogRecord, SyslogError>,
    first: IResult<SyslogEvent, &'static str>,
    second: IResult<SyslogEvent, &'static str>,
)
    requires
        described(outcome, first),
        described(outcome, second),
    ensures
        first is Done <==> second is Done,
        first is Incomplete <==> second is Incomplete,
        first is Error <==> second is Error,
        first matches IResult::Done(n, a) ==> second matches IResult::Done(m, b) && n == m && a@
            == b@,
        first matches IResult::Error(ParserError::Custom(x)) ==> second matches IResult::Error(
            ParserError::Custom(y),
        ) && x@ == y@,
{
}

/// Parsing is pure: two answers of a syslog parser to the same bytes hold
/// the same record and take the same number of bytes. Only the moment of
/// reading, which is no part of the record, may differ.
pub proof fn lemma_parse_is_pure(
    input: Seq<u8>,
    first: IResult<SyslogEvent, &'static str>,
    second: IResult<SyslogEvent, &'static str>,
)
    requires
        (Rfc5424InNewlineFrame.parses(input, first) && Rfc5424InNewlineFrame.parses(input, second))
            || (Rfc5424InRfc5425Frame.parses(input, first) && Rfc5424InRfc5425Frame.parses(
            input,
            second,
        )),
    ensures
        first is Done <==> second is Done,
        first is Incomplete <==> second is Incomplete,
        first is Error <==> second is Error,
        first matches IResult::Done(n, a) ==> second matches IResult::Done(m, b) && n == m && a@
            == b@,
        first matches IResult::Error(ParserError::Custom(x)) ==> second matches IResult::Error(
            ParserError::Custom(y),
        ) && x@ == y@,
{
    if Rfc5424InNewlineFrame.parses(input, first) && Rfc5424InNewlineFrame.parses(input, second) {
        lemma_described_once(rfc5424_in_newline_frame_of(input), first, second);
    } else {
        lemma_described_once(rfc5424_in_rfc5425_frame_of(input), first, second);
    }
}

} // verus!
