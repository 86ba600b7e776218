//! A decoder that drives a parser against a growing buffer of bytes.

use tokio_core::io::EasyBuf;
use vstd::prelude::*;

verus! {

/// Why a parser refused its input: for a reason of its own, or for one that
/// it does not name.
#[derive(Clone, Copy, Debug, PartialEq, Eq)]
pub enum ParserError<E> {
    Custom(E),
    Other,
}

/// What a parser makes of the bytes it is shown: a value and the number of
/// bytes it took for it, a refusal, or a wish for more bytes.
#[derive(Clone, Copy, Debug, PartialEq, Eq)]
pub enum IResult<T, E> {
    Done(usize, T),
    Error(ParserError<E>),
    Incomplete,
}

/// A parser that a `NomCodec` can drive: it reads one value from the front
/// of its input and describes a refusal in words.
pub trait NomParser {
    type Output;

    /// Whether `result` is an answer of the parser to `input`.
    spec fn parses(&self, input: Seq<u8>, result: IResult<Self::Output, &'static str>) -> bool;

    /// Reads one value from the front of `input`.
    fn parse(&self, input: &[u8]) -> (result: IResult<Self::Output, &'static str>)
        ensures
            self.parses(input@, result),
            result matches IResult::Done(consumed, _) ==> consumed <= input.len(),
    ;
}

/// Why a decoder failed: the parser refused the input with the description
/// given, or it failed without one.
#[derive(Clone, Copy, Debug, PartialEq, Eq)]
pub enum DecodeError {
    InvalidInput(&'static str),
    InvalidData,
}

impl DecodeError {
    /// The text that goes with the failure.
    pub fn description(&self) -> (text: &'static str)
        ensures
            self matches DecodeError::InvalidInput(reason) ==> text == reason,
            self is InvalidData ==> text@ == "unexpected parser error"@,
    {
        match self {
            DecodeError::InvalidInput(reason) => reason,
            DecodeError::InvalidData => "unexpected parser error",
        }
    }
}

/// A buffer of bytes that a transport fills at its end and a decoder
/// empties from its front. It holds a tokio `EasyBuf`.
#[verifier::external_body]
pub struct Buffer {
    inner: EasyBuf,
}

/// The bytes that a buffer holds, first to last.
pub uninterp spec fn buffered(buf: Buffer) -> Seq<u8>;

/// `EasyBuf::from` on a vector: a buffer that holds the vector's bytes.
#[verifier::external_body]
fn easy_buf_from(bytes: Vec<u8>) -> (buf: Buffer)
    ensures
        buffered(buf) == bytes@,
{
    Buffer { inner: EasyBuf::from(bytes) }
}

/// `EasyBuf::len`: the number of bytes in the buffer.
#[verifier::external_body]
fn easy_buf_len(buf: &Buffer) -> (n: usize)
    ensures
        n == buffered(*buf).len(),
{
    buf.inner.len()
}

/// `EasyBuf::as_slice`: the bytes in the buffer.
#[verifier::external_body]
fn easy_buf_as_slice(buf: &Buffer) -> (bytes: &[u8])
    ensures
        bytes@ == buffered(*buf),
{
    buf.inner.as_slice()
}

/// `EasyBuf::drain_to`: splits the buffer at `at`, which may not lie behind
/// its end. The buffer keeps the bytes from `at` on; the bytes before `at`
/// are handed back.
#[verifier::external_body]
fn easy_buf_drain_to(buf: &mut Buffer, at: usize) -> (head: Buffer)
    requires
        at <= buffered(*old(buf)).len(),
    ensures
        buffered(head) == buffered(*old(buf)).take(at as int),
        buffered(*final(buf)) == buffered(*old(buf)).skip(at as int),
{
    Buffer { inner: buf.inner.drain_to(at) }
}

impl Buffer {
    /// A buffer that holds the given bytes.
    pub fn from_vec(bytes: Vec<u8>) -> (buf: Buffer)
        ensures
            buffered(buf) == bytes@,
    {
        easy_buf_from(bytes)
    }

    /// The number of bytes in the buffer.
    pub fn len(&self) -> (n: usize)
        ensures
            n == buffered(*self).len(),
    {
        easy_buf_len(self)
    }

    /// The bytes in the buffer.
    pub fn as_slice(&self) -> (bytes: &[u8])
        ensures
            bytes@ == buffered(*self),
    {
        easy_buf_as_slice(self)
    }

    /// Takes the first `at` bytes out of the buffer.
    pub fn drain_to(&mut self, at: usize) -> (head: Buffer)
        requires
            at <= buffered(*old(self)).len(),
        ensures
            buffered(head) == buffered(*old(self)).take(at as int),
            buffered(*final(self)) == buffered(*old(self)).skip(at as int),
    {
        easy_buf_drain_to(self, at)
    }
}

/// What a decoder hands on for an answer of its parser, and what it leaves
/// in the buffer: on a value, the buffer loses the bytes taken for it; in
/// every other case the buffer stays as it was.
pub open spec fn decoded<T>(
    answer: IResult<T, &'static str>,
    before: Seq<u8>,
    r: Result<Option<T>, DecodeError>,
    after: Seq<u8>,
) -> bool {
    match answer {
        IResult::Done(consumed, value) => r == Ok::<Option<T>, DecodeError>(Some(value)) && after
            == before.skip(consumed as int),
        IResult::Error(ParserError::Custom(reason)) => r == Err::<Option<T>, DecodeError>(
            DecodeError::InvalidInput(reason),
        ) && after == before,
        IResult::Error(ParserError::Other) => r == Err::<Option<T>, DecodeError>(
            DecodeError::InvalidData,
        ) && after == before,
        IResult::Incomplete => r == Ok::<Option<T>, DecodeError>(None) && after == before,
    }
}

/// Takes an answer of a parser to the bytes of a buffer, and drops from the
/// buffer what the parser took.
pub fn commit<T>(answer: IResult<T, &'static str>, buf: &mut Buffer) -> (r: Result<
    Option<T>,
    DecodeError,
>)
    requires
        answer matches IResult::Done(consumed, _) ==> consumed <= buffered(*old(buf)).len(),
    ensures
        decoded(answer, buffered(*old(buf)), r, buffered(*final(buf))),
{
    match answer {
        IResult::Done(consumed, value) => {
            if consumed > 0 {
                let _ = buf.drain_to(consumed);
            } else {
                assert(buffered(*buf).skip(0) =~= buffered(*buf));
            }
            Ok(Some(value))
        },
        IResult::Error(ParserError::Custom(reason)) => Err(DecodeError::InvalidInput(reason)),
        IResult::Error(ParserError::Other) => Err(DecodeError::InvalidData),
        IResult::Incomplete => Ok(None),
    }
}

/// A decoder around a parser.
pub struct NomCodec<P> {
    pub parser: P,
}

impl<P: NomParser> NomCodec<P> {
    /// A decoder that reads with `parser`.
    pub fn new(parser: P) -> (codec: NomCodec<P>)
        ensures
            codec.parser == parser,
    {
        NomCodec { parser }
    }

    /// Reads one value from the front of the buffer. On a value the buffer
    /// loses the bytes that the parser took for it; where the parser wants
    /// more bytes, or refuses, the buffer is left as it was.
    pub fn decode(&mut self, buf: &mut Buffer) -> (r: Result<Option<P::Output>, DecodeError>)
        ensures
            final(self).parser == old(self).parser,
            exists|answer: IResult<P::Output, &'static str>|
                #![auto]
                old(self).parser.parses(buffered(*old(buf)), answer) && decoded(
                    answer,
                    buffered(*old(buf)),
                    r,
                    buffered(*final(buf)),
                ),
    {
        let answer = self.parser.parse(buf.as_slice());
        commit(answer, buf)
    }
}

} // verus!
