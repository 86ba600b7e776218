//! Escaped newlines in text: the rewriting of `#012`, on characters and on
//! the bytes that encode them.

use crate::codec::parse::string;
use crate::codec::syslog::message_view;
use crate::codec::syslog::Message;
use crate::codec::syslog::MessageModel;
use vstd::prelude::*;
use vstd::utf8::decode_first_scalar;
use vstd::utf8::decode_utf8;
use vstd::utf8::encode_utf8;
use vstd::utf8::length_of_first_scalar;
use vstd::utf8::pop_first_scalar;
use vstd::utf8::valid_first_scalar;
use vstd::utf8::valid_utf8;

verus! {

pub const NEWLINE: u8 = 0x0a;

/// The four bytes `#012` stand at `at`.
pub open spec fn escaped_newline_at(s: Seq<u8>, at: int) -> bool {
    &&& 0 <= at
    &&& at + 4 <= s.len()
    &&& s[at] == 0x23
    &&& s[at + 1] == 0x30
    &&& s[at + 2] == 0x31
    &&& s[at + 3] == 0x32
}

/// The bytes from `at` on, with a newline in place of each `#012`, read
/// from left to right.
pub open spec fn rehydrated_from(s: Seq<u8>, at: int) -> Seq<u8>
    decreases s.len() - at,
{
    if at < 0 || at >= s.len() {
        Seq::empty()
    } else if escaped_newline_at(s, at) {
        seq![NEWLINE] + rehydrated_from(s, at + 4)
    } else {
        seq![s[at]] + rehydrated_from(s, at + 1)
    }
}

/// The bytes with a newline in place of each `#012`.
pub open spec fn rehydrated(s: Seq<u8>) -> Seq<u8> {
    rehydrated_from(s, 0)
}

/// The four characters `#012` stand at `at`.
pub open spec fn escaped_newline_in_text(text: Seq<char>, at: int) -> bool {
    &&& 0 <= at
    &&& at + 4 <= text.len()
    &&& text[at] == '#'
    &&& text[at + 1] == '0'
    &&& text[at + 2] == '1'
    &&& text[at + 3] == '2'
}

/// The characters from `at` on, with a newline in place of each `#012`,
/// read from left to right.
pub open spec fn rehydrated_text_from(text: Seq<char>, at: int) -> Seq<char>
    decreases text.len() - at,
{
    if at < 0 || at >= text.len() {
        Seq::empty()
    } else if escaped_newline_in_text(text, at) {
        seq!['\n'] + rehydrated_text_from(text, at + 4)
    } else {
        seq![text[at]] + rehydrated_text_from(text, at + 1)
    }
}

/// The text with a newline in place of each `#012`.
pub open spec fn rehydrated_text(text: Seq<char>) -> Seq<char> {
    rehydrated_text_from(text, 0)
}

/// A message with its escaped newlines brought back: in text, each `#012`
/// becomes a newline; bytes that came without the UTF-8 mark stay as they
/// are.
pub open spec fn rehydrated_message(message: Option<MessageModel>) -> Option<MessageModel> {
    match message {
        Some(MessageModel::String(text)) => Some(MessageModel::String(rehydrated_text(text))),
        _ => message,
    }
}

/// Rewriting from a position on is rewriting what stands from there on.
pub proof fn lemma_rehydrated_shift(s: Seq<u8>, at: int)
    requires
        0 <= at <= s.len(),
    ensures
        rehydrated_from(s, at) == rehydrated(s.skip(at)),
    decreases s.len() - at,
{
    let tail = s.skip(at);
    if at < s.len() {
        if escaped_newline_at(s, at) {
            assert(escaped_newline_at(tail, 0));
            lemma_rehydrated_shift(s, at + 4);
            lemma_rehydrated_shift(tail, 4);
            assert(tail.skip(4) =~= s.skip(at + 4));
        } else {
            assert(!escaped_newline_at(tail, 0)) by {
                if escaped_newline_at(tail, 0) {
                    assert(tail[0] == s[at] && tail[1] == s[at + 1] && tail[2] == s[at + 2]
                        && tail[3] == s[at + 3]);
                }
            }
            lemma_rehydrated_shift(s, at + 1);
            lemma_rehydrated_shift(tail, 1);
            assert(tail.skip(1) =~= s.skip(at + 1));
        }
    }
}

/// The same of characters.
pub proof fn lemma_rehydrated_text_shift(s: Seq<char>, at: int)
    requires
        0 <= at <= s.len(),
    ensures
        rehydrated_text_from(s, at) == rehydrated_text(s.skip(at)),
    decreases s.len() - at,
{
    let tail = s.skip(at);
    if at < s.len() {
        if escaped_newline_in_text(s, at) {
            assert(escaped_newline_in_text(tail, 0));
            lemma_rehydrated_text_shift(s, at + 4);
            lemma_rehydrated_text_shift(tail, 4);
            assert(tail.skip(4) =~= s.skip(at + 4));
        } else {
            assert(!escaped_newline_in_text(tail, 0)) by {
                if escaped_newline_in_text(tail, 0) {
                    assert(tail[0] == s[at] && tail[1] == s[at + 1] && tail[2] == s[at + 2]
                        && tail[3] == s[at + 3]);
                }
            }
            lemma_rehydrated_text_shift(s, at + 1);
            lemma_rehydrated_text_shift(tail, 1);
            assert(tail.skip(1) =~= s.skip(at + 1));
        }
    }
}

/// What the first character of UTF-8 text is, by the width of its
/// encoding: one byte encodes a character below 128, the same number as the
/// byte; more bytes encode a character from 128 on.
pub proof fn lemma_first_char(b: Seq<u8>)
    requires
        valid_utf8(b),
        b.len() > 0,
    ensures
        decode_utf8(b).len() > 0,
        decode_utf8(b) == seq![decode_utf8(b)[0]] + decode_utf8(pop_first_scalar(b)),
        valid_utf8(pop_first_scalar(b)),
        pop_first_scalar(b) == b.skip(length_of_first_scalar(b)),
        1 <= length_of_first_scalar(b) <= 4,
        length_of_first_scalar(b) <= b.len(),
        b[0] < 0x80 ==> length_of_first_scalar(b) == 1 && decode_utf8(b)[0] as u32 == b[0] as u32,
        b[0] >= 0x80 ==> length_of_first_scalar(b) >= 2 && decode_utf8(b)[0] as u32 >= 0x80,
        forall|k: int| 1 <= k < length_of_first_scalar(b) ==> #[trigger] b[k] >= 0x80,
{
    let first = decode_first_scalar(b);
    let c = first as char;
    let v = c as u32;
    assert(pop_first_scalar(b) =~= b.skip(length_of_first_scalar(b)));
    assert(decode_utf8(b)[0] == c);
    vstd::utf8::decode_utf8_first_scalar(b);
    vstd::utf8::char_is_scalar(c);
    assert(vstd::utf8::encode_scalar(v).len() == length_of_first_scalar(b));
    let b0 = b[0];
    if b0 < 0x80 {
        assert(vstd::utf8::encode_scalar(v)[0] == b0);
        assert(v == b0 as u32) by (bit_vector)
            requires
                v <= 0x7f,
                (v & 0x7f) as u8 == b0,
        ;
    }
}

/// The first character of UTF-8 text in front of other UTF-8 text: the
/// bytes are UTF-8 again, and they encode that character and then the
/// other text.
pub proof fn lemma_prepend_first(b: Seq<u8>, x: Seq<u8>)
    requires
        valid_utf8(b),
        b.len() > 0,
        valid_utf8(x),
    ensures
        valid_utf8(b.take(length_of_first_scalar(b)) + x),
        decode_utf8(b.take(length_of_first_scalar(b)) + x) == seq![decode_utf8(b)[0]]
            + decode_utf8(x),
{
    lemma_first_char(b);
    let w = length_of_first_scalar(b);
    let y = b.take(w) + x;
    assert(forall|k: int| 0 <= k < w ==> y[k] == b[k]);
    assert(y.len() >= w);
    assert(y[0] == b[0]);
    assert(valid_first_scalar(b));
    assert(valid_first_scalar(y));
    assert(length_of_first_scalar(y) == w);
    assert(decode_first_scalar(y) == decode_first_scalar(b));
    assert(pop_first_scalar(y) =~= x);
}

/// Where the first `n` characters of UTF-8 text are below 128, the first
/// `n` bytes are those characters, and the rest encodes the rest.
pub proof fn lemma_ascii_chars_are_bytes(b: Seq<u8>, n: int)
    requires
        valid_utf8(b),
        0 <= n <= decode_utf8(b).len(),
        forall|k: int| 0 <= k < n ==> ((#[trigger] decode_utf8(b)[k]) as u32) < 0x80,
    ensures
        n <= b.len(),
        forall|k: int| 0 <= k < n ==> (#[trigger] b[k]) as u32 == decode_utf8(b)[k] as u32,
        valid_utf8(b.skip(n)),
        decode_utf8(b.skip(n)) == decode_utf8(b).skip(n),
    decreases n,
{
    if n == 0 {
        assert(b.skip(0) =~= b);
        assert(decode_utf8(b).skip(0) =~= decode_utf8(b));
    } else {
        assert(b.len() > 0);
        lemma_first_char(b);
        let t = decode_utf8(b);
        let rest = b.skip(1);
        assert((t[0] as u32) < 0x80);
        assert(b[0] < 0x80);
        assert(decode_utf8(rest) =~= t.skip(1));
        assert forall|k: int| 0 <= k < n - 1 implies ((#[trigger] decode_utf8(rest)[k]) as u32)
            < 0x80 by {
            assert(decode_utf8(rest)[k] == t[k + 1]);
        }
        lemma_ascii_chars_are_bytes(rest, n - 1);
        assert(rest.skip(n - 1) =~= b.skip(n));
        assert(t.skip(1).skip(n - 1) =~= t.skip(n));
        assert forall|k: int| 0 <= k < n implies (#[trigger] b[k]) as u32 == t[k] as u32 by {
            if k > 0 {
                assert(b[k] == rest[k - 1]);
                assert(t[k] == decode_utf8(rest)[k - 1]);
            }
        }
    }
}

/// Where the first `n` bytes of UTF-8 text are below 128, the first `n`
/// characters are those bytes, and the rest encodes the rest.
pub proof fn lemma_ascii_bytes_are_chars(b: Seq<u8>, n: int)
    requires
        valid_utf8(b),
        0 <= n <= b.len(),
        forall|k: int| 0 <= k < n ==> (#[trigger] b[k]) < 0x80,
    ensures
        n <= decode_utf8(b).len(),
        forall|k: int| 0 <= k < n ==> (#[trigger] decode_utf8(b)[k]) as u32 == b[k] as u32,
        valid_utf8(b.skip(n)),
        decode_utf8(b.skip(n)) == decode_utf8(b).skip(n),
    decreases n,
{
    if n == 0 {
        assert(b.skip(0) =~= b);
        assert(decode_utf8(b).skip(0) =~= decode_utf8(b));
    } else {
        lemma_first_char(b);
        let t = decode_utf8(b);
        let rest = b.skip(1);
        assert(b[0] < 0x80);
        assert(decode_utf8(rest) =~= t.skip(1));
        assert forall|k: int| 0 <= k < n - 1 implies (#[trigger] rest[k]) < 0x80 by {
            assert(rest[k] == b[k + 1]);
        }
        lemma_ascii_bytes_are_chars(rest, n - 1);
        assert(rest.skip(n - 1) =~= b.skip(n));
        assert(t.skip(1).skip(n - 1) =~= t.skip(n));
        assert forall|k: int| 0 <= k < n implies (#[trigger] t[k]) as u32 == b[k] as u32 by {
            if k > 0 {
                assert(b[k] == rest[k - 1]);
                assert(t[k] == decode_utf8(rest)[k - 1]);
            }
        }
    }
}

/// Bytes that are no number sign are copied as they are.
pub proof fn lemma_rehydrated_copies(s: Seq<u8>, from: int, to: int)
    requires
        0 <= from <= to <= s.len(),
        forall|k: int| from <= k < to ==> #[trigger] s[k] != 0x23,
    ensures
        rehydrated_from(s, from) == s.subrange(from, to) + rehydrated_from(s, to),
    decreases to - from,
{
    if from < to {
        lemma_rehydrated_copies(s, from + 1, to);
        assert(s[from] != 0x23);
        assert(seq![s[from]] + (s.subrange(from + 1, to) + rehydrated_from(s, to)) =~= s.subrange(
            from,
            to,
        ) + rehydrated_from(s, to));
    } else {
        assert(s.subrange(from, to) + rehydrated_from(s, to) =~= rehydrated_from(s, to));
    }
}

/// A character is the one whose number it has.
pub proof fn lemma_char_of_number(c: char, d: char)
    requires
        c as u32 == d as u32,
    ensures
        c == d,
{
    vstd::utf8::char_u32_cast(c, c as u32);
    vstd::utf8::char_u32_cast(d, d as u32);
}

/// Rewriting the bytes of UTF-8 text gives UTF-8 text again: the text
/// with each `#012` rewritten.
pub proof fn lemma_rehydrated_utf8(b: Seq<u8>)
    requires
        valid_utf8(b),
    ensures
        valid_utf8(rehydrated(b)),
        decode_utf8(rehydrated(b)) == rehydrated_text(decode_utf8(b)),
    decreases b.len(),
{
    let t = decode_utf8(b);
    if b.len() == 0 {
    } else if escaped_newline_at(b, 0) {
        assert forall|k: int| 0 <= k < 4 implies (#[trigger] b[k]) < 0x80 by {}
        lemma_ascii_bytes_are_chars(b, 4);
        lemma_char_of_number(t[0], '#');
        lemma_char_of_number(t[1], '0');
        lemma_char_of_number(t[2], '1');
        lemma_char_of_number(t[3], '2');
        assert(escaped_newline_in_text(t, 0));
        lemma_rehydrated_shift(b, 4);
        lemma_rehydrated_text_shift(t, 4);
        lemma_rehydrated_utf8(b.skip(4));
        let line = seq![NEWLINE];
        assert(valid_utf8(line)) by {
            assert(valid_first_scalar(line));
            assert(pop_first_scalar(line) =~= Seq::<u8>::empty());
            assert(valid_utf8(pop_first_scalar(line)));
        }
        lemma_first_char(line);
        lemma_char_of_number(decode_utf8(line)[0], '\n');
        lemma_prepend_first(line, rehydrated(b.skip(4)));
        assert(line.take(1) =~= line);
    } else if b[0] < 0x80 {
        lemma_first_char(b);
        if escaped_newline_in_text(t, 0) {
            assert forall|k: int| 0 <= k < 4 implies ((#[trigger] t[k]) as u32) < 0x80 by {}
            lemma_ascii_chars_are_bytes(b, 4);
            assert(escaped_newline_at(b, 0));
        }
        lemma_rehydrated_shift(b, 1);
        lemma_rehydrated_text_shift(t, 1);
        assert(t.skip(1) =~= decode_utf8(b.skip(1)));
        lemma_rehydrated_utf8(b.skip(1));
        lemma_prepend_first(b, rehydrated(b.skip(1)));
        assert(b.take(1) =~= seq![b[0]]);
    } else {
        lemma_first_char(b);
        let w = length_of_first_scalar(b);
        assert(t[0] != '#');
        assert forall|k: int| 0 <= k < w implies #[trigger] b[k] != 0x23 by {}
        lemma_rehydrated_copies(b, 0, w);
        lemma_rehydrated_shift(b, w);
        lemma_rehydrated_text_shift(t, 1);
        assert(t.skip(1) =~= decode_utf8(b.skip(w)));
        lemma_rehydrated_utf8(b.skip(w));
        lemma_prepend_first(b, rehydrated(b.skip(w)));
        assert(b.take(w) =~= b.subrange(0, w));
    }
}

/// Writes a newline in place of each `#012`.
pub fn rehydrate(bytes: &[u8]) -> (out: Vec<u8>)
    ensures
        out@ == rehydrated(bytes@),
{
    let mut out: Vec<u8> = Vec::new();
    let mut at: usize = 0;
    proof {
        assert(out@ + rehydrated_from(bytes@, 0) =~= rehydrated_from(bytes@, 0));
    }
    while at < bytes.len()
        invariant
            at <= bytes.len(),
            rehydrated(bytes@) == out@ + rehydrated_from(bytes@, at as int),
        decreases bytes.len() - at,
    {
        let ghost before = out@;
        if bytes.len() - at >= 4 && bytes[at] == 0x23 && bytes[at + 1] == 0x30 && bytes[at + 2]
            == 0x31 && bytes[at + 3] == 0x32 {
            proof {
                assert(before + (seq![NEWLINE] + rehydrated_from(bytes@, at + 4)) =~= before.push(
                    NEWLINE,
                ) + rehydrated_from(bytes@, at + 4));
            }
            out.push(NEWLINE);
            at = at + 4;
        } else {
            proof {
                assert(before + (seq![bytes@[at as int]] + rehydrated_from(bytes@, at + 1))
                    =~= before.push(bytes@[at as int]) + rehydrated_from(bytes@, at + 1));
            }
            out.push(bytes[at]);
            at = at + 1;
        }
    }
    proof {
        assert(out@ + Seq::<u8>::empty() =~= out@);
    }
    out
}

/// Brings the escaped newlines of a message back. Text is rewritten on
/// its bytes, which stay UTF-8.
pub fn rehydrate_message(message: Option<Message>) -> (r: Option<Message>)
    ensures
        message_view(r) == rehydrated_message(message_view(message)),
{
    match message {
        Some(Message::String(text)) => {
            let bytes = rehydrate(text.as_str().as_bytes());
            proof {
                vstd::utf8::encode_utf8_valid_utf8(text@);
                vstd::utf8::encode_utf8_decode_utf8(text@);
                lemma_rehydrated_utf8(encode_utf8(text@));
            }
            match string(bytes.as_slice()) {
                Ok(rewritten) => Some(Message::String(rewritten.to_owned())),
                // The rewritten bytes are UTF-8, so this arm is never taken.
                Err(_) => Some(Message::String(text)),
            }
        },
        other => other,
    }
}

} // verus!
