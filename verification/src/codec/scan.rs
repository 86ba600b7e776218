//! Scanning of byte runs: decimal numbers and the search for a delimiter.

use vstd::prelude::*;

verus! {

/// An ASCII decimal digit.
pub open spec fn is_digit(b: u8) -> bool {
    0x30 <= b <= 0x39
}

/// Where the run of digits that starts at `from` ends: the first position at
/// or after `from` that holds no digit.
pub open spec fn digits_end(s: Seq<u8>, from: int) -> int
    decreases s.len() - from,
{
    if 0 <= from < s.len() && is_digit(s[from]) {
        digits_end(s, from + 1)
    } else {
        from
    }
}

/// The number that a run of digits writes, most significant digit first.
pub open spec fn decimal(digits: Seq<u8>) -> nat
    decreases digits.len(),
{
    if digits.len() == 0 {
        0
    } else {
        decimal(digits.drop_last()) * 10 + (digits.last() - 0x30) as nat
    }
}

/// The first position at or after `from` that holds `b`, or the length of
/// `s` where there is none.
pub open spec fn find_byte(s: Seq<u8>, from: int, b: u8) -> int
    decreases s.len() - from,
{
    if 0 <= from < s.len() && s[from] != b {
        find_byte(s, from + 1, b)
    } else {
        from
    }
}

/// The run of digits ends inside the input, holds digits only, and stops at
/// a byte that is none.
pub proof fn lemma_digits_end(s: Seq<u8>, from: int)
    requires
        0 <= from <= s.len(),
    ensures
        from <= digits_end(s, from) <= s.len(),
        forall|k: int| from <= k < digits_end(s, from) ==> is_digit(#[trigger] s[k]),
        digits_end(s, from) < s.len() ==> !is_digit(s[digits_end(s, from)]),
    decreases s.len() - from,
{
    if from < s.len() && is_digit(s[from]) {
        lemma_digits_end(s, from + 1);
    }
}

/// The search ends inside the input, passes no occurrence of the byte, and
/// stops on one unless it ran to the end.
pub proof fn lemma_find_byte(s: Seq<u8>, from: int, b: u8)
    requires
        0 <= from <= s.len(),
    ensures
        from <= find_byte(s, from, b) <= s.len(),
        forall|k: int| from <= k < find_byte(s, from, b) ==> #[trigger] s[k] != b,
        find_byte(s, from, b) < s.len() ==> s[find_byte(s, from, b)] == b,
    decreases s.len() - from,
{
    if from < s.len() && s[from] != b {
        lemma_find_byte(s, from + 1, b);
    }
}

/// A longer run of digits writes no smaller number than its prefix.
pub proof fn lemma_decimal_grows(s: Seq<u8>, from: int, mid: int, to: int)
    requires
        0 <= from <= mid <= to <= s.len(),
        forall|k: int| from <= k < to ==> is_digit(#[trigger] s[k]),
    ensures
        decimal(s.subrange(from, mid)) <= decimal(s.subrange(from, to)),
    decreases to - mid,
{
    if mid < to {
        lemma_decimal_grows(s, from, mid, to - 1);
        assert(s.subrange(from, to).drop_last() =~= s.subrange(from, to - 1));
        assert(is_digit(s[to - 1]));
    }
}

/// Reads the decimal number whose digits start at `from`. Gives the number
/// and the position behind its last digit, where there is at least one digit
/// and the number does not exceed `limit`.
pub fn scan_decimal(input: &[u8], from: usize, limit: u64) -> (r: Option<(u64, usize)>)
    requires
        from <= input.len(),
        limit <= 0xffff_ffff_ffff,
    ensures
        r == decimal_at(input@, from as int, limit as nat),
        r matches Some((value, end)) ==> {
            &&& from < end <= input.len()
            &&& end == digits_end(input@, from as int)
            &&& value == decimal(input@.subrange(from as int, end as int))
            &&& value <= limit
        },
{
    let mut value: u64 = 0;
    let mut at: usize = from;
    proof {
        assert(input@.subrange(from as int, from as int) =~= Seq::<u8>::empty());
    }
    while at < input.len() && input[at] >= 0x30 && input[at] <= 0x39
        invariant
            from <= at <= input.len(),
            limit <= 0xffff_ffff_ffff,
            value <= limit,
            value == decimal(input@.subrange(from as int, at as int)),
            digits_end(input@, from as int) == digits_end(input@, at as int),
        decreases input.len() - at,
    {
        let digit: u64 = (input[at] - 0x30) as u64;
        proof {
            assert(input@.subrange(from as int, at + 1).drop_last() =~= input@.subrange(
                from as int,
                at as int,
            ));
        }
        let next: u64 = value * 10 + digit;
        if next > limit {
            proof {
                let end = digits_end(input@, from as int);
                lemma_digits_end(input@, at as int);
                lemma_digits_end(input@, from as int);
                assert(end >= at + 1);
                lemma_decimal_grows(input@, from as int, at + 1, end);
            }
            return None;
        }
        value = next;
        at = at + 1;
    }
    proof {
        lemma_digits_end(input@, from as int);
    }
    if at == from {
        None
    } else {
        Some((value, at))
    }
}

/// What `scan_decimal` reads at a position.
pub open spec fn decimal_at(s: Seq<u8>, from: int, limit: nat) -> Option<(u64, usize)> {
    let end = digits_end(s, from);
    let value = decimal(s.subrange(from, end));
    if from < end && value <= limit {
        Some((value as u64, end as usize))
    } else {
        None
    }
}

/// Finds the first occurrence of a byte at or after `from`; the length of
/// the input stands for none.
pub fn find(input: &[u8], from: usize, b: u8) -> (at: usize)
    requires
        from <= input.len(),
    ensures
        at == find_byte(input@, from as int, b),
        from <= at <= input.len(),
{
    let mut at: usize = from;
    while at < input.len() && input[at] != b
        invariant
            from <= at <= input.len(),
            find_byte(input@, from as int, b) == find_byte(input@, at as int, b),
        decreases input.len() - at,
    {
        at = at + 1;
    }
    at
}

/// Finds the end of the run of digits that starts at `from`.
pub fn scan_digits(input: &[u8], from: usize) -> (end: usize)
    requires
        from <= input.len(),
    ensures
        end == digits_end(input@, from as int),
        from <= end <= input.len(),
{
    let mut at: usize = from;
    while at < input.len() && input[at] >= 0x30 && input[at] <= 0x39
        invariant
            from <= at <= input.len(),
            digits_end(input@, from as int) == digits_end(input@, at as int),
        decreases input.len() - at,
    {
        at = at + 1;
    }
    at
}

} // verus!
