//! Framing: a message travels as a header that tells its length in bytes,
//! an empty line, and the message itself.

use vstd::prelude::*;
use crate::error::LspError;
use crate::scan::{trim_bounds, trim_hi, trim_lo};
use crate::text::{
    byte_len, decimal, decimal_chars, lemma_byte_len_is_encoding_len, matches_at, occurs_at,
    push_chars, push_str, string_from_chars, to_chars,
};

verus! {

/// The name of the header that tells the length, with the colon and the
/// space that follow it.
pub open spec fn length_header() -> Seq<char> {
    "Content-Length: "@
}

/// A message in its frame.
pub open spec fn framed(payload: Seq<char>) -> Seq<char> {
    length_header() + decimal(byte_len(payload) as nat) + "\r\n\r\n"@ + payload
}

/// Puts a message, given as JSON text, in its frame.
pub fn encode_message(payload: &str) -> (r: Result<String, LspError>)
    ensures
        r is Ok,
        r->Ok_0@ == framed(payload@),
{
    let length = payload.as_bytes().len();
    proof {
        lemma_byte_len_is_encoding_len(payload@);
    }
    let digits = decimal_chars(length as u64);
    let mut out: Vec<char> = Vec::new();
    push_str(&mut out, "Content-Length: ");
    push_chars(&mut out, &digits);
    push_str(&mut out, "\r\n\r\n");
    push_str(&mut out, payload);
    proof {
        assert(out@ =~= framed(payload@));
    }
    Ok(string_from_chars(out.as_slice()))
}

/// Whether a line begins at index `i`.
pub open spec fn line_starts_at(text: Seq<char>, i: int) -> bool {
    i == 0 || (0 < i <= text.len() && text[i - 1] == '\n')
}

/// The index of the first line, at or after `from`, that begins with the
/// name of the header that tells the length.
pub open spec fn length_line(text: Seq<char>, from: int) -> Option<int>
    decreases text.len() - from,
{
    if from < 0 || from >= text.len() {
        None
    } else if line_starts_at(text, from) && occurs_at(text, from, length_header()) {
        Some(from)
    } else {
        length_line(text, from + 1)
    }
}

/// The value of a decimal digit, if the character is one.
pub open spec fn digit_value(c: char) -> Option<nat> {
    if '0' <= c <= '9' {
        Some((c as u32 - '0' as u32) as nat)
    } else {
        None
    }
}

/// The number that a text of decimal digits stands for. A text that holds
/// anything else, or nothing, stands for none.
pub open spec fn digits_value(s: Seq<char>) -> Option<nat>
    decreases s.len(),
{
    if s.len() == 0 {
        None
    } else if s.len() == 1 {
        digit_value(s[0])
    } else {
        match (digits_value(s.drop_last()), digit_value(s.last())) {
            (Some(high), Some(low)) => Some(high * 10 + low),
            _ => None,
        }
    }
}

/// The number that a text stands for: decimal digits, after a plus sign
/// if there is one, that give a machine integer.
pub open spec fn number_value(s: Seq<char>) -> Option<usize> {
    let digits = if s.len() > 0 && s[0] == '+' {
        s.subrange(1, s.len() as int)
    } else {
        s
    };
    match digits_value(digits) {
        Some(n) => if n <= usize::MAX {
            Some(n as usize)
        } else {
            None
        },
        None => None,
    }
}

/// Where the value of a header that begins at `from` ends: at the next
/// colon or line feed, or at the end of the text.
pub open spec fn value_end(text: Seq<char>, from: int) -> int
    decreases text.len() - from,
{
    if 0 <= from < text.len() && text[from] != ':' && text[from] != '\n' {
        value_end(text, from + 1)
    } else {
        from
    }
}

/// The length that the headers of a frame tell: the number that stands,
/// trimmed, after the name of the first header that tells the length.
/// There is none where no line begins with that name or what follows it is
/// no number.
pub open spec fn told_length(headers: Seq<char>) -> Option<usize> {
    match length_line(headers, 0) {
        Some(i) => {
            let from = i + 15;
            let to = value_end(headers, from);
            number_value(headers.subrange(trim_lo(headers, from, to), trim_hi(headers, from, to)))
        },
        None => None,
    }
}

fn find_length_line(text: &Vec<char>) -> (r: Option<usize>)
    ensures
        match r {
            Some(i) => length_line(text@, 0) == Some(i as int) && i + 16 <= text.len(),
            None => length_line(text@, 0) is None,
        },
{
    let name = to_chars("Content-Length: ");
    proof {
        reveal_strlit("Content-Length: ");
    }
    let mut i: usize = 0;
    while i < text.len()
        invariant
            name@ == length_header(),
            name@.len() == 16,
            length_line(text@, 0) == length_line(text@, i as int),
        decreases text.len() - i,
    {
        if (i == 0 || text[i - 1] == '\n') && matches_at(text, i, &name) {
            return Some(i);
        }
        i += 1;
    }
    None
}

fn parse_digits(s: &Vec<char>, from: usize, to: usize) -> (r: Option<usize>)
    requires
        from <= to <= s.len(),
    ensures
        r == match digits_value(s@.subrange(from as int, to as int)) {
            Some(n) => if n <= usize::MAX {
                Some(n as usize)
            } else {
                None
            },
            None => None,
        },
{
    if from == to {
        return None;
    }
    let mut value: usize = 0;
    let mut i: usize = from;
    let ghost all = s@.subrange(from as int, to as int);
    while i < to
        invariant
            from <= i <= to <= s.len(),
            all == s@.subrange(from as int, to as int),
            i > from ==> digits_value(all.take(i - from)) == Some(value as nat),
            i == from ==> value == 0,
        decreases to - i,
    {
        let c = s[i];
        proof {
            let next = all.take(i + 1 - from);
            assert(next.drop_last() == all.take(i - from));
            assert(next.last() == c);
            assert(next.len() == i + 1 - from);
            if i == from {
                assert(next[0] == c);
            }
        }
        if !(c >= '0' && c <= '9') {
            proof {
                lemma_digits_prefix(all, i + 1 - from);
            }
            return None;
        }
        let d: usize = (c as u32 - '0' as u32) as usize;
        let scaled = match value.checked_mul(10) {
            Some(v) => v,
            None => {
                proof {
                    lemma_digits_grow(all, i + 1 - from);
                }
                return None;
            },
        };
        value = match scaled.checked_add(d) {
            Some(v) => v,
            None => {
                proof {
                    lemma_digits_grow(all, i + 1 - from);
                }
                return None;
            },
        };
        i += 1;
    }
    proof {
        assert(all.take(to - from) == all);
    }
    Some(value)
}

/// A text of digits stands for no number if one of its beginnings stands
/// for none.
proof fn lemma_digits_prefix(s: Seq<char>, k: int)
    requires
        1 <= k <= s.len(),
        digits_value(s.take(k)) is None,
    ensures
        digits_value(s) is None,
    decreases s.len() - k,
{
    if k < s.len() {
        assert(s.take(k + 1).drop_last() == s.take(k));
        assert(s.take(k + 1).len() == k + 1);
        lemma_digits_prefix(s, k + 1);
    } else {
        assert(s.take(k) == s);
    }
}

/// A text of digits stands for a number no smaller than each of its
/// beginnings stands for.
proof fn lemma_digits_grow(s: Seq<char>, k: int)
    requires
        1 <= k <= s.len(),
        digits_value(s.take(k)) is Some,
    ensures
        digits_value(s) is Some ==> digits_value(s)->0 >= digits_value(s.take(k))->0,
    decreases s.len() - k,
{
    if k < s.len() {
        assert(s.take(k + 1).drop_last() == s.take(k));
        assert(s.take(k + 1).len() == k + 1);
        if digits_value(s.take(k + 1)) is Some {
            lemma_digits_grow(s, k + 1);
        } else {
            lemma_digits_prefix(s, k + 1);
        }
    } else {
        assert(s.take(k) == s);
    }
}

/// Reads, from the headers of a frame, the length of the message that
/// follows them.
pub fn content_length(headers: &str) -> (r: Option<usize>)
    ensures
        r == told_length(headers@),
{
    let text = to_chars(headers);
    let i = match find_length_line(&text) {
        Some(i) => i,
        None => {
            return None;
        },
    };
    let from = i + 15;
    let mut to: usize = from;
    while to < text.len() && text[to] != ':' && text[to] != '\n'
        invariant
            from <= to <= text.len(),
            value_end(text@, from as int) == value_end(text@, to as int),
        decreases text.len() - to,
    {
        to += 1;
    }
    let (lo, hi) = trim_bounds(&text, from, to);
    if lo < hi && text[lo] == '+' {
        proof {
            let value = text@.subrange(lo as int, hi as int);
            assert(value.subrange(1, value.len() as int) =~= text@.subrange(lo + 1, hi as int));
        }
        parse_digits(&text, lo + 1, hi)
    } else {
        parse_digits(&text, lo, hi)
    }
}

/// Reads the length of the message from the headers of a frame; a frame
/// whose headers tell none is malformed.
pub fn frame_length(headers: &str) -> (r: Result<usize, LspError>)
    ensures
        r == match told_length(headers@) {
            Some(n) => Ok::<usize, LspError>(n),
            None => Err::<usize, LspError>(LspError::Protocol),
        },
{
    match content_length(headers) {
        Some(n) => Ok(n),
        None => Err(LspError::Protocol),
    }
}

} // verus!
