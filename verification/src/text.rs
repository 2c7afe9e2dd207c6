//! Character sequences: conversions between strings and character vectors,
//! the character classes of the standard library that the rest of the crate
//! leans on, and the UTF-8 arithmetic that ties character indices to byte
//! offsets.

use vstd::prelude::*;
use vstd::utf8::*;

verus! {

/// The text of an optional string.
pub open spec fn opt_text(s: Option<String>) -> Option<Seq<char>> {
    match s {
        Some(t) => Some(t@),
        None => None,
    }
}

/// The text of an optional string slice.
pub open spec fn opt_str_text(s: Option<&str>) -> Option<Seq<char>> {
    match s {
        Some(t) => Some(t@),
        None => None,
    }
}

/// Whether `c` alone is a line break: a line feed, a vertical tab, a form
/// feed, a carriage return, a next line, or a line or paragraph separator.
pub open spec fn is_line_break(c: char) -> bool {
    c == '\n' || c == '\r' || c == '\x0B' || c == '\x0C' || c == '\u{85}' || c == '\u{2028}' || c
        == '\u{2029}'
}

/// Whether a character is alphanumeric in Unicode's sense.
pub uninterp spec fn is_alphanumeric(c: char) -> bool;

/// Whether a character is alphabetic in Unicode's sense.
pub uninterp spec fn is_alphabetic(c: char) -> bool;

/// Whether a character has Unicode's `White_Space` property.
pub uninterp spec fn is_whitespace(c: char) -> bool;

/// Whether a character is a control character.
pub uninterp spec fn is_control(c: char) -> bool;

/// The lowercase form of a text.
pub uninterp spec fn lowercase(s: Seq<char>) -> Seq<char>;

/// The uppercase form of a text.
pub uninterp spec fn uppercase(s: Seq<char>) -> Seq<char>;

/// Trusted: `char::is_alphanumeric`. Its answer depends on the character
/// alone, and the contract only gives that answer a name.
#[verifier::external_body]
pub(crate) fn char_is_alphanumeric(c: char) -> (b: bool)
    ensures
        b == is_alphanumeric(c),
{
    c.is_alphanumeric()
}

/// Trusted: `char::is_alphabetic`. Its answer depends on the character
/// alone, and the contract only gives that answer a name.
#[verifier::external_body]
pub(crate) fn char_is_alphabetic(c: char) -> (b: bool)
    ensures
        b == is_alphabetic(c),
{
    c.is_alphabetic()
}

/// Trusted: `char::is_whitespace`. Its answer depends on the character
/// alone, and the contract only gives that answer a name.
#[verifier::external_body]
pub(crate) fn char_is_whitespace(c: char) -> (b: bool)
    ensures
        b == is_whitespace(c),
{
    c.is_whitespace()
}

/// Trusted: `char::is_control`. Its answer depends on the character alone,
/// and the contract only gives that answer a name.
#[verifier::external_body]
pub(crate) fn char_is_control(c: char) -> (b: bool)
    ensures
        b == is_control(c),
{
    c.is_control()
}

/// Trusted: `str::to_lowercase`. The result depends on the text alone; the
/// contract names it and claims nothing else about it.
#[verifier::external_body]
pub(crate) fn str_to_lowercase(s: &str) -> (r: String)
    ensures
        r@ == lowercase(s@),
{
    s.to_lowercase()
}

/// Trusted: `str::to_uppercase`. The result depends on the text alone; the
/// contract names it and claims nothing else about it.
#[verifier::external_body]
pub(crate) fn str_to_uppercase(s: &str) -> (r: String)
    ensures
        r@ == uppercase(s@),
{
    s.to_uppercase()
}

/// Trusted: `String::from_iter` over a slice of characters. The string holds
/// exactly the characters of the slice, in order.
#[verifier::external_body]
pub(crate) fn string_from_chars(v: &[char]) -> (r: String)
    ensures
        r@ == v@,
{
    String::from_iter(v.iter())
}

/// The characters of a string slice, in order.
pub fn to_chars(s: &str) -> (v: Vec<char>)
    ensures
        v@ == s@,
{
    let mut v: Vec<char> = Vec::new();
    for c in it: s.chars()
        invariant
            v@ == it.seq().take(it.index()),
            it.seq() == s@,
    {
        v.push(c);
    }
    v
}

/// The string made of the characters `v[from..to]`.
pub fn substring(v: &Vec<char>, from: usize, to: usize) -> (r: String)
    requires
        from <= to <= v.len(),
    ensures
        r@ == v@.subrange(from as int, to as int),
{
    let mut out: Vec<char> = Vec::new();
    let mut i: usize = from;
    while i < to
        invariant
            from <= i <= to <= v.len(),
            out@ == v@.subrange(from as int, i as int),
        decreases to - i,
    {
        out.push(v[i]);
        i += 1;
    }
    string_from_chars(out.as_slice())
}

/// Whether two texts hold the same characters.
pub fn chars_eq(a: &Vec<char>, b: &Vec<char>) -> (r: bool)
    ensures
        r == (a@ == b@),
{
    if a.len() != b.len() {
        return false;
    }
    let mut i: usize = 0;
    while i < a.len()
        invariant
            a.len() == b.len(),
            i <= a.len(),
            a@.take(i as int) == b@.take(i as int),
        decreases a.len() - i,
    {
        if a[i] != b[i] {
            return false;
        }
        proof {
            assert(a@.take(i + 1) == a@.take(i as int).push(a@[i as int]));
            assert(b@.take(i + 1) == b@.take(i as int).push(b@[i as int]));
        }
        i += 1;
    }
    proof {
        assert(a@.take(a.len() as int) == a@);
        assert(b@.take(b.len() as int) == b@);
    }
    true
}

/// Whether two string slices hold the same characters.
pub fn str_eq(a: &str, b: &str) -> (r: bool)
    ensures
        r == (a@ == b@),
{
    let x = to_chars(a);
    let y = to_chars(b);
    chars_eq(&x, &y)
}

/// Whether `pat` occurs in `s` at index `i`.
pub open spec fn occurs_at(s: Seq<char>, i: int, pat: Seq<char>) -> bool {
    0 <= i && i + pat.len() <= s.len() && s.subrange(i, i + pat.len()) == pat
}

/// Whether `s` begins with `pat`.
pub open spec fn has_prefix(s: Seq<char>, pat: Seq<char>) -> bool {
    occurs_at(s, 0, pat)
}

/// Whether `s` ends with `pat`.
pub open spec fn has_suffix(s: Seq<char>, pat: Seq<char>) -> bool {
    occurs_at(s, s.len() - pat.len(), pat)
}

/// Whether `pat` occurs in `s` at index `i`.
pub fn matches_at(s: &Vec<char>, i: usize, pat: &Vec<char>) -> (r: bool)
    ensures
        r == occurs_at(s@, i as int, pat@),
{
    if i > s.len() || pat.len() > s.len() - i {
        return false;
    }
    let mut k: usize = 0;
    while k < pat.len()
        invariant
            i + pat.len() <= s.len(),
            k <= pat.len(),
            s@.subrange(i as int, i + k) == pat@.take(k as int),
        decreases pat.len() - k,
    {
        if s[i + k] != pat[k] {
            proof {
                let full = s@.subrange(i as int, i + pat.len());
                assert(full[k as int] == s@[i + k]);
            }
            return false;
        }
        proof {
            assert(s@.subrange(i as int, i + k + 1) == s@.subrange(i as int, i + k).push(
                s@[i + k],
            ));
            assert(pat@.take(k + 1) == pat@.take(k as int).push(pat@[k as int]));
        }
        k += 1;
    }
    proof {
        assert(pat@.take(pat.len() as int) == pat@);
    }
    true
}

/// Whether the character `c` occurs anywhere in `s`.
pub fn contains_char(s: &Vec<char>, c: char) -> (r: bool)
    ensures
        r == s@.contains(c),
{
    let mut i: usize = 0;
    while i < s.len()
        invariant
            i <= s.len(),
            forall|k: int| 0 <= k < i ==> s@[k] != c,
        decreases s.len() - i,
    {
        if s[i] == c {
            return true;
        }
        i += 1;
    }
    false
}

/// The two texts joined, first `a`, then `b`.
pub fn concat(a: &Vec<char>, b: &Vec<char>) -> (r: Vec<char>)
    ensures
        r@ == a@ + b@,
{
    let mut out: Vec<char> = a.clone();
    let mut i: usize = 0;
    while i < b.len()
        invariant
            i <= b.len(),
            out@ == a@ + b@.take(i as int),
        decreases b.len() - i,
    {
        out.push(b[i]);
        proof {
            assert(b@.take(i + 1) == b@.take(i as int).push(b@[i as int]));
        }
        i += 1;
    }
    proof {
        assert(b@.take(b.len() as int) == b@);
    }
    out
}

/// The number of bytes that the UTF-8 encoding of `c` takes.
pub open spec fn utf8_width(c: char) -> int {
    if (c as u32) < 0x80 {
        1
    } else if (c as u32) < 0x800 {
        2
    } else if (c as u32) < 0x10000 {
        3
    } else {
        4
    }
}

/// The number of bytes that the first `k` characters of `s` take in UTF-8:
/// the byte offset at which character `k` begins.
pub open spec fn byte_offset(s: Seq<char>, k: int) -> int
    decreases k,
{
    if k <= 0 || k > s.len() {
        0
    } else {
        byte_offset(s, k - 1) + utf8_width(s[k - 1])
    }
}

/// The length of `s` in UTF-8 bytes.
pub open spec fn byte_len(s: Seq<char>) -> int {
    byte_offset(s, s.len() as int)
}

/// Byte offsets grow with the character index, by at least one byte and at
/// most four bytes for each character.
pub proof fn lemma_byte_offset_monotonic(s: Seq<char>, i: int, j: int)
    requires
        0 <= i <= j <= s.len(),
    ensures
        byte_offset(s, i) + (j - i) <= byte_offset(s, j) <= byte_offset(s, i) + 4 * (j - i),
        0 <= byte_offset(s, i),
    decreases j - i,
{
    if i < j {
        lemma_byte_offset_monotonic(s, i, j - 1);
    } else {
        lemma_byte_offset_nonnegative(s, i);
    }
}

proof fn lemma_byte_offset_nonnegative(s: Seq<char>, i: int)
    ensures
        0 <= byte_offset(s, i),
    decreases i,
{
    if 0 < i && i <= s.len() {
        lemma_byte_offset_nonnegative(s, i - 1);
    }
}

proof fn lemma_byte_offset_shift(s: Seq<char>, k: int)
    requires
        1 <= k <= s.len(),
    ensures
        byte_offset(s, k) == utf8_width(s[0]) + byte_offset(s.drop_first(), k - 1),
    decreases k,
{
    if k > 1 {
        lemma_byte_offset_shift(s, k - 1);
        assert(s.drop_first()[k - 2] == s[k - 1]);
    } else {
        assert(byte_offset(s, 0) == 0);
        assert(byte_offset(s.drop_first(), 0) == 0);
    }
}

/// The byte length defined here is the length of the UTF-8 encoding.
pub proof fn lemma_byte_len_is_encoding_len(s: Seq<char>)
    ensures
        byte_len(s) == encode_utf8(s).len(),
    decreases s.len(),
{
    if s.len() > 0 {
        lemma_byte_len_is_encoding_len(s.drop_first());
        lemma_byte_offset_shift(s, s.len() as int);
        char_is_scalar(s[0]);
    }
}

/// The index of the character that the byte `b` belongs to, counting from
/// character `k`; the number of characters if `b` lies at or past the end.
pub open spec fn char_of_byte_from(text: Seq<char>, b: int, k: int) -> int
    decreases text.len() - k,
{
    if 0 <= k < text.len() && byte_offset(text, k + 1) <= b {
        char_of_byte_from(text, b, k + 1)
    } else {
        k
    }
}

/// The index of the character that the byte `b` belongs to; the number of
/// characters if `b` lies at or past the end of the text.
pub open spec fn char_of_byte(text: Seq<char>, b: int) -> int {
    char_of_byte_from(text, b, 0)
}

/// Whether a character begins at byte `b`, or the text ends there.
pub open spec fn is_boundary(text: Seq<char>, b: int) -> bool {
    byte_offset(text, char_of_byte(text, b)) == b
}

/// What `char_of_byte_from` boils down to.
pub proof fn lemma_char_of_byte_from(text: Seq<char>, b: int, k: int)
    requires
        0 <= k <= text.len(),
        byte_offset(text, k) <= b,
    ensures
        k <= char_of_byte_from(text, b, k) <= text.len(),
        byte_offset(text, char_of_byte_from(text, b, k)) <= b,
        char_of_byte_from(text, b, k) < text.len() ==> b < byte_offset(
            text,
            char_of_byte_from(text, b, k) + 1,
        ),
    decreases text.len() - k,
{
    if k < text.len() && byte_offset(text, k + 1) <= b {
        lemma_char_of_byte_from(text, b, k + 1);
    }
}

/// The character of a byte is the one whose bytes hold it.
pub proof fn lemma_char_of_byte_unique(text: Seq<char>, b: int, k: int)
    requires
        0 <= k <= text.len(),
        byte_offset(text, k) <= b,
        k < text.len() ==> b < byte_offset(text, k + 1),
    ensures
        char_of_byte(text, b) == k,
{
    lemma_byte_offset_monotonic(text, 0, k);
    lemma_char_of_byte_from(text, b, 0);
    let c = char_of_byte(text, b);
    if c < k {
        lemma_byte_offset_monotonic(text, c + 1, k);
    } else if k < c {
        lemma_byte_offset_monotonic(text, k + 1, c);
    }
}

/// The number of bytes that the UTF-8 encoding of `c` takes.
pub fn char_width(c: char) -> (w: usize)
    ensures
        w == utf8_width(c),
{
    let u: u32 = c as u32;
    if u < 0x80 {
        1
    } else if u < 0x800 {
        2
    } else if u < 0x10000 {
        3
    } else {
        4
    }
}


/// The character of a decimal digit.
pub open spec fn digit(d: nat) -> char {
    if d == 0 {
        '0'
    } else if d == 1 {
        '1'
    } else if d == 2 {
        '2'
    } else if d == 3 {
        '3'
    } else if d == 4 {
        '4'
    } else if d == 5 {
        '5'
    } else if d == 6 {
        '6'
    } else if d == 7 {
        '7'
    } else if d == 8 {
        '8'
    } else {
        '9'
    }
}

/// A number written in decimal digits.
pub open spec fn decimal(n: nat) -> Seq<char>
    decreases n,
{
    if n < 10 {
        seq![digit(n)]
    } else {
        decimal(n / 10).push(digit(n % 10))
    }
}

fn digit_char(d: u64) -> (c: char)
    requires
        d < 10,
    ensures
        c == digit(d as nat),
{
    if d == 0 {
        '0'
    } else if d == 1 {
        '1'
    } else if d == 2 {
        '2'
    } else if d == 3 {
        '3'
    } else if d == 4 {
        '4'
    } else if d == 5 {
        '5'
    } else if d == 6 {
        '6'
    } else if d == 7 {
        '7'
    } else if d == 8 {
        '8'
    } else {
        '9'
    }
}

/// Writes a number in decimal digits.
pub fn decimal_chars(n: u64) -> (out: Vec<char>)
    ensures
        out@ == decimal(n as nat),
    decreases n,
{
    if n < 10 {
        let mut out: Vec<char> = Vec::new();
        out.push(digit_char(n));
        proof {
            assert(out@ =~= seq![digit(n as nat)]);
        }
        out
    } else {
        let mut out = decimal_chars(n / 10);
        out.push(digit_char(n % 10));
        out
    }
}

/// Appends the characters of `more` to `out`.
pub fn push_chars(out: &mut Vec<char>, more: &Vec<char>)
    ensures
        final(out)@ == old(out)@ + more@,
{
    let mut i: usize = 0;
    while i < more.len()
        invariant
            i <= more.len(),
            out@ == old(out)@ + more@.take(i as int),
        decreases more.len() - i,
    {
        out.push(more[i]);
        proof {
            assert(more@.take(i + 1) == more@.take(i as int).push(more@[i as int]));
        }
        i += 1;
    }
    proof {
        assert(more@.take(more.len() as int) == more@);
    }
}

/// Appends the characters of the string `more` to `out`.
pub fn push_str(out: &mut Vec<char>, more: &str)
    ensures
        final(out)@ == old(out)@ + more@,
{
    let chars = to_chars(more);
    push_chars(out, &chars);
}


/// The index of the first `c` at or after `from`, or the length of the
/// text if there is none.
pub open spec fn first_index_of(s: Seq<char>, c: char, from: int) -> int
    decreases s.len() - from,
{
    if 0 <= from < s.len() && s[from] != c {
        first_index_of(s, c, from + 1)
    } else {
        from
    }
}

/// Finds the first `c` at or after `from`.
pub fn find_first(s: &Vec<char>, c: char, from: usize) -> (r: usize)
    requires
        from <= s.len(),
    ensures
        r == first_index_of(s@, c, from as int),
        from <= r <= s.len(),
        r < s.len() ==> s@[r as int] == c,
{
    let mut i: usize = from;
    while i < s.len() && s[i] != c
        invariant
            from <= i <= s.len(),
            first_index_of(s@, c, from as int) == first_index_of(s@, c, i as int),
        decreases s.len() - i,
    {
        i += 1;
    }
    i
}

/// The text with every `from` replaced by the characters of `to`.
pub open spec fn replaced(s: Seq<char>, from: char, to: Seq<char>) -> Seq<char>
    decreases s.len(),
{
    if s.len() == 0 {
        seq![]
    } else if s.last() == from {
        replaced(s.drop_last(), from, to) + to
    } else {
        replaced(s.drop_last(), from, to).push(s.last())
    }
}

/// Replaces every `from` by the characters of `to`.
pub fn replace_char(s: &Vec<char>, from: char, to: &Vec<char>) -> (out: Vec<char>)
    ensures
        out@ == replaced(s@, from, to@),
{
    let mut out: Vec<char> = Vec::new();
    let mut i: usize = 0;
    proof {
        assert(s@.take(0) =~= Seq::empty());
    }
    while i < s.len()
        invariant
            i <= s.len(),
            out@ == replaced(s@.take(i as int), from, to@),
        decreases s.len() - i,
    {
        proof {
            let next = s@.take(i + 1);
            assert(next.drop_last() == s@.take(i as int));
            assert(next.last() == s@[i as int]);
        }
        if s[i] == from {
            push_chars(&mut out, to);
        } else {
            out.push(s[i]);
        }
        i += 1;
    }
    proof {
        assert(s@.take(s.len() as int) == s@);
    }
    out
}

} // verus!
