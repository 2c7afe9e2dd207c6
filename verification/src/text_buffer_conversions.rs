//! The text buffer of a document, a rope, and the conversions between byte
//! offsets and positions that every feature goes through. A position is a
//! line and the number of bytes from the beginning of that line, so that a
//! byte and its position name one another.

use vstd::prelude::*;
use crate::lsp_types::{Position, Range};
use crate::parser::ByteSpan;
use crate::text::{
    byte_len, byte_offset, char_of_byte, is_boundary, is_line_break, lemma_byte_offset_monotonic,
    lemma_char_of_byte_from,
};

verus! {

/// Trusted: the type `ropey::Rope`, a text kept in chunks. Nothing inside
/// a rope is visible here; what it holds goes by the name `rope_text`.
#[verifier::external_type_specification]
#[verifier::external_body]
pub struct ExRope(ropey::Rope);

/// The text that a rope holds.
pub uninterp spec fn rope_text(rope: ropey::Rope) -> Seq<char>;

/// Whether a line ends with the character at index `j`: the character is
/// a line break, and it is no carriage return with a line feed after it,
/// for the two together are one line break, which ends with the line feed.
pub open spec fn ends_line(text: Seq<char>, j: int) -> bool {
    0 <= j < text.len() && is_line_break(text[j]) && !(text[j] == '\r' && j + 1 < text.len()
        && text[j + 1] == '\n')
}

/// The number of lines that end before the character with index `k`.
pub open spec fn lines_before(text: Seq<char>, k: int) -> int
    decreases k,
{
    if k <= 0 {
        0
    } else if ends_line(text, k - 1) {
        lines_before(text, k - 1) + 1
    } else {
        lines_before(text, k - 1)
    }
}

/// The number of lines of a text: one more than it has line breaks.
pub open spec fn line_count(text: Seq<char>) -> int {
    lines_before(text, text.len() as int) + 1
}

/// The index of the line that the byte `byte_idx` lies on: the number of
/// lines that end before the character that the byte belongs to.
pub open spec fn line_of_byte(text: Seq<char>, byte_idx: int) -> int {
    lines_before(text, char_of_byte(text, byte_idx))
}

/// The index of the character at which the line begins that comes `line`
/// lines after the one that the character with index `from` lies on, when
/// that character begins its line; the number of characters where the text
/// has no such line.
pub open spec fn line_start_char(text: Seq<char>, line: int, from: int) -> int
    decreases text.len() - from,
{
    if line <= 0 {
        from
    } else if from < 0 || from >= text.len() {
        text.len() as int
    } else if ends_line(text, from) {
        line_start_char(text, line - 1, from + 1)
    } else {
        line_start_char(text, line, from + 1)
    }
}

/// The byte at which line `line` begins: the beginning of the text for the
/// first line, and else the byte after the line break that ends the line
/// before; the end of the text for a line that the text does not have.
pub open spec fn line_start_byte(text: Seq<char>, line: int) -> int {
    byte_offset(text, line_start_char(text, line, 0))
}

/// The number of lines that end before a character grows with the
/// character, by one at most for each character.
pub proof fn lemma_lines_before_monotonic(text: Seq<char>, i: int, j: int)
    requires
        0 <= i <= j,
    ensures
        0 <= lines_before(text, i) <= lines_before(text, j) <= lines_before(text, i) + (j - i),
    decreases j,
{
    if i < j {
        lemma_lines_before_monotonic(text, i, j - 1);
    } else if i > 0 {
        lemma_lines_before_monotonic(text, 0, i - 1);
        lemma_lines_before_monotonic(text, i - 1, i - 1);
    }
}

/// A line begins within the text, at or after the character from which it
/// is looked for.
pub proof fn lemma_line_start_bounds(text: Seq<char>, line: int, from: int)
    requires
        0 <= from <= text.len(),
    ensures
        from <= line_start_char(text, line, from) <= text.len(),
    decreases text.len() - from,
{
    if line > 0 && from < text.len() {
        if ends_line(text, from) {
            lemma_line_start_bounds(text, line - 1, from + 1);
        } else {
            lemma_line_start_bounds(text, line, from + 1);
        }
    }
}

/// The line that a character lies on begins at or before the character.
pub proof fn lemma_line_starts_before(text: Seq<char>, from: int, k: int)
    requires
        0 <= from <= k <= text.len(),
    ensures
        from <= line_start_char(
            text,
            lines_before(text, k) - lines_before(text, from),
            from,
        ) <= k,
    decreases k - from,
{
    lemma_lines_before_monotonic(text, from, k);
    let rest = lines_before(text, k) - lines_before(text, from);
    if rest > 0 {
        lemma_lines_before_monotonic(text, from + 1, k);
        lemma_line_starts_before(text, from + 1, k);
    }
}

/// The line of a byte of the text is one of the text's lines, and begins
/// at or before the byte.
pub proof fn lemma_line_of_byte(text: Seq<char>, b: int)
    requires
        0 <= b <= byte_len(text),
    ensures
        0 <= line_of_byte(text, b) < line_count(text),
        line_count(text) <= text.len() + 1,
        0 <= line_start_byte(text, line_of_byte(text, b)) <= b,
{
    lemma_char_of_byte_from(text, b, 0);
    let k = char_of_byte(text, b);
    lemma_lines_before_monotonic(text, 0, k);
    lemma_lines_before_monotonic(text, k, text.len() as int);
    lemma_lines_before_monotonic(text, 0, text.len() as int);
    lemma_line_starts_before(text, 0, k);
    let start = line_start_char(text, lines_before(text, k), 0);
    lemma_byte_offset_monotonic(text, start, k);
}

/// Trusted: the `clone` of a rope. The copy holds the same text.
pub assume_specification[ <ropey::Rope as Clone>::clone ](rope: &ropey::Rope) -> (copy: ropey::Rope)
    ensures
        rope_text(copy) == rope_text(*rope),
;

/// Trusted: `Rope::from_str`. The rope holds the text it was made from.
#[verifier::external_body]
fn rope_from_str(text: &str) -> (rope: ropey::Rope)
    ensures
        rope_text(rope) == text@,
{
    ropey::Rope::from_str(text)
}

/// Trusted: `Rope::len_bytes`, the number of bytes of the text in UTF-8.
#[verifier::external_body]
fn rope_len_bytes(rope: &ropey::Rope) -> (n: usize)
    ensures
        n == byte_len(rope_text(*rope)),
{
    rope.len_bytes()
}

/// Trusted: `Rope::len_lines`, with the line breaks that the rope counts
/// by default: one more than the text has line breaks, where a carriage
/// return and the line feed after it are one line break.
#[verifier::external_body]
fn rope_len_lines(rope: &ropey::Rope) -> (n: usize)
    ensures
        n == line_count(rope_text(*rope)),
{
    rope.len_lines()
}

/// Trusted: `Rope::byte_to_line`, which panics past the end of the text.
/// The line of a byte is the number of line breaks that lie before the
/// character that the byte belongs to; a line feed that follows a carriage
/// return is still on the line that the two end.
#[verifier::external_body]
fn rope_byte_to_line(rope: &ropey::Rope, byte_idx: usize) -> (line: usize)
    requires
        byte_idx <= byte_len(rope_text(*rope)),
    ensures
        line == line_of_byte(rope_text(*rope), byte_idx as int),
{
    rope.byte_to_line(byte_idx)
}

/// Trusted: `Rope::line_to_byte`, which panics past the line after the
/// last. The first line begins with the text, every other line right after
/// the line break that ends the line before it, and the line after the
/// last at the end of the text.
#[verifier::external_body]
fn rope_line_to_byte(rope: &ropey::Rope, line_idx: usize) -> (byte_idx: usize)
    requires
        line_idx <= line_count(rope_text(*rope)),
    ensures
        byte_idx == line_start_byte(rope_text(*rope), line_idx as int),
{
    rope.line_to_byte(line_idx)
}

/// Trusted: the `to_string` of a rope, which gives the text it holds.
#[verifier::external_body]
fn rope_to_string(rope: &ropey::Rope) -> (s: String)
    ensures
        s@ == rope_text(*rope),
{
    rope.to_string()
}

/// Whether the bytes from `start` to `end` can be cut out of a text: they
/// are in order and within the text, and at each of the two a character
/// begins or the text ends.
pub open spec fn sliceable(text: Seq<char>, start: int, end: int) -> bool {
    0 <= start && start <= end && end <= byte_len(text) && is_boundary(text, start) && is_boundary(
        text,
        end,
    )
}

/// The characters between the bytes `start` and `end`.
pub open spec fn byte_slice_of(text: Seq<char>, start: int, end: int) -> Seq<char> {
    text.subrange(char_of_byte(text, start), char_of_byte(text, end))
}

/// Trusted: `Rope::get_byte_slice`, and the `to_string` of the slice. There
/// is a slice where the range is in order, ends within the text and has
/// both ends where a character begins or the text ends; the slice holds the
/// characters between the two.
#[verifier::external_body]
fn rope_byte_slice(rope: &ropey::Rope, start: usize, end: usize) -> (s: Option<String>)
    ensures
        s.is_some() == sliceable(rope_text(*rope), start as int, end as int),
        s.is_some() ==> s.unwrap()@ == byte_slice_of(rope_text(*rope), start as int, end as int),
{
    match rope.get_byte_slice(start..end) {
        Some(slice) => Some(slice.to_string()),
        None => None,
    }
}

/// The position of the byte `b`: its line, and the number of bytes
/// between the beginning of that line and the byte.
pub open spec fn position_of_byte(text: Seq<char>, b: int) -> Position {
    let line = line_of_byte(text, b);
    Position { line: line as usize, character: (b - line_start_byte(text, line)) as usize }
}

/// The byte that a position names: the byte at which its line begins, plus
/// its column. There is none where the text has no such line, counting the
/// line after the last, or where the sum is no machine integer.
pub open spec fn byte_of_position(text: Seq<char>, p: Position) -> Option<usize> {
    if p.line <= line_count(text) && line_start_byte(text, p.line as int) + p.character
        <= usize::MAX {
        Some((line_start_byte(text, p.line as int) + p.character) as usize)
    } else {
        None
    }
}

/// Turning a byte of the text into a position and the position back into
/// a byte gives the byte again.
pub proof fn lemma_position_round_trip(text: Seq<char>, b: int)
    requires
        0 <= b <= byte_len(text) <= usize::MAX,
    ensures
        byte_of_position(text, position_of_byte(text, b)) == Some(b as usize),
        position_of_byte(text, b).line < line_count(text),
{
    lemma_line_of_byte(text, b);
    lemma_byte_offset_monotonic(text, 0, text.len() as int);
}

/// Turning a span of bytes of the text into a range and the range back
/// into a span gives the span again.
pub proof fn lemma_range_round_trip(text: Seq<char>, span: ByteSpan)
    requires
        span.start <= byte_len(text),
        span.end <= byte_len(text),
        byte_len(text) <= usize::MAX,
    ensures
        span_of_range(text, range_of_span(text, span)) == Some(span),
{
    lemma_position_round_trip(text, span.start as int);
    lemma_position_round_trip(text, span.end as int);
}

/// The range of a span of bytes.
pub open spec fn range_of_span(text: Seq<char>, span: ByteSpan) -> Range {
    Range {
        start: position_of_byte(text, span.start as int),
        end: position_of_byte(text, span.end as int),
    }
}

/// The span of bytes of a range, where both its ends name a byte.
pub open spec fn span_of_range(text: Seq<char>, range: Range) -> Option<ByteSpan> {
    match (byte_of_position(text, range.start), byte_of_position(text, range.end)) {
        (Some(start), Some(end)) => Some(ByteSpan { start, end }),
        _ => None,
    }
}

/// A text, held in a rope.
#[derive(Debug, Clone)]
pub struct TextBuffer {
    pub rope: ropey::Rope,
}

impl View for TextBuffer {
    type V = Seq<char>;

    open spec fn view(&self) -> Seq<char> {
        rope_text(self.rope)
    }
}

/// The conversions between byte offsets and positions that a text buffer
/// offers.
pub trait TextBufferConversions: View<V = Seq<char>> {
    /// Returns the total length of the buffer in bytes.
    fn byte_len(&self) -> (n: usize)
        ensures
            n == byte_len(self@),
    ;

    /// Converts a byte offset within the text buffer to a position: the
    /// line of the byte, and the number of bytes between the beginning of
    /// that line and the byte. The position names the offset again.
    fn byte_to_lsp_position(&self, byte_offset: usize) -> (p: Position)
        requires
            byte_offset <= byte_len(self@),
        ensures
            p == position_of_byte(self@, byte_offset as int),
            p.line < line_count(self@),
            byte_of_position(self@, p) == Some(byte_offset),
    ;

    /// Converts a position to a byte offset within the text buffer, if the
    /// position names one.
    fn lsp_position_to_byte(&self, position: Position) -> (b: Option<usize>)
        ensures
            b == byte_of_position(self@, position),
    ;

    /// Converts a span of bytes to a range.
    fn byte_to_lsp_range(&self, span: &ByteSpan) -> (r: Range)
        requires
            span.start <= byte_len(self@),
            span.end <= byte_len(self@),
        ensures
            r == range_of_span(self@, *span),
            span_of_range(self@, r) == Some(*span),
    {
        let start = self.byte_to_lsp_position(span.start);
        let end = self.byte_to_lsp_position(span.end);
        Range { start, end }
    }

    /// Converts a range to a span of bytes, if both its ends name a byte.
    fn lsp_range_to_byte_range(&self, range: &Range) -> (r: Option<ByteSpan>)
        ensures
            r == span_of_range(self@, *range),
    {
        let start = self.lsp_position_to_byte(range.start);
        let end = self.lsp_position_to_byte(range.end);
        match (start, end) {
            (Some(start), Some(end)) => Some(ByteSpan { start, end }),
            _ => None,
        }
    }
}

impl TextBufferConversions for TextBuffer {
    fn byte_len(&self) -> (n: usize) {
        rope_len_bytes(&self.rope)
    }

    fn byte_to_lsp_position(&self, byte_offset: usize) -> (p: Position) {
        let total = rope_len_bytes(&self.rope);
        proof {
            lemma_position_round_trip(self@, byte_offset as int);
            lemma_line_of_byte(self@, byte_offset as int);
        }
        let line = rope_byte_to_line(&self.rope, byte_offset);
        let start = rope_line_to_byte(&self.rope, line);
        Position { line, character: byte_offset - start }
    }

    fn lsp_position_to_byte(&self, position: Position) -> (b: Option<usize>) {
        let lines = rope_len_lines(&self.rope);
        if position.line > lines {
            return None;
        }
        let start = rope_line_to_byte(&self.rope, position.line);
        start.checked_add(position.character)
    }
}

impl TextBuffer {
    /// A buffer that holds `text`.
    pub fn new(text: &str) -> (buffer: Self)
        ensures
            buffer@ == text@,
    {
        TextBuffer { rope: rope_from_str(text) }
    }

    /// A buffer that holds the same text.
    pub fn duplicate(&self) -> (copy: Self)
        ensures
            copy@ == self@,
    {
        TextBuffer { rope: self.rope.clone() }
    }

    /// The number of lines of the text: one more than it has line breaks.
    pub fn len_lines(&self) -> (n: usize)
        ensures
            n == line_count(self@),
            n >= 1,
    {
        proof {
            lemma_lines_before_monotonic(self@, 0, self@.len() as int);
        }
        rope_len_lines(&self.rope)
    }

    /// The whole text.
    pub fn to_string(&self) -> (s: String)
        ensures
            s@ == self@,
    {
        rope_to_string(&self.rope)
    }

    /// The text between two bytes, where they are in order, within the text
    /// and each at the beginning of a character or at the end of the text.
    pub fn byte_slice(&self, start: usize, end: usize) -> (s: Option<String>)
        ensures
            s.is_some() == sliceable(self@, start as int, end as int),
            s.is_some() ==> s.unwrap()@ == byte_slice_of(self@, start as int, end as int),
    {
        rope_byte_slice(&self.rope, start, end)
    }
}

} // verus!
