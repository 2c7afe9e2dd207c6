//! The syntax model of a note and the source text that a parse reads.
//!
//! A parse never copies text. Every piece of text in the syntax model is a
//! `Slice` of the source, and every node carries the `ByteSpan` it covers.

use vstd::prelude::*;
use crate::text::{
    byte_len, byte_offset, char_of_byte, char_width, lemma_byte_len_is_encoding_len,
    lemma_byte_offset_monotonic, lemma_char_of_byte_unique, substring, to_chars,
};

pub mod markdown;
pub mod yaml;

verus! {

/// A half-open stretch of the source, in UTF-8 bytes.
#[derive(Debug, Clone, Copy, PartialEq, Eq, Structural)]
pub struct ByteSpan {
    pub start: usize,
    pub end: usize,
}

impl ByteSpan {
    /// The span as a pair of offsets.
    pub fn into_range(self) -> (r: (usize, usize))
        ensures
            r == (self.start, self.end),
    {
        (self.start, self.end)
    }
}

/// A piece of the source text, from character `start` up to but not
/// including character `end`.
#[derive(Debug, Clone, Copy, PartialEq, Eq, Structural)]
pub struct Slice {
    pub start: usize,
    pub end: usize,
}

impl Slice {
    /// The characters that the slice picks out of `s`.
    pub open spec fn of(self, s: Seq<char>) -> Seq<char> {
        if self.start <= self.end <= s.len() {
            s.subrange(self.start as int, self.end as int)
        } else {
            Seq::empty()
        }
    }

    /// Whether the slice lies within a text of `len` characters.
    pub open spec fn within(self, len: nat) -> bool {
        self.start <= self.end <= len
    }
}

/// A node together with the bytes of the source that it covers.
#[derive(Debug, Clone, PartialEq)]
pub struct Spanned<T>(pub T, pub ByteSpan);

/// The slice of characters `a..b`.
pub open spec fn slice(a: int, b: int) -> Slice {
    Slice { start: a as usize, end: b as usize }
}

/// The bytes that the characters `a..b` of `s` take up.
pub open spec fn span_of(s: Seq<char>, a: int, b: int) -> ByteSpan {
    ByteSpan { start: byte_offset(s, a) as usize, end: byte_offset(s, b) as usize }
}

/// A fragment of a link: the level that its hashes give, and the header
/// text that follows them.
#[derive(Debug, Clone, Copy, PartialEq, Eq, Structural)]
pub struct HeaderRef {
    pub level: usize,
    pub slug: Slice,
}

/// The two kinds of link.
#[derive(Debug, Clone, Copy, PartialEq, Eq, Structural)]
pub enum LinkType {
    InlineLink { text: Slice, uri: Slice, header: Option<HeaderRef> },
    WikiLink { target: Slice, display_text: Option<Slice>, header: Option<HeaderRef> },
}

/// What a paragraph is made of.
#[derive(Debug, Clone, Copy, PartialEq, Eq, Structural)]
pub enum InlineMarkdownNode {
    PlainText(Slice),
    Link(LinkType),
    Image { alt_text: Slice, uri: Slice },
    Tag(Slice),
    Footnote(Slice),
    Invalid,
}

/// A run of inline nodes.
pub type MarkdownText = Vec<Spanned<InlineMarkdownNode>>;

/// What a note is made of, block by block.
#[allow(inconsistent_fields)]
#[derive(Debug, Clone, PartialEq)]
pub enum MarkdownNode {
    Header { level: usize, content: Slice },
    Paragraph(MarkdownText),
    FootnoteDefinition { id: Slice, content: MarkdownText },
    Invalid,
}

/// A block with its inline nodes as a sequence.
#[allow(inconsistent_fields)]
pub enum MarkdownNodeView {
    Header { level: usize, content: Slice },
    Paragraph(Seq<Spanned<InlineMarkdownNode>>),
    FootnoteDefinition { id: Slice, content: Seq<Spanned<InlineMarkdownNode>> },
    Invalid,
}

impl View for MarkdownNode {
    type V = MarkdownNodeView;

    open spec fn view(&self) -> MarkdownNodeView {
        match *self {
            MarkdownNode::Header { level, content } => MarkdownNodeView::Header { level, content },
            MarkdownNode::Paragraph(inlines) => MarkdownNodeView::Paragraph(inlines@),
            MarkdownNode::FootnoteDefinition { id, content } => {
                MarkdownNodeView::FootnoteDefinition { id, content: content@ }
            },
            MarkdownNode::Invalid => MarkdownNodeView::Invalid,
        }
    }
}

/// The blocks of a note with their inline nodes as sequences.
pub open spec fn block_views(blocks: Seq<Spanned<MarkdownNode>>) -> Seq<Spanned<MarkdownNodeView>> {
    Seq::new(blocks.len(), |i: int| Spanned(blocks[i].0@, blocks[i].1))
}

/// What went wrong, or what deserves a remark, in a parse.
#[derive(Debug, Clone, Copy, PartialEq, Eq, Structural)]
pub enum ParseErrorKind {
    /// The alias of a wiki link begins or ends with a space.
    AliasSpacing,
    /// The title of a link begins or ends with a space.
    TitleSpacing,
    /// `[[` opens something that is no wiki link.
    InvalidWikiLink,
    /// `[` opens something that is no link.
    InvalidLink,
    /// `![` opens something that is no image.
    InvalidImage,
    /// `[^` opens something that is no footnote.
    InvalidFootnote,
    /// The input does not begin as the construct asked for begins.
    Unexpected,
    /// The construct asked for ends before the input does.
    TrailingInput,
}

/// The text that describes each kind of error.
pub open spec fn message_text(kind: ParseErrorKind) -> Seq<char> {
    match kind {
        ParseErrorKind::AliasSpacing => "WikiLink alias contains spaces before or after."@,
        ParseErrorKind::TitleSpacing => "Link title contains spaces before or after"@,
        ParseErrorKind::InvalidWikiLink => "WikiLink format is invalid."@,
        ParseErrorKind::InvalidLink => "Link format is invalid."@,
        ParseErrorKind::InvalidImage => "Image format is invalid."@,
        ParseErrorKind::InvalidFootnote => "Footnote format is invalid."@,
        ParseErrorKind::Unexpected => "Unexpected input."@,
        ParseErrorKind::TrailingInput => "Unexpected input after the end."@,
    }
}

/// An error or a warning of a parse, with the bytes it is about.
#[derive(Debug, Clone, Copy, PartialEq, Eq, Structural)]
pub struct ParseError {
    pub span: ByteSpan,
    pub kind: ParseErrorKind,
}

impl ParseError {
    /// The bytes that the error is about.
    pub fn span(&self) -> (r: ByteSpan)
        ensures
            r == self.span,
    {
        self.span
    }

    /// The text that describes the error.
    pub fn reason(&self) -> (r: String)
        ensures
            r@ == message_text(self.kind),
    {
        match self.kind {
            ParseErrorKind::AliasSpacing => String::from_str(
                "WikiLink alias contains spaces before or after.",
            ),
            ParseErrorKind::TitleSpacing => String::from_str(
                "Link title contains spaces before or after",
            ),
            ParseErrorKind::InvalidWikiLink => String::from_str("WikiLink format is invalid."),
            ParseErrorKind::InvalidLink => String::from_str("Link format is invalid."),
            ParseErrorKind::InvalidImage => String::from_str("Image format is invalid."),
            ParseErrorKind::InvalidFootnote => String::from_str("Footnote format is invalid."),
            ParseErrorKind::Unexpected => String::from_str("Unexpected input."),
            ParseErrorKind::TrailingInput => String::from_str("Unexpected input after the end."),
        }
    }
}

/// What a parse of a whole input gives: the value, unless the input is not
/// what was asked for, and the errors and warnings met on the way.
#[derive(Debug, Clone, PartialEq)]
pub struct ParseOutput<T> {
    pub output: Option<T>,
    pub errors: Vec<ParseError>,
}

impl<T> ParseOutput<T> {
    /// Whether the parse met an error or a warning.
    pub fn has_errors(&self) -> (r: bool)
        ensures
            r == (self.errors@.len() > 0),
    {
        self.errors.len() > 0
    }

    /// Whether the parse gave a value.
    pub fn has_output(&self) -> (r: bool)
        ensures
            r == self.output is Some,
    {
        self.output.is_some()
    }

    /// The value and the errors, apart.
    pub fn into_output_errors(self) -> (r: (Option<T>, Vec<ParseError>))
        ensures
            r.0 == self.output,
            r.1 == self.errors,
    {
        (self.output, self.errors)
    }

    /// The value if the parse met neither error nor warning, else the
    /// errors.
    pub fn into_result(self) -> (r: Result<T, Vec<ParseError>>)
        ensures
            match r {
                Ok(v) => self.errors@.len() == 0 && self.output == Some(v),
                Err(e) => e == self.errors && (self.errors@.len() > 0 || self.output is None),
            },
    {
        if self.errors.len() > 0 {
            Err(self.errors)
        } else {
            match self.output {
                Some(v) => Ok(v),
                None => Err(self.errors),
            }
        }
    }
}

/// A source text laid out for parsing: its characters, and for each of them
/// the byte at which it begins.
pub struct Source {
    chars: Vec<char>,
    offsets: Vec<usize>,
}

impl Source {
    #[verifier::type_invariant]
    spec fn offsets_match(&self) -> bool {
        &&& self.offsets@.len() == self.chars@.len() + 1
        &&& forall|k: int|
            0 <= k <= self.chars@.len() ==> #[trigger] self.offsets@[k] == byte_offset(
                self.chars@,
                k,
            )
    }

    /// The text, as characters.
    pub closed spec fn text(&self) -> Seq<char> {
        self.chars@
    }

    /// Lays out a text for parsing.
    pub fn new(text: &str) -> (src: Source)
        ensures
            src.text() == text@,
    {
        let chars = to_chars(text);
        let bytes = text.as_bytes();
        let total = bytes.len();
        proof {
            lemma_byte_len_is_encoding_len(chars@);
            assert(byte_len(chars@) == total);
        }
        let mut offsets: Vec<usize> = Vec::new();
        offsets.push(0);
        let mut i: usize = 0;
        let mut at: usize = 0;
        while i < chars.len()
            invariant
                i <= chars.len(),
                at == byte_offset(chars@, i as int),
                byte_len(chars@) == total,
                offsets@.len() == i + 1,
                forall|k: int| 0 <= k <= i ==> #[trigger] offsets@[k] == byte_offset(chars@, k),
            decreases chars.len() - i,
        {
            proof {
                lemma_byte_offset_monotonic(chars@, i + 1, chars@.len() as int);
            }
            at = at + char_width(chars[i]);
            offsets.push(at);
            i += 1;
        }
        Source { chars, offsets }
    }

    /// The number of characters in the text.
    pub fn len(&self) -> (n: usize)
        ensures
            n == self.text().len(),
    {
        self.chars.len()
    }

    /// The characters of the text.
    pub fn chars(&self) -> (v: &Vec<char>)
        ensures
            v@ == self.text(),
            v@.len() <= usize::MAX,
    {
        let len = self.chars.len();
        assert(self.chars@.len() == len);
        &self.chars
    }

    /// The length of the text in bytes.
    pub fn byte_len(&self) -> (n: usize)
        ensures
            n == byte_len(self.text()),
    {
        proof {
            use_type_invariant(self);
        }
        self.offsets[self.chars.len()]
    }

    /// The byte at which character `k` begins; for `k` the number of
    /// characters, the length of the text in bytes.
    pub fn byte_at(&self, k: usize) -> (b: usize)
        requires
            k <= self.text().len(),
        ensures
            b == byte_offset(self.text(), k as int),
    {
        proof {
            use_type_invariant(self);
        }
        self.offsets[k]
    }

    /// The index of the character that the byte `b` belongs to; the number
    /// of characters for a byte at or past the end.
    pub fn char_at_byte(&self, b: usize) -> (k: usize)
        ensures
            k == char_of_byte(self.text(), b as int),
            k <= self.text().len(),
    {
        proof {
            use_type_invariant(self);
        }
        let mut k: usize = 0;
        while k < self.chars.len() && self.offsets[k + 1] <= b
            invariant
                k <= self.chars.len(),
                self.offsets@.len() == self.chars@.len() + 1,
                forall|j: int|
                    0 <= j <= self.chars@.len() ==> #[trigger] self.offsets@[j] == byte_offset(
                        self.chars@,
                        j,
                    ),
                byte_offset(self.chars@, k as int) <= b,
            decreases self.chars.len() - k,
        {
            k += 1;
        }
        proof {
            lemma_char_of_byte_unique(self.chars@, b as int, k as int);
        }
        k
    }

    /// The bytes that the characters `a..b` take up.
    pub fn span(&self, a: usize, b: usize) -> (r: ByteSpan)
        requires
            a <= self.text().len(),
            b <= self.text().len(),
        ensures
            r == span_of(self.text(), a as int, b as int),
    {
        ByteSpan { start: self.byte_at(a), end: self.byte_at(b) }
    }

    /// The text of a slice; empty where the slice does not lie in the text.
    pub fn text_of(&self, slice: Slice) -> (r: String)
        ensures
            r@ == slice.of(self.text()),
    {
        if slice.start <= slice.end && slice.end <= self.chars.len() {
            substring(&self.chars, slice.start, slice.end)
        } else {
            String::new()
        }
    }
}

} // verus!
