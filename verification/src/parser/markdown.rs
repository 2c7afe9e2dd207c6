//! The grammar of a note's body.
//!
//! Each construct is described by a function from a text and an index into
//! it to what the construct matches there, and matched by a function that
//! computes just that. The inline constructs are tried in a fixed order, so
//! that of two constructs that begin alike the more specific one wins.

use vstd::prelude::*;
use crate::parser::{
    block_views, slice, span_of, ByteSpan, HeaderRef, InlineMarkdownNode, LinkType, MarkdownNode,
    MarkdownNodeView, MarkdownText, ParseError, ParseErrorKind, ParseOutput, Slice, Source,
    Spanned,
};
use crate::parser::yaml::{
    frontmatter_at, frontmatter_view, lemma_frontmatter_end, match_frontmatter, match_newline,
    newline_at, Frontmatter, YamlView,
};
use crate::scan::{
    lemma_run_end, run_end, run_start, scan, scan_back, trim_bounds, trim_hi, trim_lo, CharClass,
};
use crate::text::{byte_len, lemma_byte_offset_monotonic};

verus! {

/// What an inline construct matched: the node, the index at which the match
/// ends, and the warning that the match gave rise to, if any.
#[derive(Debug, Clone, Copy, PartialEq, Eq, Structural)]
pub struct InlineMatch {
    pub node: InlineMarkdownNode,
    pub end: usize,
    pub warning: Option<ParseError>,
}

/// Whether the character at index `i` is `c`.
pub open spec fn char_at(s: Seq<char>, i: int, c: char) -> bool {
    0 <= i < s.len() && s[i] == c
}

/// Whether the characters at `i` and `i + 1` are `a` and `b`.
pub open spec fn pair_at(s: Seq<char>, i: int, a: char, b: char) -> bool {
    char_at(s, i, a) && char_at(s, i + 1, b)
}

/// The slice `a..b` without the whitespace at its ends.
pub open spec fn trimmed(s: Seq<char>, a: int, b: int) -> Slice {
    slice(trim_lo(s, a, b), trim_hi(s, a, b))
}

/// Whether the text `a..b` is not empty and begins or ends with a space.
pub open spec fn padded(s: Seq<char>, a: int, b: int) -> bool {
    0 <= a < b <= s.len() && (s[a] == ' ' || s[b - 1] == ' ')
}

fn is_char_at(s: &Vec<char>, i: usize, c: char) -> (r: bool)
    ensures
        r == char_at(s@, i as int, c),
{
    i < s.len() && s[i] == c
}

fn is_pair_at(s: &Vec<char>, i: usize, a: char, b: char) -> (r: bool)
    ensures
        r == pair_at(s@, i as int, a, b),
{
    i < s.len() && s[i] == a && i + 1 < s.len() && s[i + 1] == b
}

fn trimmed_slice(s: &Vec<char>, a: usize, b: usize) -> (r: Slice)
    requires
        a <= b <= s.len(),
    ensures
        r == trimmed(s@, a as int, b as int),
        r.within(s@.len()),
{
    let (lo, hi) = trim_bounds(s, a, b);
    Slice { start: lo, end: hi }
}

fn is_padded(s: &Vec<char>, a: usize, b: usize) -> (r: bool)
    requires
        a <= b <= s.len(),
    ensures
        r == padded(s@, a as int, b as int),
{
    a < b && (s[a] == ' ' || s[b - 1] == ' ')
}

/// A tag: `#` and the letters and digits that follow it, of which there is
/// at least one.
pub open spec fn tag_at(s: Seq<char>, i: int) -> Option<InlineMatch> {
    let e = run_end(s, i + 1, CharClass::Alphanumeric);
    if char_at(s, i, '#') && e > i + 1 {
        Some(
            InlineMatch {
                node: InlineMarkdownNode::Tag(slice(i + 1, e)),
                end: e as usize,
                warning: None,
            },
        )
    } else {
        None
    }
}

/// Matches a tag at index `i`.
pub fn match_tag(src: &Source, i: usize) -> (r: Option<InlineMatch>)
    requires
        i <= src.text().len(),
    ensures
        r == tag_at(src.text(), i as int),
        r is Some ==> i < r->0.end <= src.text().len(),
{
    let s = src.chars();
    if !is_char_at(s, i, '#') {
        return None;
    }
    let e = scan(s, i + 1, CharClass::Alphanumeric);
    if e > i + 1 {
        Some(
            InlineMatch {
                node: InlineMarkdownNode::Tag(Slice { start: i + 1, end: e }),
                end: e,
                warning: None,
            },
        )
    } else {
        None
    }
}

/// A footnote reference: `[^`, a label of letters and digits, and `]`.
pub open spec fn footnote_at(s: Seq<char>, i: int) -> Option<InlineMatch> {
    let e = run_end(s, i + 2, CharClass::Alphanumeric);
    if pair_at(s, i, '[', '^') && e > i + 2 && char_at(s, e, ']') {
        Some(
            InlineMatch {
                node: InlineMarkdownNode::Footnote(slice(i + 2, e)),
                end: (e + 1) as usize,
                warning: None,
            },
        )
    } else {
        None
    }
}

/// Matches a footnote reference at index `i`.
pub fn match_footnote(src: &Source, i: usize) -> (r: Option<InlineMatch>)
    requires
        i <= src.text().len(),
    ensures
        r == footnote_at(src.text(), i as int),
        r is Some ==> i < r->0.end <= src.text().len(),
{
    let s = src.chars();
    if !is_pair_at(s, i, '[', '^') {
        return None;
    }
    let e = scan(s, i + 2, CharClass::Alphanumeric);
    if e > i + 2 && is_char_at(s, e, ']') {
        Some(
            InlineMatch {
                node: InlineMarkdownNode::Footnote(Slice { start: i + 2, end: e }),
                end: e + 1,
                warning: None,
            },
        )
    } else {
        None
    }
}

/// An image: `![`, an alternative text that is not empty, `](`, an address
/// and `)`. Neither text runs over a line break; both are trimmed.
pub open spec fn image_at(s: Seq<char>, i: int) -> Option<InlineMatch> {
    let a1 = run_end(s, i + 2, CharClass::BracketText);
    let u0 = a1 + 2;
    let u1 = run_end(s, u0, CharClass::ParenText);
    if pair_at(s, i, '!', '[') && a1 > i + 2 && pair_at(s, a1, ']', '(') && char_at(s, u1, ')') {
        Some(
            InlineMatch {
                node: InlineMarkdownNode::Image {
                    alt_text: trimmed(s, i + 2, a1),
                    uri: trimmed(s, u0, u1),
                },
                end: (u1 + 1) as usize,
                warning: None,
            },
        )
    } else {
        None
    }
}

/// Matches an image at index `i`.
pub fn match_image(src: &Source, i: usize) -> (r: Option<InlineMatch>)
    requires
        i <= src.text().len(),
    ensures
        r == image_at(src.text(), i as int),
        r is Some ==> i < r->0.end <= src.text().len(),
{
    let s = src.chars();
    if !is_pair_at(s, i, '!', '[') {
        return None;
    }
    let a1 = scan(s, i + 2, CharClass::BracketText);
    if !(a1 > i + 2 && is_pair_at(s, a1, ']', '(')) {
        return None;
    }
    let u0 = a1 + 2;
    let u1 = scan(s, u0, CharClass::ParenText);
    if !is_char_at(s, u1, ')') {
        return None;
    }
    Some(
        InlineMatch {
            node: InlineMarkdownNode::Image {
                alt_text: trimmed_slice(s, i + 2, a1),
                uri: trimmed_slice(s, u0, u1),
            },
            end: u1 + 1,
            warning: None,
        },
    )
}

/// The number of hashes that give a fragment its level: those at `p`, but
/// no more than six of them.
pub open spec fn hashes_at(s: Seq<char>, p: int) -> int {
    let n = run_end(s, p, CharClass::Hash) - p;
    if n > 6 {
        6
    } else {
        n
    }
}

/// A fragment: one to six hashes, and header text of characters of `class`,
/// of which there is at least one. Gives the fragment and where it ends.
pub open spec fn fragment_at(s: Seq<char>, p: int, class: CharClass) -> Option<(HeaderRef, int)> {
    let level = hashes_at(s, p);
    let c0 = p + level;
    let c1 = run_end(s, c0, class);
    if level >= 1 && c1 > c0 {
        Some((HeaderRef { level: level as usize, slug: slice(c0, c1) }, c1))
    } else {
        None
    }
}

/// Where the part of a link before its closing ends: after the fragment if
/// there is one, else at `p`.
pub open spec fn after_fragment(s: Seq<char>, p: int, class: CharClass) -> int {
    match fragment_at(s, p, class) {
        Some((_, e)) => e,
        None => p,
    }
}

/// The fragment alone.
pub open spec fn fragment_of(s: Seq<char>, p: int, class: CharClass) -> Option<HeaderRef> {
    match fragment_at(s, p, class) {
        Some((h, _)) => Some(h),
        None => None,
    }
}

fn match_fragment(s: &Vec<char>, p: usize, class: CharClass) -> (r: (Option<HeaderRef>, usize))
    requires
        p <= s.len(),
    ensures
        r.0 == fragment_of(s@, p as int, class),
        r.1 == after_fragment(s@, p as int, class),
        p <= r.1 <= s.len(),
{
    let h_end = scan(s, p, CharClass::Hash);
    let n = h_end - p;
    let level = if n > 6 {
        6
    } else {
        n
    };
    let c0 = p + level;
    let c1 = scan(s, c0, class);
    if level >= 1 && c1 > c0 {
        (Some(HeaderRef { level, slug: Slice { start: c0, end: c1 } }), c1)
    } else {
        (None, p)
    }
}

/// A wiki link: `[[`, a target, then optionally a fragment, then optionally
/// `|` and an alias, and `]]`. The target is not empty and is trimmed. An
/// alias that is empty once trimmed counts as none; one that begins or ends
/// with a space is accepted with a warning.
pub open spec fn wikilink_at(s: Seq<char>, i: int) -> Option<InlineMatch> {
    let t0 = i + 2;
    let t1 = run_end(s, t0, CharClass::WikiTarget);
    let header = fragment_of(s, t1, CharClass::WikiHeader);
    let p = after_fragment(s, t1, CharClass::WikiHeader);
    let a0 = p + 1;
    let a1 = run_end(s, a0, CharClass::BracketText);
    let alias = trimmed(s, a0, a1);
    if !(pair_at(s, i, '[', '[') && t1 > t0) {
        None
    } else if char_at(s, p, '|') {
        if pair_at(s, a1, ']', ']') {
            Some(
                InlineMatch {
                    node: InlineMarkdownNode::Link(
                        LinkType::WikiLink {
                            target: trimmed(s, t0, t1),
                            display_text: if alias.start < alias.end {
                                Some(alias)
                            } else {
                                None
                            },
                            header,
                        },
                    ),
                    end: (a1 + 2) as usize,
                    warning: if padded(s, a0, a1) {
                        Some(
                            ParseError {
                                span: span_of(s, a0, a1),
                                kind: ParseErrorKind::AliasSpacing,
                            },
                        )
                    } else {
                        None
                    },
                },
            )
        } else {
            None
        }
    } else if pair_at(s, p, ']', ']') {
        Some(
            InlineMatch {
                node: InlineMarkdownNode::Link(
                    LinkType::WikiLink { target: trimmed(s, t0, t1), display_text: None, header },
                ),
                end: (p + 2) as usize,
                warning: None,
            },
        )
    } else {
        None
    }
}

/// Matches a wiki link at index `i`.
pub fn match_wikilink(src: &Source, i: usize) -> (r: Option<InlineMatch>)
    requires
        i <= src.text().len(),
    ensures
        r == wikilink_at(src.text(), i as int),
        r is Some ==> i < r->0.end <= src.text().len(),
{
    let s = src.chars();
    if !is_pair_at(s, i, '[', '[') {
        return None;
    }
    let t0 = i + 2;
    let t1 = scan(s, t0, CharClass::WikiTarget);
    if t1 == t0 {
        return None;
    }
    let target = trimmed_slice(s, t0, t1);
    let (header, p) = match_fragment(s, t1, CharClass::WikiHeader);
    if is_char_at(s, p, '|') {
        let a0 = p + 1;
        let a1 = scan(s, a0, CharClass::BracketText);
        if !is_pair_at(s, a1, ']', ']') {
            return None;
        }
        let alias = trimmed_slice(s, a0, a1);
        let display_text = if alias.start < alias.end {
            Some(alias)
        } else {
            None
        };
        let warning = if is_padded(s, a0, a1) {
            Some(ParseError { span: src.span(a0, a1), kind: ParseErrorKind::AliasSpacing })
        } else {
            None
        };
        Some(
            InlineMatch {
                node: InlineMarkdownNode::Link(LinkType::WikiLink { target, display_text, header }),
                end: a1 + 2,
                warning,
            },
        )
    } else if is_pair_at(s, p, ']', ']') {
        Some(
            InlineMatch {
                node: InlineMarkdownNode::Link(
                    LinkType::WikiLink { target, display_text: None, header },
                ),
                end: p + 2,
                warning: None,
            },
        )
    } else {
        None
    }
}

/// A link: `[`, a title that is not empty, `](`, an address, then
/// optionally a fragment, and `)`. Title and address are trimmed; a title
/// that begins or ends with a space is accepted with a warning. A fragment
/// may hold further hashes.
pub open spec fn link_at(s: Seq<char>, i: int) -> Option<InlineMatch> {
    let t0 = i + 1;
    let t1 = run_end(s, t0, CharClass::BracketText);
    let u0 = t1 + 2;
    let u1 = run_end(s, u0, CharClass::LinkUri);
    let header = fragment_of(s, u1, CharClass::ParenText);
    let p = after_fragment(s, u1, CharClass::ParenText);
    if char_at(s, i, '[') && t1 > t0 && pair_at(s, t1, ']', '(') && char_at(s, p, ')') {
        Some(
            InlineMatch {
                node: InlineMarkdownNode::Link(
                    LinkType::InlineLink {
                        text: trimmed(s, t0, t1),
                        uri: trimmed(s, u0, u1),
                        header,
                    },
                ),
                end: (p + 1) as usize,
                warning: if padded(s, t0, t1) {
                    Some(
                        ParseError { span: span_of(s, t0, t1), kind: ParseErrorKind::TitleSpacing },
                    )
                } else {
                    None
                },
            },
        )
    } else {
        None
    }
}

/// Matches a link at index `i`.
pub fn match_link(src: &Source, i: usize) -> (r: Option<InlineMatch>)
    requires
        i <= src.text().len(),
    ensures
        r == link_at(src.text(), i as int),
        r is Some ==> i < r->0.end <= src.text().len(),
{
    let s = src.chars();
    if !is_char_at(s, i, '[') {
        return None;
    }
    let t0 = i + 1;
    let t1 = scan(s, t0, CharClass::BracketText);
    if !(t1 > t0 && is_pair_at(s, t1, ']', '(')) {
        return None;
    }
    let u0 = t1 + 2;
    let u1 = scan(s, u0, CharClass::LinkUri);
    let (header, p) = match_fragment(s, u1, CharClass::ParenText);
    if !is_char_at(s, p, ')') {
        return None;
    }
    let warning = if is_padded(s, t0, t1) {
        Some(ParseError { span: src.span(t0, t1), kind: ParseErrorKind::TitleSpacing })
    } else {
        None
    };
    Some(
        InlineMatch {
            node: InlineMarkdownNode::Link(
                LinkType::InlineLink {
                    text: trimmed_slice(s, t0, t1),
                    uri: trimmed_slice(s, u0, u1),
                    header,
                },
            ),
            end: p + 1,
            warning,
        },
    )
}

/// Whether plain text has to stop before index `p`: there begins a tag or
/// header, a link, footnote or image, or a blank line.
pub open spec fn plain_stop(s: Seq<char>, p: int) -> bool {
    char_at(s, p, '#') || char_at(s, p, '[') || pair_at(s, p, '!', '[') || pair_at(
        s,
        p,
        '\n',
        '\n',
    )
}

/// Where the plain text that begins at `from` ends: at the first index
/// before which it has to stop, or at the end of the text.
pub open spec fn plain_end(s: Seq<char>, from: int) -> int
    decreases s.len() - from,
{
    if 0 <= from < s.len() && !plain_stop(s, from) {
        plain_end(s, from + 1)
    } else {
        from
    }
}

/// Plain text: the longest run of characters, at least one, that none of
/// the other constructs could begin in.
pub open spec fn plain_text_at(s: Seq<char>, i: int) -> Option<InlineMatch> {
    let e = plain_end(s, i);
    if 0 <= i && e > i {
        Some(
            InlineMatch {
                node: InlineMarkdownNode::PlainText(slice(i, e)),
                end: e as usize,
                warning: None,
            },
        )
    } else {
        None
    }
}

/// What `plain_end` boils down to.
pub proof fn lemma_plain_end(s: Seq<char>, from: int)
    requires
        0 <= from <= s.len(),
    ensures
        from <= plain_end(s, from) <= s.len(),
        forall|k: int| from <= k < plain_end(s, from) ==> !plain_stop(s, k),
        plain_end(s, from) < s.len() ==> plain_stop(s, plain_end(s, from)),
    decreases s.len() - from,
{
    if from < s.len() && !plain_stop(s, from) {
        lemma_plain_end(s, from + 1);
    }
}

/// Matches plain text at index `i`.
pub fn match_plain_text(src: &Source, i: usize) -> (r: Option<InlineMatch>)
    requires
        i <= src.text().len(),
    ensures
        r == plain_text_at(src.text(), i as int),
        r is Some ==> i < r->0.end <= src.text().len(),
{
    let s = src.chars();
    let mut e: usize = i;
    while e < s.len() && !(s[e] == '#' || s[e] == '[' || is_pair_at(s, e, '!', '[') || is_pair_at(
        s,
        e,
        '\n',
        '\n',
    ))
        invariant
            i <= e <= s.len(),
            plain_end(s@, i as int) == plain_end(s@, e as int),
        decreases s.len() - e,
    {
        e += 1;
    }
    if e > i {
        Some(
            InlineMatch {
                node: InlineMarkdownNode::PlainText(Slice { start: i, end: e }),
                end: e,
                warning: None,
            },
        )
    } else {
        None
    }
}

/// An inline node: the first of tag, image, wiki link, link, footnote
/// reference and plain text that matches.
pub open spec fn inline_at(s: Seq<char>, i: int) -> Option<InlineMatch> {
    if tag_at(s, i) is Some {
        tag_at(s, i)
    } else if image_at(s, i) is Some {
        image_at(s, i)
    } else if wikilink_at(s, i) is Some {
        wikilink_at(s, i)
    } else if link_at(s, i) is Some {
        link_at(s, i)
    } else if footnote_at(s, i) is Some {
        footnote_at(s, i)
    } else {
        plain_text_at(s, i)
    }
}

/// Whether a span of bytes lies within the text and holds a byte at
/// least.
pub open spec fn span_within(s: Seq<char>, span: ByteSpan) -> bool {
    span.start < span.end <= byte_len(s)
}

/// The bytes of a stretch of characters, one at least, lie within the
/// text.
pub proof fn lemma_span_of_within(s: Seq<char>, a: int, b: int)
    requires
        0 <= a < b <= s.len(),
        byte_len(s) <= usize::MAX,
    ensures
        span_within(s, span_of(s, a, b)),
        span_of(s, a, b).start == crate::text::byte_offset(s, a),
        span_of(s, a, b).end == crate::text::byte_offset(s, b),
{
    lemma_byte_offset_monotonic(s, a, b);
    lemma_byte_offset_monotonic(s, b, s.len() as int);
}

/// Every inline match takes at least one character and ends within the
/// text, and so does what its warning is about.
pub proof fn lemma_inline_advances(s: Seq<char>, i: int)
    requires
        0 <= i <= s.len(),
        byte_len(s) <= usize::MAX,
        inline_at(s, i) is Some,
    ensures
        i < inline_at(s, i)->0.end <= s.len(),
        inline_at(s, i)->0.warning is Some ==> span_within(s, inline_at(s, i)->0.warning->0.span),
{
    lemma_byte_offset_monotonic(s, 0, s.len() as int);
    lemma_run_end(s, i + 1, CharClass::Alphanumeric);
    lemma_plain_end(s, i);
    if tag_at(s, i) is Some {
    } else if image_at(s, i) is Some {
        let a1 = run_end(s, i + 2, CharClass::BracketText);
        lemma_run_end(s, i + 2, CharClass::BracketText);
        lemma_run_end(s, a1 + 2, CharClass::ParenText);
    } else if wikilink_at(s, i) is Some {
        let t1 = run_end(s, i + 2, CharClass::WikiTarget);
        lemma_run_end(s, i + 2, CharClass::WikiTarget);
        lemma_after_fragment(s, t1, CharClass::WikiHeader);
        let p = after_fragment(s, t1, CharClass::WikiHeader);
        if char_at(s, p, '|') {
            lemma_run_end(s, p + 1, CharClass::BracketText);
            if padded(s, p + 1, run_end(s, p + 1, CharClass::BracketText)) {
                lemma_span_of_within(s, p + 1, run_end(s, p + 1, CharClass::BracketText));
            }
        }
    } else if link_at(s, i) is Some {
        let t1 = run_end(s, i + 1, CharClass::BracketText);
        lemma_run_end(s, i + 1, CharClass::BracketText);
        let u1 = run_end(s, t1 + 2, CharClass::LinkUri);
        lemma_run_end(s, t1 + 2, CharClass::LinkUri);
        lemma_after_fragment(s, u1, CharClass::ParenText);
        lemma_span_of_within(s, i + 1, t1);
    } else if footnote_at(s, i) is Some {
        lemma_run_end(s, i + 2, CharClass::Alphanumeric);
    } else {
    }
}

/// A fragment, if there is one, ends within the text.
pub proof fn lemma_after_fragment(s: Seq<char>, p: int, class: CharClass)
    requires
        0 <= p <= s.len(),
    ensures
        p <= after_fragment(s, p, class) <= s.len(),
{
    lemma_run_end(s, p, CharClass::Hash);
    lemma_run_end(s, p + hashes_at(s, p), class);
}

/// Matches an inline node at index `i`.
pub fn match_inline(src: &Source, i: usize) -> (r: Option<InlineMatch>)
    requires
        i <= src.text().len(),
    ensures
        r == inline_at(src.text(), i as int),
        r is Some ==> i < r->0.end <= src.text().len(),
{
    let tag = match_tag(src, i);
    if tag.is_some() {
        return tag;
    }
    let image = match_image(src, i);
    if image.is_some() {
        return image;
    }
    let wikilink = match_wikilink(src, i);
    if wikilink.is_some() {
        return wikilink;
    }
    let link = match_link(src, i);
    if link.is_some() {
        return link;
    }
    let footnote = match_footnote(src, i);
    if footnote.is_some() {
        return footnote;
    }
    match_plain_text(src, i)
}

/// A run of inline nodes as the grammar gives it.
pub struct InlineRun {
    pub nodes: Seq<Spanned<InlineMarkdownNode>>,
    pub warnings: Seq<ParseError>,
    pub end: int,
}

/// The warning of a match, as a list of at most one.
pub open spec fn warning_seq(w: Option<ParseError>) -> Seq<ParseError> {
    match w {
        Some(e) => seq![e],
        None => seq![],
    }
}

/// The inline nodes that follow one another from index `i`, up to the
/// first place where none matches.
pub open spec fn inlines_from(s: Seq<char>, i: int) -> InlineRun
    decreases s.len() - i,
{
    match inline_at(s, i) {
        Some(m) => if i < m.end <= s.len() {
            let rest = inlines_from(s, m.end as int);
            InlineRun {
                nodes: seq![Spanned(m.node, span_of(s, i, m.end as int))] + rest.nodes,
                warnings: warning_seq(m.warning) + rest.warnings,
                end: rest.end,
            }
        } else {
            InlineRun { nodes: seq![], warnings: seq![], end: i }
        },
        None => InlineRun { nodes: seq![], warnings: seq![], end: i },
    }
}

/// A run of inline nodes ends within the text, and past its beginning
/// unless it is empty.
pub proof fn lemma_inlines_end(s: Seq<char>, i: int)
    requires
        0 <= i <= s.len(),
    ensures
        i <= inlines_from(s, i).end <= s.len(),
        inlines_from(s, i).nodes.len() > 0 ==> i < inlines_from(s, i).end,
    decreases s.len() - i,
{
    match inline_at(s, i) {
        Some(m) => {
            if i < m.end <= s.len() {
                lemma_inlines_end(s, m.end as int);
            }
        },
        None => {},
    }
}

/// Matches the inline nodes that follow one another from index `i`.
pub fn match_inlines(src: &Source, i: usize) -> (r: (MarkdownText, Vec<ParseError>, usize))
    requires
        i <= src.text().len(),
    ensures
        r.0@ == inlines_from(src.text(), i as int).nodes,
        r.1@ == inlines_from(src.text(), i as int).warnings,
        r.2 == inlines_from(src.text(), i as int).end,
        i <= r.2 <= src.text().len(),
{
    let ghost s = src.text();
    let mut nodes: MarkdownText = Vec::new();
    let mut warnings: Vec<ParseError> = Vec::new();
    let mut at: usize = i;
    loop
        invariant
            s == src.text(),
            i <= at <= s.len(),
            inlines_from(s, i as int).nodes == nodes@ + inlines_from(s, at as int).nodes,
            inlines_from(s, i as int).warnings == warnings@ + inlines_from(s, at as int).warnings,
            inlines_from(s, i as int).end == inlines_from(s, at as int).end,
        ensures
            i <= at <= s.len(),
            inlines_from(s, i as int).nodes == nodes@,
            inlines_from(s, i as int).warnings == warnings@,
            inlines_from(s, i as int).end == at,
        decreases s.len() - at,
    {
        match match_inline(src, at) {
            Some(m) => {
                let ghost rest = inlines_from(s, m.end as int);
                let ghost item = Spanned(m.node, span_of(s, at as int, m.end as int));
                proof {
                    assert(nodes@ + (seq![item] + rest.nodes) =~= nodes@.push(item) + rest.nodes);
                    match m.warning {
                        Some(w) => {
                            assert(warnings@ + (seq![w] + rest.warnings) =~= warnings@.push(w)
                                + rest.warnings);
                        },
                        None => {
                            assert(warnings@ + (Seq::<ParseError>::empty() + rest.warnings)
                                =~= warnings@ + rest.warnings);
                        },
                    }
                }
                nodes.push(Spanned(m.node, src.span(at, m.end)));
                match m.warning {
                    Some(w) => {
                        warnings.push(w);
                    },
                    None => {},
                }
                at = m.end;
            },
            None => {
                proof {
                    assert(nodes@ + Seq::<Spanned<InlineMarkdownNode>>::empty() =~= nodes@);
                    assert(warnings@ + Seq::<ParseError>::empty() =~= warnings@);
                }
                break ;
            },
        }
    }
    (nodes, warnings, at)
}

/// What a block construct matched: the block, the index at which the match
/// ends, and the warnings that the match gave rise to.
pub struct BlockMatch {
    pub node: MarkdownNodeView,
    pub end: int,
    pub warnings: Seq<ParseError>,
}

/// A matched block.
pub struct Block {
    pub node: MarkdownNode,
    pub end: usize,
    pub warnings: Vec<ParseError>,
}

impl View for Block {
    type V = BlockMatch;

    open spec fn view(&self) -> BlockMatch {
        BlockMatch { node: self.node@, end: self.end as int, warnings: self.warnings@ }
    }
}

/// The match that an optional block stands for.
pub open spec fn block_view(b: Option<Block>) -> Option<BlockMatch> {
    match b {
        Some(b) => Some(b@),
        None => None,
    }
}

/// A header: one to six hashes, blanks, and the rest of the line. The
/// content is the rest of the line without the whitespace and the hashes
/// that close it, trimmed.
pub open spec fn header_at(s: Seq<char>, i: int) -> Option<BlockMatch> {
    let level = hashes_at(s, i);
    let b = run_end(s, i + level, CharClass::Blank);
    let l1 = run_end(s, b, CharClass::LineText);
    let te = run_start(s, b, l1, CharClass::Whitespace);
    let th = run_start(s, b, te, CharClass::Hash);
    if 0 <= i && level >= 1 {
        Some(
            BlockMatch {
                node: MarkdownNodeView::Header { level: level as usize, content: trimmed(s, b, th) },
                end: l1,
                warnings: seq![],
            },
        )
    } else {
        None
    }
}

/// Matches a header at index `i`.
pub fn match_header(src: &Source, i: usize) -> (r: Option<Block>)
    requires
        i <= src.text().len(),
    ensures
        block_view(r) == header_at(src.text(), i as int),
        r is Some ==> i < r->0.end <= src.text().len(),
{
    let s = src.chars();
    let h_end = scan(s, i, CharClass::Hash);
    let n = h_end - i;
    let level = if n > 6 {
        6
    } else {
        n
    };
    if level < 1 {
        return None;
    }
    let b = scan(s, i + level, CharClass::Blank);
    let l1 = scan(s, b, CharClass::LineText);
    let te = scan_back(s, b, l1, CharClass::Whitespace);
    let th = scan_back(s, b, te, CharClass::Hash);
    let content = trimmed_slice(s, b, th);
    Some(Block { node: MarkdownNode::Header { level, content }, end: l1, warnings: Vec::new() })
}

/// A footnote definition: `[^`, a label of letters and digits, `]:`, and a
/// run of inline nodes, not empty, that goes on to the end of the text or to
/// a blank line.
pub open spec fn footnote_definition_at(s: Seq<char>, i: int) -> Option<BlockMatch> {
    let e = run_end(s, i + 2, CharClass::Alphanumeric);
    let run = inlines_from(s, e + 2);
    if pair_at(s, i, '[', '^') && e > i + 2 && pair_at(s, e, ']', ':') && run.nodes.len() > 0 && (
    run.end == s.len() || char_at(s, run.end, '\n')) {
        Some(
            BlockMatch {
                node: MarkdownNodeView::FootnoteDefinition {
                    id: slice(i + 2, e),
                    content: run.nodes,
                },
                end: if run.end == s.len() {
                    run.end
                } else {
                    run.end + 1
                },
                warnings: run.warnings,
            },
        )
    } else {
        None
    }
}

/// Matches a footnote definition at index `i`.
pub fn match_footnote_definition(src: &Source, i: usize) -> (r: Option<Block>)
    requires
        i <= src.text().len(),
    ensures
        block_view(r) == footnote_definition_at(src.text(), i as int),
        r is Some ==> i < r->0.end <= src.text().len(),
{
    let s = src.chars();
    if !is_pair_at(s, i, '[', '^') {
        return None;
    }
    let e = scan(s, i + 2, CharClass::Alphanumeric);
    if !(e > i + 2 && is_pair_at(s, e, ']', ':')) {
        return None;
    }
    let (content, warnings, p) = match_inlines(src, e + 2);
    if content.len() == 0 {
        return None;
    }
    let end = if p == s.len() {
        p
    } else if s[p] == '\n' {
        p + 1
    } else {
        return None;
    };
    Some(
        Block {
            node: MarkdownNode::FootnoteDefinition { id: Slice { start: i + 2, end: e }, content },
            end,
            warnings,
        },
    )
}

/// A paragraph: a run of inline nodes that is not empty.
pub open spec fn paragraph_at(s: Seq<char>, i: int) -> Option<BlockMatch> {
    let run = inlines_from(s, i);
    if run.nodes.len() > 0 {
        Some(
            BlockMatch {
                node: MarkdownNodeView::Paragraph(run.nodes),
                end: run.end,
                warnings: run.warnings,
            },
        )
    } else {
        None
    }
}

/// Matches a paragraph at index `i`.
pub fn match_paragraph(src: &Source, i: usize) -> (r: Option<Block>)
    requires
        i <= src.text().len(),
    ensures
        block_view(r) == paragraph_at(src.text(), i as int),
        r is Some ==> i < r->0.end <= src.text().len(),
{
    proof {
        lemma_inlines_end(src.text(), i as int);
    }
    let (content, warnings, end) = match_inlines(src, i);
    if content.len() == 0 {
        return None;
    }
    Some(Block { node: MarkdownNode::Paragraph(content), end, warnings })
}

/// A block: the first of header, footnote definition and paragraph that
/// matches.
pub open spec fn block_at(s: Seq<char>, i: int) -> Option<BlockMatch> {
    if header_at(s, i) is Some {
        header_at(s, i)
    } else if footnote_definition_at(s, i) is Some {
        footnote_definition_at(s, i)
    } else {
        paragraph_at(s, i)
    }
}

/// Where the text that is given up begins again: after the next line
/// break, or at the end of the text if there is none.
pub open spec fn recovery_end(s: Seq<char>, i: int) -> int {
    let e = run_end(s, i, CharClass::LineText);
    if e < s.len() {
        e + 1
    } else {
        e
    }
}

/// How the text that is given up at `i` is described, by what it begins
/// with.
pub open spec fn invalid_kind(s: Seq<char>, i: int) -> ParseErrorKind {
    if pair_at(s, i, '[', '[') {
        ParseErrorKind::InvalidWikiLink
    } else if pair_at(s, i, '[', '^') {
        ParseErrorKind::InvalidFootnote
    } else if pair_at(s, i, '!', '[') {
        ParseErrorKind::InvalidImage
    } else if char_at(s, i, '[') {
        ParseErrorKind::InvalidLink
    } else {
        ParseErrorKind::Unexpected
    }
}

/// The block at index `i`, or, where no block matches, an invalid block
/// that runs to the next line, with the error that says so. One bad line
/// costs that line and no more.
pub open spec fn block_or_invalid(s: Seq<char>, i: int) -> BlockMatch {
    match block_at(s, i) {
        Some(m) => m,
        None => BlockMatch {
            node: MarkdownNodeView::Invalid,
            end: recovery_end(s, i),
            warnings: seq![
                ParseError { span: span_of(s, i, recovery_end(s, i)), kind: invalid_kind(s, i) },
            ],
        },
    }
}

/// Matches the block at index `i`, or gives up the line.
pub fn match_block(src: &Source, i: usize) -> (r: Block)
    requires
        i < src.text().len(),
    ensures
        r@ == block_or_invalid(src.text(), i as int),
        i < r.end <= src.text().len(),
{
    let header = match_header(src, i);
    if header.is_some() {
        return header.unwrap();
    }
    let definition = match_footnote_definition(src, i);
    if definition.is_some() {
        return definition.unwrap();
    }
    let paragraph = match_paragraph(src, i);
    if paragraph.is_some() {
        return paragraph.unwrap();
    }
    let s = src.chars();
    let e = scan(s, i, CharClass::LineText);
    let end = if e < s.len() {
        e + 1
    } else {
        e
    };
    let kind = start_kind(s, i);
    let mut warnings: Vec<ParseError> = Vec::new();
    warnings.push(ParseError { span: src.span(i, end), kind });
    Block { node: MarkdownNode::Invalid, end, warnings }
}

/// The blocks of a text and the errors met in reading them.
pub struct BlockRun {
    pub blocks: Seq<Spanned<MarkdownNodeView>>,
    pub errors: Seq<ParseError>,
}

/// The blocks that follow one another from index `i` to the end of the
/// text, with whitespace between them passed over.
pub open spec fn blocks_from(s: Seq<char>, i: int) -> BlockRun
    decreases s.len() - i,
{
    if 0 <= i < s.len() {
        let m = block_or_invalid(s, i);
        let next = run_end(s, m.end, CharClass::Whitespace);
        if i < next <= s.len() {
            let rest = blocks_from(s, next);
            BlockRun {
                blocks: seq![Spanned(m.node, span_of(s, i, m.end))] + rest.blocks,
                errors: m.warnings + rest.errors,
            }
        } else {
            BlockRun { blocks: seq![], errors: seq![] }
        }
    } else {
        BlockRun { blocks: seq![], errors: seq![] }
    }
}

fn append_errors(errors: &mut Vec<ParseError>, more: &Vec<ParseError>)
    ensures
        final(errors)@ == old(errors)@ + more@,
{
    let mut k: usize = 0;
    while k < more.len()
        invariant
            k <= more.len(),
            errors@ == old(errors)@ + more@.take(k as int),
        decreases more.len() - k,
    {
        errors.push(more[k]);
        proof {
            assert(more@.take(k + 1) == more@.take(k as int).push(more@[k as int]));
        }
        k += 1;
    }
    proof {
        assert(more@.take(more.len() as int) == more@);
    }
}

/// Matches the blocks that follow one another from index `i`.
pub fn match_blocks(src: &Source, i: usize) -> (r: (Vec<Spanned<MarkdownNode>>, Vec<ParseError>))
    requires
        i <= src.text().len(),
    ensures
        block_views(r.0@) == blocks_from(src.text(), i as int).blocks,
        r.1@ == blocks_from(src.text(), i as int).errors,
{
    let ghost s = src.text();
    let mut blocks: Vec<Spanned<MarkdownNode>> = Vec::new();
    let mut errors: Vec<ParseError> = Vec::new();
    let mut at: usize = i;
    let len = src.len();
    while at < len
        invariant
            s == src.text(),
            len == s.len(),
            i <= at <= s.len(),
            blocks_from(s, i as int).blocks == block_views(blocks@) + blocks_from(
                s,
                at as int,
            ).blocks,
            blocks_from(s, i as int).errors == errors@ + blocks_from(s, at as int).errors,
        decreases s.len() - at,
    {
        let block = match_block(src, at);
        let next = scan(src.chars(), block.end, CharClass::Whitespace);
        let ghost rest = blocks_from(s, next as int);
        let ghost item = Spanned(block.node@, span_of(s, at as int, block.end as int));
        let ghost before = block_views(blocks@);
        proof {
            assert(errors@ + (block.warnings@ + rest.errors) =~= (errors@ + block.warnings@)
                + rest.errors);
            assert(before + (seq![item] + rest.blocks) =~= before.push(item) + rest.blocks);
        }
        append_errors(&mut errors, &block.warnings);
        let span = src.span(at, block.end);
        blocks.push(Spanned(block.node, span));
        proof {
            assert(block_views(blocks@) =~= before.push(item));
        }
        at = next;
    }
    proof {
        assert(block_views(blocks@) + Seq::<Spanned<MarkdownNodeView>>::empty()
            =~= block_views(blocks@));
        assert(errors@ + Seq::<ParseError>::empty() =~= errors@);
    }
    (blocks, errors)
}

/// What a parse of a whole text as one inline construct gives. The node
/// comes out if the construct matches from the first character to the
/// last, together with its warning if it has one. Else there is no node,
/// and one error: for a text that does not begin as the construct does, an
/// error of kind `failure` over the whole text; for a text that goes on
/// after the construct, an error over what follows it.
pub open spec fn whole_inline(s: Seq<char>, m: Option<InlineMatch>, failure: ParseErrorKind) -> (
    Option<InlineMarkdownNode>,
    Seq<ParseError>,
) {
    match m {
        Some(m) => if m.end == s.len() {
            (Some(m.node), warning_seq(m.warning))
        } else {
            (
                None,
                seq![
                    ParseError {
                        span: span_of(s, m.end as int, s.len() as int),
                        kind: ParseErrorKind::TrailingInput,
                    },
                ],
            )
        },
        None => (None, seq![ParseError { span: span_of(s, 0, s.len() as int), kind: failure }]),
    }
}

fn finish_inline(src: &Source, m: Option<InlineMatch>, failure: ParseErrorKind) -> (out:
    ParseOutput<InlineMarkdownNode>)
    requires
        m is Some ==> m->0.end <= src.text().len(),
    ensures
        (out.output, out.errors@) == whole_inline(src.text(), m, failure),
{
    let len = src.len();
    let mut errors: Vec<ParseError> = Vec::new();
    match m {
        Some(m) => {
            if m.end == len {
                match m.warning {
                    Some(w) => {
                        errors.push(w);
                    },
                    None => {},
                }
                ParseOutput { output: Some(m.node), errors }
            } else {
                errors.push(
                    ParseError { span: src.span(m.end, len), kind: ParseErrorKind::TrailingInput },
                );
                ParseOutput { output: None, errors }
            }
        },
        None => {
            errors.push(ParseError { span: src.span(0, len), kind: failure });
            ParseOutput { output: None, errors }
        },
    }
}

/// Parses a whole text as a tag.
pub fn tag_parser(src: &Source) -> (out: ParseOutput<InlineMarkdownNode>)
    ensures
        (out.output, out.errors@) == whole_inline(
            src.text(),
            tag_at(src.text(), 0),
            ParseErrorKind::Unexpected,
        ),
{
    finish_inline(src, match_tag(src, 0), ParseErrorKind::Unexpected)
}

/// Parses a whole text as a footnote reference.
pub fn footnote_parser(src: &Source) -> (out: ParseOutput<InlineMarkdownNode>)
    ensures
        (out.output, out.errors@) == whole_inline(
            src.text(),
            footnote_at(src.text(), 0),
            ParseErrorKind::InvalidFootnote,
        ),
{
    finish_inline(src, match_footnote(src, 0), ParseErrorKind::InvalidFootnote)
}

/// Parses a whole text as a wiki link.
pub fn wikilink_parser(src: &Source) -> (out: ParseOutput<InlineMarkdownNode>)
    ensures
        (out.output, out.errors@) == whole_inline(
            src.text(),
            wikilink_at(src.text(), 0),
            ParseErrorKind::InvalidWikiLink,
        ),
{
    finish_inline(src, match_wikilink(src, 0), ParseErrorKind::InvalidWikiLink)
}

/// Parses a whole text as a link.
pub fn link_parser(src: &Source) -> (out: ParseOutput<InlineMarkdownNode>)
    ensures
        (out.output, out.errors@) == whole_inline(
            src.text(),
            link_at(src.text(), 0),
            ParseErrorKind::InvalidLink,
        ),
{
    finish_inline(src, match_link(src, 0), ParseErrorKind::InvalidLink)
}

/// Parses a whole text as an image.
pub fn image_parser(src: &Source) -> (out: ParseOutput<InlineMarkdownNode>)
    ensures
        (out.output, out.errors@) == whole_inline(
            src.text(),
            image_at(src.text(), 0),
            ParseErrorKind::InvalidImage,
        ),
{
    finish_inline(src, match_image(src, 0), ParseErrorKind::InvalidImage)
}

/// Parses a whole text as plain text.
pub fn plain_text_parser(src: &Source) -> (out: ParseOutput<InlineMarkdownNode>)
    ensures
        (out.output, out.errors@) == whole_inline(
            src.text(),
            plain_text_at(src.text(), 0),
            ParseErrorKind::Unexpected,
        ),
{
    finish_inline(src, match_plain_text(src, 0), ParseErrorKind::Unexpected)
}

/// Parses a whole text as one inline node.
pub fn inline_parser(src: &Source) -> (out: ParseOutput<InlineMarkdownNode>)
    ensures
        (out.output, out.errors@) == whole_inline(
            src.text(),
            inline_at(src.text(), 0),
            invalid_kind(src.text(), 0),
        ),
{
    let s = src.chars();
    let kind = start_kind(s, 0);
    finish_inline(src, match_inline(src, 0), kind)
}

fn start_kind(s: &Vec<char>, i: usize) -> (kind: ParseErrorKind)
    ensures
        kind == invalid_kind(s@, i as int),
{
    if is_pair_at(s, i, '[', '[') {
        ParseErrorKind::InvalidWikiLink
    } else if is_pair_at(s, i, '[', '^') {
        ParseErrorKind::InvalidFootnote
    } else if is_pair_at(s, i, '!', '[') {
        ParseErrorKind::InvalidImage
    } else if is_char_at(s, i, '[') {
        ParseErrorKind::InvalidLink
    } else {
        ParseErrorKind::Unexpected
    }
}

/// What a parse of a whole text as one block gives. The block comes out if
/// the construct matches and `end`, the index up to which it is taken to
/// reach, is the end of the text; its warnings come with it. Else there is
/// no block, and one error, as for an inline construct.
pub open spec fn whole_block(
    s: Seq<char>,
    m: Option<BlockMatch>,
    end: int,
    failure: ParseErrorKind,
) -> (Option<MarkdownNodeView>, Seq<ParseError>) {
    match m {
        Some(m) => if end == s.len() {
            (Some(m.node), m.warnings)
        } else {
            (
                None,
                seq![
                    ParseError {
                        span: span_of(s, end, s.len() as int),
                        kind: ParseErrorKind::TrailingInput,
                    },
                ],
            )
        },
        None => (None, seq![ParseError { span: span_of(s, 0, s.len() as int), kind: failure }]),
    }
}

/// The block of an optional node.
pub open spec fn node_view(n: Option<MarkdownNode>) -> Option<MarkdownNodeView> {
    match n {
        Some(n) => Some(n@),
        None => None,
    }
}

fn finish_block(src: &Source, m: Option<Block>, end: usize, failure: ParseErrorKind) -> (out:
    ParseOutput<MarkdownNode>)
    requires
        end <= src.text().len(),
    ensures
        (node_view(out.output), out.errors@) == whole_block(
            src.text(),
            block_view(m),
            end as int,
            failure,
        ),
{
    let len = src.len();
    match m {
        Some(b) => {
            if end == len {
                ParseOutput { output: Some(b.node), errors: b.warnings }
            } else {
                let mut errors: Vec<ParseError> = Vec::new();
                errors.push(
                    ParseError { span: src.span(end, len), kind: ParseErrorKind::TrailingInput },
                );
                ParseOutput { output: None, errors }
            }
        },
        None => {
            let mut errors: Vec<ParseError> = Vec::new();
            errors.push(ParseError { span: src.span(0, len), kind: failure });
            ParseOutput { output: None, errors }
        },
    }
}

/// Where a block that ends at `end` is taken to reach when the line break
/// that closes its line is counted in.
pub open spec fn past_line_break(s: Seq<char>, end: int) -> int {
    match newline_at(s, end) {
        Some(n) => n,
        None => end,
    }
}

/// The end of an optional match, or 0.
pub open spec fn end_of(m: Option<BlockMatch>) -> int {
    match m {
        Some(m) => m.end,
        None => 0,
    }
}

/// Parses a whole text as a header line: a header, and the line break that
/// closes the line if there is one.
pub fn header_parser(src: &Source) -> (out: ParseOutput<MarkdownNode>)
    ensures
        (node_view(out.output), out.errors@) == whole_block(
            src.text(),
            header_at(src.text(), 0),
            past_line_break(src.text(), end_of(header_at(src.text(), 0))),
            ParseErrorKind::Unexpected,
        ),
{
    let header = match_header(src, 0);
    let end = match &header {
        Some(b) => match match_newline(src.chars(), b.end) {
            Some(n) => n,
            None => b.end,
        },
        None => 0,
    };
    finish_block(src, header, end, ParseErrorKind::Unexpected)
}

/// Parses a whole text as a footnote definition.
pub fn footnote_definition_parser(src: &Source) -> (out: ParseOutput<MarkdownNode>)
    ensures
        (node_view(out.output), out.errors@) == whole_block(
            src.text(),
            footnote_definition_at(src.text(), 0),
            end_of(footnote_definition_at(src.text(), 0)),
            ParseErrorKind::InvalidFootnote,
        ),
{
    let definition = match_footnote_definition(src, 0);
    let end = match &definition {
        Some(b) => b.end,
        None => 0,
    };
    finish_block(src, definition, end, ParseErrorKind::InvalidFootnote)
}

/// Parses a whole text as a paragraph.
pub fn paragraph_parser(src: &Source) -> (out: ParseOutput<MarkdownNode>)
    ensures
        (node_view(out.output), out.errors@) == whole_block(
            src.text(),
            paragraph_at(src.text(), 0),
            end_of(paragraph_at(src.text(), 0)),
            invalid_kind(src.text(), 0),
        ),
{
    let kind = start_kind(src.chars(), 0);
    let paragraph = match_paragraph(src, 0);
    let end = match &paragraph {
        Some(b) => b.end,
        None => 0,
    };
    finish_block(src, paragraph, end, kind)
}

/// A parsed note: its front matter, if it has any, and its blocks.
#[derive(Debug, Clone, PartialEq)]
pub struct ParsedMarkdown {
    pub frontmatter: Option<Frontmatter>,
    pub body: Vec<Spanned<MarkdownNode>>,
}

/// Where the body of a note begins: after its front matter, if it has any.
pub open spec fn body_start(s: Seq<char>) -> int {
    match frontmatter_at(s, 0) {
        Some(run) => run.end,
        None => 0,
    }
}

/// The front matter of a note, if it has any.
pub open spec fn note_frontmatter(s: Seq<char>) -> Option<Seq<(Slice, YamlView)>> {
    match frontmatter_at(s, 0) {
        Some(run) => Some(run.entries),
        None => None,
    }
}

/// The blocks of a note's body.
pub open spec fn note_blocks(s: Seq<char>) -> Seq<Spanned<MarkdownNodeView>> {
    blocks_from(s, body_start(s)).blocks
}

/// The errors and warnings that reading a note's body gives, in the order
/// in which they are met.
pub open spec fn note_errors(s: Seq<char>) -> Seq<ParseError> {
    blocks_from(s, body_start(s)).errors
}

/// Parses a note. Every text is a note: what cannot be read as a block is
/// set aside as an invalid block, line by line, and reported.
pub fn markdown_parser(src: &Source) -> (out: ParseOutput<ParsedMarkdown>)
    ensures
        out.output is Some,
        frontmatter_view(out.output->0.frontmatter) == note_frontmatter(src.text()),
        block_views(out.output->0.body@) == note_blocks(src.text()),
        out.errors@ == note_errors(src.text()),
{
    let (frontmatter, start) = match match_frontmatter(src, 0) {
        Some((fm, e)) => (Some(fm), e),
        None => (None, 0),
    };
    let (body, errors) = match_blocks(src, start);
    ParseOutput { output: Some(ParsedMarkdown { frontmatter, body }), errors }
}


/// Whether every node of a run lies within the text.
pub open spec fn inline_spans_within(s: Seq<char>, nodes: Seq<Spanned<InlineMarkdownNode>>) -> bool {
    forall|j: int| 0 <= j < nodes.len() ==> span_within(s, #[trigger] nodes[j].1)
}

/// Whether every error is about a stretch within the text.
pub open spec fn error_spans_within(s: Seq<char>, errors: Seq<ParseError>) -> bool {
    forall|j: int| 0 <= j < errors.len() ==> span_within(s, #[trigger] errors[j].span)
}

/// Whether a block and the inline nodes it holds lie within the text.
pub open spec fn block_within(s: Seq<char>, block: Spanned<MarkdownNodeView>) -> bool {
    &&& span_within(s, block.1)
    &&& match block.0 {
        MarkdownNodeView::Paragraph(nodes) => inline_spans_within(s, nodes),
        MarkdownNodeView::FootnoteDefinition { content, .. } => inline_spans_within(s, content),
        _ => true,
    }
}

/// Whether every block lies within the text.
pub open spec fn block_spans_within(s: Seq<char>, blocks: Seq<Spanned<MarkdownNodeView>>) -> bool {
    forall|k: int| 0 <= k < blocks.len() ==> block_within(s, #[trigger] blocks[k])
}

/// The nodes of a run of inline nodes, and what its warnings are about,
/// lie within the text.
pub proof fn lemma_inlines_within(s: Seq<char>, i: int)
    requires
        0 <= i <= s.len(),
        byte_len(s) <= usize::MAX,
    ensures
        inline_spans_within(s, inlines_from(s, i).nodes),
        error_spans_within(s, inlines_from(s, i).warnings),
    decreases s.len() - i,
{
    match inline_at(s, i) {
        Some(m) => {
            lemma_inline_advances(s, i);
            lemma_inlines_within(s, m.end as int);
            lemma_span_of_within(s, i, m.end as int);
            let rest = inlines_from(s, m.end as int);
            let run = inlines_from(s, i);
            assert forall|j: int| 0 <= j < run.nodes.len() implies span_within(
                s,
                #[trigger] run.nodes[j].1,
            ) by {
                if j > 0 {
                    assert(run.nodes[j] == rest.nodes[j - 1]);
                }
            }
            assert forall|j: int| 0 <= j < run.warnings.len() implies span_within(
                s,
                #[trigger] run.warnings[j].span,
            ) by {
                let w = warning_seq(m.warning);
                if j >= w.len() {
                    assert(run.warnings[j] == rest.warnings[j - w.len()]);
                }
            }
        },
        None => {},
    }
}

/// A block, valid or not, takes at least one character, ends within the
/// text, and lies within the text with all it holds.
pub proof fn lemma_block_within(s: Seq<char>, i: int)
    requires
        0 <= i < s.len(),
        byte_len(s) <= usize::MAX,
    ensures
        i < block_or_invalid(s, i).end <= s.len(),
        block_within(
            s,
            Spanned(block_or_invalid(s, i).node, span_of(s, i, block_or_invalid(s, i).end)),
        ),
        error_spans_within(s, block_or_invalid(s, i).warnings),
{
    let m = block_or_invalid(s, i);
    if header_at(s, i) is Some {
        lemma_run_end(s, i, CharClass::Hash);
        let level = hashes_at(s, i);
        lemma_run_end(s, i + level, CharClass::Blank);
        lemma_run_end(s, run_end(s, i + level, CharClass::Blank), CharClass::LineText);
    } else if footnote_definition_at(s, i) is Some {
        let e = run_end(s, i + 2, CharClass::Alphanumeric);
        lemma_run_end(s, i + 2, CharClass::Alphanumeric);
        lemma_inlines_end(s, e + 2);
        lemma_inlines_within(s, e + 2);
    } else if paragraph_at(s, i) is Some {
        lemma_inlines_end(s, i);
        lemma_inlines_within(s, i);
    } else {
        lemma_run_end(s, i, CharClass::LineText);
    }
    lemma_span_of_within(s, i, m.end);
}

/// Every block of a text lies within the text with all it holds, and so
/// does what each error is about.
pub proof fn lemma_blocks_within(s: Seq<char>, i: int)
    requires
        0 <= i <= s.len(),
        byte_len(s) <= usize::MAX,
    ensures
        block_spans_within(s, blocks_from(s, i).blocks),
        error_spans_within(s, blocks_from(s, i).errors),
    decreases s.len() - i,
{
    if i < s.len() {
        let m = block_or_invalid(s, i);
        lemma_block_within(s, i);
        let next = run_end(s, m.end, CharClass::Whitespace);
        lemma_run_end(s, m.end, CharClass::Whitespace);
        lemma_blocks_within(s, next);
        let rest = blocks_from(s, next);
        let run = blocks_from(s, i);
        assert forall|k: int| 0 <= k < run.blocks.len() implies block_within(
            s,
            #[trigger] run.blocks[k],
        ) by {
            if k > 0 {
                assert(run.blocks[k] == rest.blocks[k - 1]);
            }
        }
        assert forall|j: int| 0 <= j < run.errors.len() implies span_within(
            s,
            #[trigger] run.errors[j].span,
        ) by {
            if j >= m.warnings.len() {
                assert(run.errors[j] == rest.errors[j - m.warnings.len()]);
            } else {
                assert(run.errors[j] == m.warnings[j]);
            }
        }
    }
}

/// Where the body of a note begins lies within the text.
pub proof fn lemma_body_start(s: Seq<char>)
    ensures
        0 <= body_start(s) <= s.len(),
{
    match frontmatter_at(s, 0) {
        Some(run) => {
            lemma_frontmatter_end(s, 0);
        },
        None => {},
    }
}

/// Every block of a note lies within its text with all it holds, and so
/// does what each error is about.
pub proof fn lemma_note_within(s: Seq<char>)
    requires
        byte_len(s) <= usize::MAX,
    ensures
        block_spans_within(s, note_blocks(s)),
        error_spans_within(s, note_errors(s)),
{
    lemma_body_start(s);
    lemma_blocks_within(s, body_start(s));
}

} // verus!
