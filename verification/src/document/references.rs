//! References: the headers and links of a document, each with the range it
//! covers.

use vstd::prelude::*;
use crate::lsp_types::{range_contains, Position, Range};
use crate::text::{opt_str_text, opt_text};

verus! {

/// What a reference is: a header, or one of the two kinds of link.
#[derive(Debug, Clone, PartialEq)]
pub enum ReferenceKind {
    Header {
        /// The level of the header - H1, H2, H3
        level: usize,
        /// The content of the header
        content: String,
    },
    Link {
        /// The target URL/file path
        target: String,
        alt_text: String,
        title: Option<String>,
        /// Specific header in another markdown file
        header: Option<String>,
    },
    WikiLink {
        /// The target URL/file path
        target: String,
        alias: Option<String>,
        /// Specific header in another markdown file
        header: Option<String>,
    },
}

/// A reference kind with its texts as character sequences.
pub enum ReferenceKindView {
    Header { level: usize, content: Seq<char> },
    Link {
        target: Seq<char>,
        alt_text: Seq<char>,
        title: Option<Seq<char>>,
        header: Option<Seq<char>>,
    },
    WikiLink { target: Seq<char>, alias: Option<Seq<char>>, header: Option<Seq<char>> },
}

impl View for ReferenceKind {
    type V = ReferenceKindView;

    open spec fn view(&self) -> ReferenceKindView {
        match *self {
            ReferenceKind::Header { level, content } => ReferenceKindView::Header {
                level,
                content: content@,
            },
            ReferenceKind::Link { target, alt_text, title, header } => ReferenceKindView::Link {
                target: target@,
                alt_text: alt_text@,
                title: opt_text(title),
                header: opt_text(header),
            },
            ReferenceKind::WikiLink { target, alias, header } => ReferenceKindView::WikiLink {
                target: target@,
                alias: opt_text(alias),
                header: opt_text(header),
            },
        }
    }
}

impl ReferenceKindView {
    /// Whether the reference is a link of either kind.
    pub open spec fn is_link(self) -> bool {
        self is Link || self is WikiLink
    }

    /// What a link points at; a header points at nothing.
    pub open spec fn target(self) -> Option<Seq<char>> {
        match self {
            ReferenceKindView::Link { target, .. } => Some(target),
            ReferenceKindView::WikiLink { target, .. } => Some(target),
            ReferenceKindView::Header { .. } => None,
        }
    }

    /// The fragment of a link, where it has one.
    pub open spec fn link_header(self) -> Option<Seq<char>> {
        match self {
            ReferenceKindView::Link { header, .. } => header,
            ReferenceKindView::WikiLink { header, .. } => header,
            ReferenceKindView::Header { .. } => None,
        }
    }

    /// The text of a header.
    pub open spec fn content(self) -> Option<Seq<char>> {
        match self {
            ReferenceKindView::Header { content, .. } => Some(content),
            _ => None,
        }
    }

    /// The level of a header.
    pub open spec fn level(self) -> Option<usize> {
        match self {
            ReferenceKindView::Header { level, .. } => Some(level),
            _ => None,
        }
    }

    /// The alias of a wiki link, where it has one.
    pub open spec fn alias(self) -> Option<Seq<char>> {
        match self {
            ReferenceKindView::WikiLink { alias, .. } => alias,
            _ => None,
        }
    }
}

fn as_deref(s: &Option<String>) -> (r: Option<&str>)
    ensures
        opt_str_text(r) == opt_text(*s),
{
    match s {
        Some(t) => Some(t.as_str()),
        None => None,
    }
}

impl ReferenceKind {
    pub fn is_link(&self) -> (r: bool)
        ensures
            r == self@.is_link(),
    {
        match self {
            ReferenceKind::Link { .. } => true,
            ReferenceKind::WikiLink { .. } => true,
            ReferenceKind::Header { .. } => false,
        }
    }

    /// Get the target from a link
    pub fn get_target(&self) -> (r: Option<&str>)
        ensures
            opt_str_text(r) == self@.target(),
    {
        match self {
            ReferenceKind::Link { target, .. } => Some(target.as_str()),
            ReferenceKind::WikiLink { target, .. } => Some(target.as_str()),
            ReferenceKind::Header { .. } => None,
        }
    }

    pub fn get_link_header(&self) -> (r: Option<&str>)
        ensures
            opt_str_text(r) == self@.link_header(),
    {
        match self {
            ReferenceKind::Link { header, .. } => as_deref(header),
            ReferenceKind::WikiLink { header, .. } => as_deref(header),
            ReferenceKind::Header { .. } => None,
        }
    }

    pub fn get_content(&self) -> (r: Option<&str>)
        ensures
            opt_str_text(r) == self@.content(),
    {
        match self {
            ReferenceKind::Header { content, .. } => Some(content.as_str()),
            _ => None,
        }
    }

    pub fn get_level(&self) -> (r: Option<usize>)
        ensures
            r == self@.level(),
    {
        match self {
            ReferenceKind::Header { level, .. } => Some(*level),
            _ => None,
        }
    }

    pub fn get_alias(&self) -> (r: Option<&str>)
        ensures
            opt_str_text(r) == self@.alias(),
    {
        match self {
            ReferenceKind::WikiLink { alias, .. } => as_deref(alias),
            _ => None,
        }
    }
}

/// A header or link of a document, with the range it covers.
#[derive(Debug, Clone, PartialEq)]
pub struct Reference {
    pub kind: ReferenceKind,
    pub range: Range,
}

/// A reference with its texts as character sequences.
pub struct ReferenceView {
    pub kind: ReferenceKindView,
    pub range: Range,
}

impl View for Reference {
    type V = ReferenceView;

    open spec fn view(&self) -> ReferenceView {
        ReferenceView { kind: self.kind@, range: self.range }
    }
}

/// A list of references with their texts as character sequences.
pub open spec fn reference_views(refs: Seq<Reference>) -> Seq<ReferenceView> {
    Seq::new(refs.len(), |i: int| refs[i]@)
}

impl Reference {
    /// Whether the position lies within the reference's range. The range is
    /// half-open: a position at its very end lies outside.
    pub fn contains_position(&self, position: Position) -> (r: bool)
        ensures
            r == range_contains(self.range, position),
    {
        if position.line < self.range.start.line || position.line > self.range.end.line {
            return false;
        }
        if position.line == self.range.start.line && position.character
            < self.range.start.character {
            return false;
        }
        if position.line == self.range.end.line && position.character >= self.range.end.character {
            return false;
        }
        true
    }
}

/// The index of the first reference, at or after `from`, whose range
/// holds the position.
pub open spec fn first_containing(refs: Seq<ReferenceView>, position: Position, from: int)
    -> Option<int>
    decreases refs.len() - from,
{
    if from < 0 || from >= refs.len() {
        None
    } else if range_contains(refs[from].range, position) {
        Some(from)
    } else {
        first_containing(refs, position, from + 1)
    }
}

/// What `first_containing` boils down to.
pub proof fn lemma_first_containing(refs: Seq<ReferenceView>, position: Position, from: int)
    requires
        0 <= from,
    ensures
        match first_containing(refs, position, from) {
            Some(i) => from <= i < refs.len() && range_contains(refs[i].range, position)
                && forall|j: int|
                from <= j < i ==> !range_contains((#[trigger] refs[j]).range, position),
            None => forall|j: int|
                from <= j < refs.len() ==> !range_contains((#[trigger] refs[j]).range, position),
        },
    decreases refs.len() - from,
{
    if from < refs.len() && !range_contains(refs[from].range, position) {
        lemma_first_containing(refs, position, from + 1);
    }
}

/// Finds the first reference whose range holds the position.
pub fn find_reference_at(refs: &Vec<Reference>, position: Position) -> (r: Option<usize>)
    ensures
        match r {
            Some(i) => first_containing(reference_views(refs@), position, 0) == Some(i as int) && i
                < refs.len() && range_contains(refs@[i as int].range, position),
            None => first_containing(reference_views(refs@), position, 0) is None,
        },
{
    let ghost views = reference_views(refs@);
    let mut i: usize = 0;
    while i < refs.len()
        invariant
            views == reference_views(refs@),
            first_containing(views, position, 0) == first_containing(views, position, i as int),
        decreases refs.len() - i,
    {
        proof {
            assert(views[i as int] == refs@[i as int]@);
        }
        if refs[i].contains_position(position) {
            return Some(i);
        }
        i += 1;
    }
    None
}

} // verus!
