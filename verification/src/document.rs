//! A document: a text, and the references and diagnostics that reading the
//! text gives. References and diagnostics are never set apart from the
//! text: whoever changes the text gets them anew.

use vstd::prelude::*;
use crate::error::LspError;
use crate::lsp_types::{
    range_contains, Diagnostic, DiagnosticSeverity, DiagnosticView, Position, Range,
};
use crate::parser::markdown::{
    block_spans_within, block_within, error_spans_within, inline_spans_within, lemma_note_within,
    markdown_parser, note_blocks, note_errors, span_within,
};
use crate::parser::{
    block_views, message_text, ByteSpan, HeaderRef, InlineMarkdownNode, LinkType, MarkdownNode,
    MarkdownNodeView, ParseError, Slice, Source, Spanned,
};
use crate::text::{byte_len, opt_text};
use crate::text_buffer_conversions::{
    lemma_range_round_trip, range_of_span, span_of_range, TextBuffer, TextBufferConversions,
};
use crate::uri::URI;
use references::{
    find_reference_at, first_containing, reference_views, Reference, ReferenceKind,
    ReferenceKindView, ReferenceView,
};

pub mod references;

verus! {

/// A reference as the syntax gives it: what it is, and the bytes it
/// covers.
pub struct ReferenceNode {
    pub kind: ReferenceKindView,
    pub span: ByteSpan,
}

/// The text of a fragment.
pub open spec fn fragment_text(s: Seq<char>, header: Option<HeaderRef>) -> Option<Seq<char>> {
    match header {
        Some(h) => Some(h.slug.of(s)),
        None => None,
    }
}

/// The text of an optional slice.
pub open spec fn slice_text(s: Seq<char>, slice: Option<Slice>) -> Option<Seq<char>> {
    match slice {
        Some(x) => Some(x.of(s)),
        None => None,
    }
}

/// The reference that an inline node is: links and wiki links are
/// references, nothing else is.
pub open spec fn inline_reference(s: Seq<char>, node: Spanned<InlineMarkdownNode>) -> Option<
    ReferenceNode,
> {
    match node.0 {
        InlineMarkdownNode::Link(LinkType::InlineLink { text, uri, header }) => Some(
            ReferenceNode {
                kind: ReferenceKindView::Link {
                    target: uri.of(s),
                    alt_text: text.of(s),
                    title: None,
                    header: fragment_text(s, header),
                },
                span: node.1,
            },
        ),
        InlineMarkdownNode::Link(LinkType::WikiLink { target, display_text, header }) => Some(
            ReferenceNode {
                kind: ReferenceKindView::WikiLink {
                    target: target.of(s),
                    alias: slice_text(s, display_text),
                    header: fragment_text(s, header),
                },
                span: node.1,
            },
        ),
        _ => None,
    }
}

/// The references among a run of inline nodes, in order.
pub open spec fn inline_references(s: Seq<char>, nodes: Seq<Spanned<InlineMarkdownNode>>) -> Seq<
    ReferenceNode,
>
    decreases nodes.len(),
{
    if nodes.len() == 0 {
        seq![]
    } else {
        match inline_reference(s, nodes.last()) {
            Some(r) => inline_references(s, nodes.drop_last()).push(r),
            None => inline_references(s, nodes.drop_last()),
        }
    }
}

/// The references that a block gives: a header is one, a paragraph gives
/// those among its inline nodes, and no other block gives any.
pub open spec fn block_references(s: Seq<char>, block: Spanned<MarkdownNodeView>) -> Seq<
    ReferenceNode,
> {
    match block.0 {
        MarkdownNodeView::Header { level, content } => seq![
            ReferenceNode {
                kind: ReferenceKindView::Header { level, content: content.of(s) },
                span: block.1,
            },
        ],
        MarkdownNodeView::Paragraph(nodes) => inline_references(s, nodes),
        _ => seq![],
    }
}

/// The references that a list of blocks gives, in the order of the text.
pub open spec fn reference_nodes(s: Seq<char>, blocks: Seq<Spanned<MarkdownNodeView>>) -> Seq<
    ReferenceNode,
>
    decreases blocks.len(),
{
    if blocks.len() == 0 {
        seq![]
    } else {
        reference_nodes(s, blocks.drop_last()) + block_references(s, blocks.last())
    }
}

/// References with the bytes they cover turned into ranges.
pub open spec fn located(s: Seq<char>, nodes: Seq<ReferenceNode>) -> Seq<ReferenceView> {
    Seq::new(
        nodes.len(),
        |k: int| ReferenceView { kind: nodes[k].kind, range: range_of_span(s, nodes[k].span) },
    )
}

/// The references of a note as the syntax gives them.
pub open spec fn note_reference_nodes(s: Seq<char>) -> Seq<ReferenceNode> {
    reference_nodes(s, note_blocks(s))
}

/// The references of a note.
pub open spec fn note_references(s: Seq<char>) -> Seq<ReferenceView> {
    located(s, note_reference_nodes(s))
}

/// The diagnostics that a list of errors gives: a warning for each, on the
/// range of what the error is about.
pub open spec fn diagnostics_of(s: Seq<char>, errors: Seq<ParseError>) -> Seq<DiagnosticView> {
    Seq::new(
        errors.len(),
        |k: int|
            DiagnosticView {
                range: range_of_span(s, errors[k].span),
                severity: DiagnosticSeverity::Warning,
                source: "parser"@,
                message: message_text(errors[k].kind),
            },
    )
}

/// The diagnostics of a note.
pub open spec fn note_diagnostics(s: Seq<char>) -> Seq<DiagnosticView> {
    diagnostics_of(s, note_errors(s))
}

/// A list of diagnostics with their texts as character sequences.
pub open spec fn diagnostic_views(diagnostics: Seq<Diagnostic>) -> Seq<DiagnosticView> {
    Seq::new(diagnostics.len(), |k: int| diagnostics[k]@)
}

/// Whether every reference covers bytes of the text.
pub open spec fn reference_spans_within(s: Seq<char>, nodes: Seq<ReferenceNode>) -> bool {
    forall|k: int| 0 <= k < nodes.len() ==> span_within(s, #[trigger] nodes[k].span)
}

proof fn lemma_inline_references_within(s: Seq<char>, nodes: Seq<Spanned<InlineMarkdownNode>>)
    requires
        inline_spans_within(s, nodes),
    ensures
        reference_spans_within(s, inline_references(s, nodes)),
    decreases nodes.len(),
{
    if nodes.len() > 0 {
        let init = nodes.drop_last();
        assert(inline_spans_within(s, init)) by {
            assert forall|j: int| 0 <= j < init.len() implies span_within(s, #[trigger] init[j].1) by {
                assert(init[j] == nodes[j]);
            }
        }
        lemma_inline_references_within(s, init);
        assert(span_within(s, nodes[nodes.len() - 1].1));
    }
}

proof fn lemma_reference_nodes_within(s: Seq<char>, blocks: Seq<Spanned<MarkdownNodeView>>)
    requires
        block_spans_within(s, blocks),
    ensures
        reference_spans_within(s, reference_nodes(s, blocks)),
    decreases blocks.len(),
{
    if blocks.len() > 0 {
        let init = blocks.drop_last();
        assert(block_spans_within(s, init)) by {
            assert forall|k: int| 0 <= k < init.len() implies block_within(
                s,
                #[trigger] init[k],
            ) by {
                assert(init[k] == blocks[k]);
            }
        }
        lemma_reference_nodes_within(s, init);
        let last = blocks[blocks.len() - 1];
        assert(block_within(s, last));
        match last.0 {
            MarkdownNodeView::Paragraph(nodes) => {
                lemma_inline_references_within(s, nodes);
            },
            _ => {},
        }
    }
}

/// Every reference of a note covers bytes of the note's text: its span
/// begins no later than it ends, and ends no later than the text.
pub proof fn lemma_references_within(s: Seq<char>)
    requires
        byte_len(s) <= usize::MAX,
    ensures
        reference_spans_within(s, note_reference_nodes(s)),
{
    lemma_note_within(s);
    lemma_reference_nodes_within(s, note_blocks(s));
}

/// Every reference of a document covers bytes of the document's text: its
/// range is the range of a span that begins before it ends and ends no
/// later than the text, and read back as bytes the range is that span.
pub proof fn lemma_document_references_within(document: &Document, i: int)
    requires
        document.wf(),
        byte_len(document.text()) <= usize::MAX,
        0 <= i < document.references@.len(),
    ensures
        i < note_reference_nodes(document.text()).len(),
        span_within(document.text(), note_reference_nodes(document.text())[i].span),
        document.references@[i].range == range_of_span(
            document.text(),
            note_reference_nodes(document.text())[i].span,
        ),
        span_of_range(document.text(), document.references@[i].range) == Some(
            note_reference_nodes(document.text())[i].span,
        ),
{
    let s = document.text();
    lemma_references_within(s);
    assert(document.reference_list().len() == document.references@.len());
    assert(note_references(s).len() == note_reference_nodes(s).len());
    assert(document.reference_list()[i] == document.references@[i]@);
    assert(note_references(s)[i].range == range_of_span(s, note_reference_nodes(s)[i].span));
    lemma_range_round_trip(s, note_reference_nodes(s)[i].span);
}

/// The references of a document all cover bytes of the document's text.
pub proof fn lemma_references_in_text(document: &Document)
    requires
        document.wf(),
        byte_len(document.text()) <= usize::MAX,
    ensures
        document.references_in_text(),
{
    assert forall|i: int| 0 <= i < document.references@.len() implies match span_of_range(
        document.text(),
        (#[trigger] document.references@[i]).range,
    ) {
        Some(span) => span.start < span.end <= byte_len(document.text()),
        None => false,
    } by {
        lemma_document_references_within(document, i);
    }
}

fn fragment_string(src: &Source, header: &Option<HeaderRef>) -> (r: Option<String>)
    ensures
        opt_text(r) == fragment_text(src.text(), *header),
{
    match header {
        Some(h) => Some(src.text_of(h.slug)),
        None => None,
    }
}

fn slice_string(src: &Source, slice: &Option<Slice>) -> (r: Option<String>)
    ensures
        opt_text(r) == slice_text(src.text(), *slice),
{
    match slice {
        Some(x) => Some(src.text_of(*x)),
        None => None,
    }
}

fn collect_inline_references(
    src: &Source,
    buffer: &TextBuffer,
    nodes: &Vec<Spanned<InlineMarkdownNode>>,
    refs: &mut Vec<Reference>,
)
    requires
        buffer@ == src.text(),
        inline_spans_within(src.text(), nodes@),
    ensures
        reference_views(final(refs)@) == reference_views(old(refs)@) + located(
            src.text(),
            inline_references(src.text(), nodes@),
        ),
{
    let ghost s = src.text();
    let ghost before = reference_views(refs@);
    let mut j: usize = 0;
    proof {
        assert(nodes@.take(0) =~= Seq::empty());
        assert(before + located(s, inline_references(s, nodes@.take(0))) =~= before);
    }
    while j < nodes.len()
        invariant
            j <= nodes.len(),
            s == src.text(),
            buffer@ == s,
            inline_spans_within(s, nodes@),
            reference_views(refs@) == before + located(
                s,
                inline_references(s, nodes@.take(j as int)),
            ),
        decreases nodes.len() - j,
    {
        let node = &nodes[j];
        let ghost so_far = inline_references(s, nodes@.take(j as int));
        let ghost views = reference_views(refs@);
        proof {
            let next = nodes@.take(j + 1);
            assert(next.drop_last() == nodes@.take(j as int));
            assert(next.last() == nodes@[j as int]);
            assert(span_within(s, nodes@[j as int].1));
        }
        match node.0 {
            InlineMarkdownNode::Link(LinkType::InlineLink { text, uri, header }) => {
                let reference = Reference {
                    kind: ReferenceKind::Link {
                        target: src.text_of(uri),
                        alt_text: src.text_of(text),
                        title: None,
                        header: fragment_string(src, &header),
                    },
                    range: buffer.byte_to_lsp_range(&node.1),
                };
                refs.push(reference);
                proof {
                    let r = inline_reference(s, nodes@[j as int])->0;
                    assert(reference_views(refs@) =~= views.push(reference@));
                    assert(before + located(s, so_far.push(r)) =~= (before + located(
                        s,
                        so_far,
                    )).push(reference@));
                }
            },
            InlineMarkdownNode::Link(LinkType::WikiLink { target, display_text, header }) => {
                let reference = Reference {
                    kind: ReferenceKind::WikiLink {
                        target: src.text_of(target),
                        alias: slice_string(src, &display_text),
                        header: fragment_string(src, &header),
                    },
                    range: buffer.byte_to_lsp_range(&node.1),
                };
                refs.push(reference);
                proof {
                    let r = inline_reference(s, nodes@[j as int])->0;
                    assert(reference_views(refs@) =~= views.push(reference@));
                    assert(before + located(s, so_far.push(r)) =~= (before + located(
                        s,
                        so_far,
                    )).push(reference@));
                }
            },
            _ => {},
        }
        j += 1;
    }
    proof {
        assert(nodes@.take(nodes.len() as int) == nodes@);
    }
}

fn collect_references(src: &Source, buffer: &TextBuffer, body: &Vec<Spanned<MarkdownNode>>) -> (refs:
    Vec<Reference>)
    requires
        buffer@ == src.text(),
        block_spans_within(src.text(), block_views(body@)),
    ensures
        reference_views(refs@) == located(
            src.text(),
            reference_nodes(src.text(), block_views(body@)),
        ),
{
    let ghost s = src.text();
    let ghost blocks = block_views(body@);
    let mut refs: Vec<Reference> = Vec::new();
    let mut k: usize = 0;
    proof {
        assert(blocks.take(0) =~= Seq::empty());
        assert(reference_views(refs@) =~= located(s, reference_nodes(s, blocks.take(0))));
    }
    while k < body.len()
        invariant
            k <= body.len(),
            s == src.text(),
            buffer@ == s,
            blocks == block_views(body@),
            block_spans_within(s, blocks),
            reference_views(refs@) == located(s, reference_nodes(s, blocks.take(k as int))),
        decreases body.len() - k,
    {
        let block = &body[k];
        let ghost so_far = reference_nodes(s, blocks.take(k as int));
        let ghost views = reference_views(refs@);
        proof {
            let next = blocks.take(k + 1);
            assert(next.drop_last() == blocks.take(k as int));
            assert(next.last() == blocks[k as int]);
            assert(block_within(s, blocks[k as int]));
            assert(blocks[k as int] == Spanned(body@[k as int].0@, body@[k as int].1));
        }
        match &block.0 {
            MarkdownNode::Header { level, content } => {
                let reference = Reference {
                    kind: ReferenceKind::Header { level: *level, content: src.text_of(*content) },
                    range: buffer.byte_to_lsp_range(&block.1),
                };
                refs.push(reference);
                proof {
                    let added = block_references(s, blocks[k as int]);
                    assert(reference_views(refs@) =~= views.push(reference@));
                    assert(located(s, so_far + added) =~= located(s, so_far).push(reference@));
                }
            },
            MarkdownNode::Paragraph(inlines) => {
                collect_inline_references(src, buffer, inlines, &mut refs);
                proof {
                    let added = inline_references(s, inlines@);
                    assert(located(s, so_far + added) =~= located(s, so_far) + located(s, added));
                }
            },
            _ => {
                proof {
                    assert(so_far + Seq::<ReferenceNode>::empty() =~= so_far);
                }
            },
        }
        k += 1;
    }
    proof {
        assert(blocks.take(body.len() as int) == blocks);
    }
    refs
}

fn collect_diagnostics(buffer: &TextBuffer, errors: &Vec<ParseError>) -> (out: Vec<Diagnostic>)
    requires
        error_spans_within(buffer@, errors@),
    ensures
        diagnostic_views(out@) == diagnostics_of(buffer@, errors@),
{
    let mut out: Vec<Diagnostic> = Vec::new();
    let mut k: usize = 0;
    while k < errors.len()
        invariant
            k <= errors.len(),
            error_spans_within(buffer@, errors@),
            out@.len() == k,
            forall|j: int| 0 <= j < k ==> (#[trigger] out@[j])@ == diagnostics_of(buffer@, errors@)[j],
        decreases errors.len() - k,
    {
        let error = &errors[k];
        proof {
            assert(span_within(buffer@, errors@[k as int].span));
        }
        let diagnostic = Diagnostic {
            range: buffer.byte_to_lsp_range(&error.span),
            severity: DiagnosticSeverity::Warning,
            source: String::from_str("parser"),
            message: error.reason(),
        };
        out.push(diagnostic);
        k += 1;
    }
    proof {
        assert(diagnostic_views(out@) =~= diagnostics_of(buffer@, errors@));
    }
    out
}

/// A note that the editor has open or that the workspace holds.
#[derive(Debug, Clone)]
pub struct Document {
    pub uri: URI,
    pub version: i32,
    pub content: TextBuffer,
    pub references: Vec<Reference>,
    pub diagnostics: Vec<Diagnostic>,
}

impl Document {
    /// The text of the document.
    pub open spec fn text(&self) -> Seq<char> {
        self.content@
    }

    /// The references of the document, with their texts as character
    /// sequences.
    pub open spec fn reference_list(&self) -> Seq<ReferenceView> {
        reference_views(self.references@)
    }

    /// Whether every reference covers bytes of the text: read back as
    /// bytes, its range is a span that begins before it ends and ends no
    /// later than the text.
    pub open spec fn references_in_text(&self) -> bool {
        forall|i: int|
            0 <= i < self.references@.len() ==> match span_of_range(
                self.text(),
                (#[trigger] self.references@[i]).range,
            ) {
                Some(span) => span.start < span.end <= byte_len(self.text()),
                None => false,
            }
    }

    /// Whether references and diagnostics are those that the text gives.
    pub open spec fn wf(&self) -> bool {
        &&& self.reference_list() == note_references(self.text())
        &&& diagnostic_views(self.diagnostics@) == note_diagnostics(self.text())
    }

    fn parse_and_analyze(content: &str, buffer: &TextBuffer) -> (r: (
        Vec<Reference>,
        Vec<Diagnostic>,
    ))
        requires
            buffer@ == content@,
        ensures
            reference_views(r.0@) == note_references(content@),
            diagnostic_views(r.1@) == note_diagnostics(content@),
            byte_len(content@) <= usize::MAX,
    {
        let src = Source::new(content);
        let total = src.byte_len();
        proof {
            assert(byte_len(src.text()) == total);
            lemma_note_within(src.text());
        }
        let (parsed, errors) = markdown_parser(&src).into_output_errors();
        let diagnostics = collect_diagnostics(buffer, &errors);
        let references = match parsed {
            Some(parsed) => collect_references(&src, buffer, &parsed.body),
            None => Vec::new(),
        };
        (references, diagnostics)
    }

    /// A document with the given text. References and diagnostics are
    /// those that the text gives; errors in the text become diagnostics and
    /// never stand in the way.
    pub fn new(uri: URI, content: &str, version: i32) -> (r: Result<Document, LspError>)
        ensures
            r is Ok,
            r->Ok_0.uri == uri,
            r->Ok_0.version == version,
            r->Ok_0.text() == content@,
            r->Ok_0.wf(),
            r->Ok_0.references_in_text(),
    {
        let buffer = TextBuffer::new(content);
        let (references, diagnostics) = Self::parse_and_analyze(content, &buffer);
        let document = Document { uri, version, content: buffer, references, diagnostics };
        proof {
            lemma_references_in_text(&document);
        }
        Ok(document)
    }

    /// Replaces the text of the document. The version has to be later than
    /// the document's; otherwise the update is stale and the document stays
    /// as it is. References and diagnostics change with the text.
    pub fn update(&mut self, content: &str, version: i32) -> (r: Result<(), LspError>)
        ensures
            old(self).wf() || version > old(self).version ==> final(self).wf(),
            final(self).uri == old(self).uri,
            version > old(self).version ==> r is Ok && final(self).version == version,
            version > old(self).version ==> final(self).text() == content@,
            version > old(self).version ==> final(self).references_in_text(),
            version <= old(self).version ==> r == Err::<(), LspError>(LspError::StaleVersion)
                && *final(self) == *old(self),
            r is Ok ==> final(self).version > old(self).version,
    {
        if version <= self.version {
            return Err(LspError::StaleVersion);
        }
        let buffer = TextBuffer::new(content);
        let (references, diagnostics) = Self::parse_and_analyze(content, &buffer);
        self.content = buffer;
        self.version = version;
        self.references = references;
        self.diagnostics = diagnostics;
        proof {
            lemma_references_in_text(&*self);
        }
        Ok(())
    }

    /// The first reference whose range holds the position. Ranges are
    /// half-open: a cursor at the very end of a reference is not in it.
    pub fn get_reference_at_position(&self, position: Position) -> (r: Option<&Reference>)
        ensures
            match r {
                Some(reference) => first_containing(self.reference_list(), position, 0) is Some
                    && *reference == self.references@[first_containing(
                    self.reference_list(),
                    position,
                    0,
                )->0],
                None => first_containing(self.reference_list(), position, 0) is None,
            },
            r is Some ==> range_contains(r->0.range, position),
    {
        match find_reference_at(&self.references, position) {
            Some(i) => Some(&self.references[i]),
            None => None,
        }
    }

    /// The range of a span of bytes of the text.
    pub fn byte_to_lsp_range(&self, span: &ByteSpan) -> (r: Range)
        requires
            span.start <= byte_len(self.text()),
            span.end <= byte_len(self.text()),
        ensures
            r == range_of_span(self.text(), *span),
    {
        self.content.byte_to_lsp_range(span)
    }

    /// The span of bytes of a range, if both ends of the range name a byte.
    pub fn lsp_range_to_byte(&self, range: &Range) -> (r: Option<ByteSpan>)
        ensures
            r == span_of_range(self.text(), *range),
    {
        self.content.lsp_range_to_byte_range(range)
    }
}

} // verus!
