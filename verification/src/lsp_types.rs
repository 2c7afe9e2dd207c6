//! The protocol's plain data: positions, ranges, document identifiers,
//! content changes and diagnostics.

use vstd::prelude::*;
use crate::text::opt_text;
use crate::uri::URI;

pub mod code_action;
pub mod workspace;

verus! {

/// How documents are named on the wire.
pub type DocumentUri = URI;

/// A zero-based place in a text: a line, and a column on that line. The
/// documents of this crate count columns in bytes from the beginning of
/// the line.
#[derive(Debug, PartialEq, Eq, Clone, Copy, Structural)]
pub struct Position {
    pub line: usize,
    pub character: usize,
}

/// Lexicographic order on positions: by line, then by column.
pub open spec fn pos_lt(a: Position, b: Position) -> bool {
    a.line < b.line || (a.line == b.line && a.character < b.character)
}

/// `a` is `b` or comes before it.
pub open spec fn pos_le(a: Position, b: Position) -> bool {
    a.line < b.line || (a.line == b.line && a.character <= b.character)
}

impl Position {
    pub fn new(line: usize, character: usize) -> (p: Self)
        ensures
            p.line == line,
            p.character == character,
    {
        Self { line, character }
    }

    /// Whether this position comes strictly before `other`.
    pub fn is_before(&self, other: Position) -> (r: bool)
        ensures
            r == pos_lt(*self, other),
    {
        self.line < other.line || (self.line == other.line && self.character < other.character)
    }
}

/// A half-open stretch of text, from `start` up to but not including `end`.
#[derive(Debug, PartialEq, Eq, Clone, Copy, Structural)]
pub struct Range {
    /// The range's start position.
    pub start: Position,
    /// The range's end position.
    pub end: Position,
}

/// Whether `p` lies in `range`: at or after its start and before its end.
pub open spec fn range_contains(range: Range, p: Position) -> bool {
    pos_le(range.start, p) && pos_lt(p, range.end)
}

impl Range {
    pub fn new(start: Position, end: Position) -> (r: Self)
        ensures
            r.start == start,
            r.end == end,
    {
        Self { start, end }
    }

    /// Whether the selection spans more than one line.
    pub fn is_range(&self) -> (r: bool)
        ensures
            r == (self.start.line != self.end.line),
    {
        self.start.line != self.end.line
    }

    /// Whether the range holds no text at all: its two ends coincide.
    pub fn is_empty(&self) -> (r: bool)
        ensures
            r == (self.start == self.end),
    {
        self.start.line == self.end.line && self.start.character == self.end.character
    }

    /// Whether `p` lies in the range; the end itself does not.
    pub fn contains(&self, p: Position) -> (r: bool)
        ensures
            r == range_contains(*self, p),
    {
        if p.line < self.start.line || p.line > self.end.line {
            return false;
        }
        if p.line == self.start.line && p.character < self.start.character {
            return false;
        }
        if p.line == self.end.line && p.character >= self.end.character {
            return false;
        }
        true
    }
}

impl Default for Range {
    fn default() -> (r: Self)
        ensures
            r == (Range {
                start: Position { line: 0, character: 0 },
                end: Position { line: 0, character: 0 },
            }),
    {
        Range { start: Position { line: 0, character: 0 }, end: Position { line: 0, character: 0 } }
    }
}

/// A place in a document.
#[derive(Debug, Clone, PartialEq, Eq)]
pub struct Location {
    pub uri: DocumentUri,
    pub range: Range,
}

/// A location with its URI as a character sequence.
pub struct LocationView {
    pub uri: Seq<char>,
    pub range: Range,
}

impl View for Location {
    type V = LocationView;

    open spec fn view(&self) -> LocationView {
        LocationView { uri: self.uri@, range: self.range }
    }
}

impl Location {
    pub fn new(uri: DocumentUri, range: Range) -> (l: Self)
        ensures
            l.uri == uri,
            l.range == range,
    {
        Location { uri, range }
    }
}

/// Locations with their URIs as character sequences.
pub open spec fn location_views(locations: Seq<Location>) -> Seq<LocationView> {
    Seq::new(locations.len(), |i: int| locations[i]@)
}

/// What a request for references says beyond the place.
#[derive(Debug, Clone, Copy, PartialEq, Eq, Structural)]
pub struct ReferenceContext {
    /// Whether the reference under the cursor is to be listed too.
    pub include_declaration: bool,
}

/// A request for the references to what stands at a place.
#[derive(Debug, Clone)]
pub struct ReferenceParams {
    pub text_document_position: TextDocumentPositionParams,
    pub context: ReferenceContext,
}

/// A document as the editor hands it over when it is opened.
#[derive(Debug, Clone)]
pub struct TextDocumentItem {
    pub uri: DocumentUri,
    pub language_id: String,
    pub version: i32,
    pub text: String,
}

/// A document, by its URI.
#[derive(Debug, Clone)]
pub struct TextDocumentIdentifier {
    pub uri: DocumentUri,
}

/// A document at a version.
#[derive(Debug, Clone)]
pub struct VersionedTextDocumentIdentifier {
    pub text_document_identifier: TextDocumentIdentifier,
    pub version: i32,
}

/// A position in a document.
#[derive(Debug, Clone)]
pub struct TextDocumentPositionParams {
    pub text_document: TextDocumentIdentifier,
    pub position: Position,
}

/// A change that replaces the whole text of a document.
#[derive(Debug, Clone)]
pub struct FullTextDocumentContentChange {
    pub text: String,
}

/// A change that replaces one range of a document.
#[derive(Debug, Clone)]
pub struct IncrementalTextDocumentContentChange {
    pub range: Range,
    pub range_length: Option<u32>,
    pub text: String,
}

/// A change to the text of a document: of the whole text, or of a range.
#[derive(Debug, Clone)]
pub enum TextDocumentContentChangeEvent {
    Full(FullTextDocumentContentChange),
    Incremental(IncrementalTextDocumentContentChange),
}

/// How grave a diagnostic is.
#[derive(Debug, PartialEq, Eq, Clone, Copy, Structural)]
pub enum DiagnosticSeverity {
    Error,
    Warning,
    Information,
    Hint,
}

/// A remark on a stretch of a document.
#[derive(Debug, Clone, PartialEq, Eq)]
pub struct Diagnostic {
    /// The range at which the message applies.
    pub range: Range,
    /// How grave the remark is.
    pub severity: DiagnosticSeverity,
    /// Who made the remark.
    pub source: String,
    /// The diagnostic's message.
    pub message: String,
}

/// A diagnostic with its texts as character sequences.
pub struct DiagnosticView {
    pub range: Range,
    pub severity: DiagnosticSeverity,
    pub source: Seq<char>,
    pub message: Seq<char>,
}

impl View for Diagnostic {
    type V = DiagnosticView;

    open spec fn view(&self) -> DiagnosticView {
        DiagnosticView {
            range: self.range,
            severity: self.severity,
            source: self.source@,
            message: self.message@,
        }
    }
}

/// In what form a text is to be shown.
#[derive(Debug, PartialEq, Eq, Clone, Copy, Structural)]
pub enum MarkupKind {
    PlainText,
    Markdown,
}

/// A text and the form in which it is to be shown.
#[derive(Debug, Clone, PartialEq, Eq)]
pub struct MarkupContent {
    pub kind: MarkupKind,
    pub value: String,
}

/// What is shown when the cursor rests on something.
#[derive(Debug, Clone, PartialEq, Eq)]
pub struct Hover {
    pub contents: MarkupContent,
    pub range: Option<Range>,
}

/// A hover with its text as a character sequence.
pub struct HoverView {
    pub kind: MarkupKind,
    pub value: Seq<char>,
    pub range: Option<Range>,
}

impl View for Hover {
    type V = HoverView;

    open spec fn view(&self) -> HoverView {
        HoverView { kind: self.contents.kind, value: self.contents.value@, range: self.range }
    }
}

/// What a completion stands for.
#[derive(Debug, PartialEq, Eq, Clone, Copy, Structural)]
pub enum CompletionItemKind {
    File,
    Reference,
}

/// What is shown beside the label of a completion.
#[derive(Debug, Clone, PartialEq, Eq)]
pub struct CompletionItemLabelDetails {
    pub detail: Option<String>,
    pub description: Option<String>,
}

/// A completion that the editor can offer.
#[derive(Debug, Clone, PartialEq, Eq)]
pub struct CompletionItem {
    pub label: String,
    pub label_details: Option<CompletionItemLabelDetails>,
    pub kind: Option<CompletionItemKind>,
    pub detail: Option<String>,
    pub documentation: Option<String>,
    pub insert_text: Option<String>,
}

/// What is shown beside a label, as character sequences.
pub struct LabelDetailsView {
    pub detail: Option<Seq<char>>,
    pub description: Option<Seq<char>>,
}

/// A completion with its texts as character sequences.
pub struct CompletionItemView {
    pub label: Seq<char>,
    pub label_details: Option<LabelDetailsView>,
    pub kind: Option<CompletionItemKind>,
    pub detail: Option<Seq<char>>,
    pub documentation: Option<Seq<char>>,
    pub insert_text: Option<Seq<char>>,
}

impl View for CompletionItem {
    type V = CompletionItemView;

    open spec fn view(&self) -> CompletionItemView {
        CompletionItemView {
            label: self.label@,
            label_details: match self.label_details {
                Some(d) => Some(
                    LabelDetailsView {
                        detail: opt_text(d.detail),
                        description: opt_text(d.description),
                    },
                ),
                None => None,
            },
            kind: self.kind,
            detail: opt_text(self.detail),
            documentation: opt_text(self.documentation),
            insert_text: opt_text(self.insert_text),
        }
    }
}

/// Completions with their texts as character sequences.
pub open spec fn completion_views(items: Seq<CompletionItem>) -> Seq<CompletionItemView> {
    Seq::new(items.len(), |i: int| items[i]@)
}

/// How a request for completions came about.
#[derive(Debug, PartialEq, Eq, Clone, Copy, Structural)]
pub enum CompletionTriggerKind {
    Invoked,
    TriggerCharacter,
    TriggerForIncompleteCompletions,
}

/// How a request for completions came about, and the character that set it
/// off, if one did.
#[derive(Debug, Clone)]
pub struct CompletionContext {
    pub trigger_kind: CompletionTriggerKind,
    pub trigger_character: Option<String>,
}

/// A request for the completions at a position of a document.
#[derive(Debug, Clone)]
pub struct CompletionParams {
    pub text_document_position: TextDocumentPositionParams,
    pub context: Option<CompletionContext>,
}

/// A request for the diagnostics of a document.
#[derive(Debug, Clone)]
pub struct DocumentDiagnosticParams {
    pub text_document: TextDocumentIdentifier,
}

/// All the diagnostics of a document.
#[derive(Debug, Clone, PartialEq, Eq)]
pub struct FullDocumentDiagnosticReport {
    pub result_id: Option<String>,
    pub items: Vec<Diagnostic>,
}

/// A command that the editor can run.
#[derive(Debug, Clone)]
pub struct Command {
    /// Title of the command, like `save`.
    pub title: String,
    /// The identifier of the actual command handler.
    pub command: String,
    /// Arguments that the command handler should be invoked with, each as
    /// JSON text.
    pub arguments: Option<Vec<String>>,
}

} // verus!
