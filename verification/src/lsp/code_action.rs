//! The code action that moves a header and its section to a file of their
//! own and leaves a link behind.

use vstd::prelude::*;
use crate::document::references::{first_containing, lemma_first_containing, ReferenceKind, ReferenceKindView};
use crate::error::LspError;
use crate::lsp::helpers::{empty_range, extract_header_section, header_section};
use crate::lsp::server::{index_of, Server};
use crate::lsp_types::code_action::{
    CodeAction, CodeActionKind, CodeActionOrCommand, CodeActionParams,
};
use crate::lsp_types::workspace::{
    CreateFile, DocumentChangeOperation, DocumentChanges, OptionalVersionedTextDocumentIdentifier,
    ResourceOp, TextDocumentEdit, TextEdit, WorkspaceEdit,
};
use crate::lsp_types::{Position, Range, TextDocumentIdentifier};
use crate::path::{find_relative_path, parent_chars, parent_of, relative_link};
use crate::text::{decimal, decimal_chars, push_chars, push_str, string_from_chars};
use crate::uri::{file_path_chars, path_of, uri_chars_of_path, uri_of_path, URI};

verus! {

/// What the extraction of a section comes to: the file that is made, the
/// text that goes into it, and the range of the source document that gives
/// way to a link, with the text of the link.
#[derive(Debug, Clone, PartialEq, Eq)]
pub struct Extraction {
    pub new_uri: URI,
    pub section: String,
    pub range: Range,
    pub link: String,
}

/// An extraction with its texts as character sequences.
pub struct ExtractionView {
    pub new_uri: Seq<char>,
    pub section: Seq<char>,
    pub range: Range,
    pub link: Seq<char>,
}

impl View for Extraction {
    type V = ExtractionView;

    open spec fn view(&self) -> ExtractionView {
        ExtractionView {
            new_uri: self.new_uri@,
            section: self.section@,
            range: self.range,
            link: self.link@,
        }
    }
}

/// The path of the file that an extraction makes: in the directory
/// `parent`, under a name made of the last six digits of a number.
pub open spec fn new_file_path(parent: Seq<char>, stamp: u64) -> Seq<char> {
    parent + seq!['/'] + decimal((stamp % 1000000) as nat) + seq!['.', 'm', 'd']
}

/// The link that an extraction leaves behind: its text is the text of the
/// header, it leads to the new file, and two line breaks follow it.
pub open spec fn extraction_link(content: Seq<char>, path: Seq<char>) -> Seq<char> {
    seq!['['] + content + seq![']', '('] + path + seq![')', '\n', '\n']
}

/// By what the link that is left behind names the new file: the relative
/// path to it, or its URI where there is no relative path.
pub open spec fn link_path(source: Seq<char>, new_uri: Seq<char>) -> Seq<char> {
    match relative_link(source, new_uri) {
        Ok(rel) => rel,
        Err(_) => new_uri,
    }
}

/// The extraction that is offered at a position of a document. There is
/// one where a header stands at the position and its section can be cut
/// out of the text.
pub open spec fn planned_extraction(lsp: &Server, uri: Seq<char>, position: Position, stamp: u64)
    -> Result<Option<ExtractionView>, LspError> {
    match index_of(lsp.documents.docs(), uri) {
        Some(i) => {
            let doc = lsp.documents.docs()[i];
            match first_containing(doc.reference_list(), position, 0) {
                Some(k) => match doc.reference_list()[k].kind {
                    ReferenceKindView::Header { content, .. } => {
                        let section = header_section(content, doc.reference_list(), doc.text());
                        match uri_of_path(new_file_path(parent_of(path_of(doc.uri@)), stamp)) {
                            Some(new_uri) => match section.0 {
                                Some(text) => Ok(
                                    Some(
                                        ExtractionView {
                                            new_uri,
                                            section: text,
                                            range: section.1,
                                            link: extraction_link(
                                                content,
                                                link_path(doc.uri@, new_uri),
                                            ),
                                        },
                                    ),
                                ),
                                None => Ok(None),
                            },
                            None => Err(LspError::ResolutionFailed),
                        }
                    },
                    _ => Ok(None),
                },
                None => Ok(None),
            }
        },
        None => Err(LspError::DocumentNotFound),
    }
}

/// The extraction of a result.
pub open spec fn extraction_result(r: Result<Option<Extraction>, LspError>) -> Result<
    Option<ExtractionView>,
    LspError,
> {
    match r {
        Ok(Some(x)) => Ok(Some(x@)),
        Ok(None) => Ok(None),
        Err(e) => Err(e),
    }
}

/// Works out the extraction that is offered at a position of a document.
/// The number `stamp` gives the new file its name; a clock is a good
/// source of it.
pub fn plan_extraction(lsp: &Server, uri: &URI, position: Position, stamp: u64) -> (r: Result<
    Option<Extraction>,
    LspError,
>)
    ensures
        extraction_result(r) == planned_extraction(lsp, uri@, position, stamp),
{
    let document = match lsp.documents.get_document(uri) {
        Some(d) => d,
        None => {
            return Err(LspError::DocumentNotFound);
        },
    };
    let reference = match document.get_reference_at_position(position) {
        Some(r) => r,
        None => {
            return Ok(None);
        },
    };
    proof {
        let k = first_containing(document.reference_list(), position, 0)->0;
        lemma_first_containing(document.reference_list(), position, 0);
        assert(document.reference_list()[k] == document.references@[k]@);
    }
    let content = match &reference.kind {
        ReferenceKind::Header { content, .. } => content,
        _ => {
            return Ok(None);
        },
    };
    let (section, range) = extract_header_section(
        content.as_str(),
        &document.references,
        &document.content,
    );
    let uri_chars = document.uri.chars();
    let path = match file_path_chars(&uri_chars) {
        Some(p) => p,
        None => uri_chars,
    };
    let mut new_path = parent_chars(&path);
    new_path.push('/');
    let name = decimal_chars(stamp % 1000000);
    push_chars(&mut new_path, &name);
    new_path.push('.');
    new_path.push('m');
    new_path.push('d');
    proof {
        assert(new_path@ =~= new_file_path(parent_of(path_of(document.uri@)), stamp));
    }
    let new_uri = match uri_chars_of_path(&new_path) {
        Some(u) => URI::from_chars(&u),
        None => {
            return Err(LspError::ResolutionFailed);
        },
    };
    let text = match section {
        Some(t) => t,
        None => {
            return Ok(None);
        },
    };
    let relative = match find_relative_path(&document.uri, &new_uri) {
        Ok(rel) => rel,
        Err(_) => new_uri.0.clone(),
    };
    let mut link: Vec<char> = Vec::new();
    link.push('[');
    push_str(&mut link, content.as_str());
    link.push(']');
    link.push('(');
    push_str(&mut link, relative.as_str());
    link.push(')');
    link.push('\n');
    link.push('\n');
    proof {
        assert(link@ =~= extraction_link(content@, link_path(document.uri@, new_uri@)));
    }
    Ok(Some(Extraction { new_uri, section: text, range, link: string_from_chars(link.as_slice()) }))
}

/// The title under which the extraction is offered.
pub open spec fn extraction_title() -> Seq<char> {
    "Extract header & section"@
}

/// Whether an edit does what an extraction comes to, in three steps: it
/// makes the new file, puts the section at the beginning of the new file,
/// and puts the link in the place of the section in the source document.
pub open spec fn edit_carries_out(edit: WorkspaceEdit, source: Seq<char>, plan: ExtractionView)
    -> bool {
    &&& edit.changes is None
    &&& edit.change_annotations is None
    &&& edit.document_changes is Some
    &&& edit.document_changes->0 is Operations
    &&& {
        let steps = edit.document_changes->0->Operations_0@;
        &&& steps.len() == 3
        &&& steps[0] is Op
        &&& steps[0]->Op_0 is Create
        &&& steps[0]->Op_0->Create_0.uri@ == plan.new_uri
        &&& steps[0]->Op_0->Create_0.options is None
        &&& steps[0]->Op_0->Create_0.annotation_id is None
        &&& steps[1] is Edit
        &&& steps[1]->Edit_0.text_document.text_document.uri@ == plan.new_uri
        &&& steps[1]->Edit_0.text_document.version is None
        &&& steps[1]->Edit_0.edits@.len() == 1
        &&& steps[1]->Edit_0.edits@[0].range == empty_range()
        &&& steps[1]->Edit_0.edits@[0].new_text@ == plan.section
        &&& steps[2] is Edit
        &&& steps[2]->Edit_0.text_document.text_document.uri@ == source
        &&& steps[2]->Edit_0.text_document.version is None
        &&& steps[2]->Edit_0.edits@.len() == 1
        &&& steps[2]->Edit_0.edits@[0].range == plan.range
        &&& steps[2]->Edit_0.edits@[0].new_text@ == plan.link
    }
}

/// Whether an answer offers an extraction: a code action of the kind that
/// extracts, under the title of the extraction, with the edit that
/// carries the extraction out and no command.
pub open spec fn offers_extraction(
    answer: CodeActionOrCommand,
    source: Seq<char>,
    plan: ExtractionView,
) -> bool {
    &&& answer is CodeAction
    &&& answer->CodeAction_0.title@ == extraction_title()
    &&& answer->CodeAction_0.kind == Some(CodeActionKind::RefactorExtract)
    &&& answer->CodeAction_0.command is None
    &&& answer->CodeAction_0.edit is Some
    &&& edit_carries_out(answer->CodeAction_0.edit->0, source, plan)
}

/// Makes the code action that carries an extraction out.
pub fn extraction_action(source: &URI, plan: Extraction) -> (answer: CodeActionOrCommand)
    ensures
        offers_extraction(answer, source@, plan@),
{
    let create = DocumentChangeOperation::Op(
        ResourceOp::Create(
            CreateFile { uri: plan.new_uri.duplicate(), options: None, annotation_id: None },
        ),
    );
    let mut insert_edits: Vec<TextEdit> = Vec::new();
    insert_edits.push(
        TextEdit {
            range: Range {
                start: Position { line: 0, character: 0 },
                end: Position { line: 0, character: 0 },
            },
            new_text: plan.section,
        },
    );
    let insert = DocumentChangeOperation::Edit(
        TextDocumentEdit {
            text_document: OptionalVersionedTextDocumentIdentifier {
                text_document: TextDocumentIdentifier { uri: plan.new_uri },
                version: None,
            },
            edits: insert_edits,
        },
    );
    let mut replace_edits: Vec<TextEdit> = Vec::new();
    replace_edits.push(TextEdit { range: plan.range, new_text: plan.link });
    let replace = DocumentChangeOperation::Edit(
        TextDocumentEdit {
            text_document: OptionalVersionedTextDocumentIdentifier {
                text_document: TextDocumentIdentifier { uri: source.duplicate() },
                version: None,
            },
            edits: replace_edits,
        },
    );
    let mut steps: Vec<DocumentChangeOperation> = Vec::new();
    steps.push(create);
    steps.push(insert);
    steps.push(replace);
    let edit = WorkspaceEdit {
        changes: None,
        document_changes: Some(DocumentChanges::Operations(steps)),
        change_annotations: None,
    };
    CodeActionOrCommand::CodeAction(
        CodeAction {
            title: String::from_str("Extract header & section"),
            kind: Some(CodeActionKind::RefactorExtract),
            edit: Some(edit),
            command: None,
        },
    )
}

/// What a request for code actions is answered with. Actions are offered
/// for a cursor only, that is, for a range that begins where it ends: the
/// extraction that is offered at the cursor, if there is one.
pub open spec fn offered(lsp: &Server, uri: Seq<char>, range: Range, stamp: u64) -> Result<
    Option<ExtractionView>,
    LspError,
> {
    if range.start == range.end {
        planned_extraction(lsp, uri, range.start, stamp)
    } else {
        Ok(None)
    }
}

/// Answers a request for the code actions at a range of a document. The
/// number `stamp` gives a file that an action makes its name.
pub fn process_code_action(lsp: &Server, params: &CodeActionParams, stamp: u64) -> (r: Result<
    Option<Vec<CodeActionOrCommand>>,
    LspError,
>)
    ensures
        match offered(lsp, params.text_document.uri@, params.range, stamp) {
            Ok(Some(plan)) => r is Ok && r->Ok_0 is Some && r->Ok_0->0@.len() == 1
                && offers_extraction(r->Ok_0->0@[0], params.text_document.uri@, plan),
            Ok(None) => r is Ok && r->Ok_0 is Some && r->Ok_0->0@.len() == 0,
            Err(e) => r is Err && r->Err_0 == e,
        },
{
    let mut actions: Vec<CodeActionOrCommand> = Vec::new();
    if !params.range.is_empty() {
        return Ok(Some(actions));
    }
    handle_non_range(lsp, &params.text_document.uri, &params.range, stamp)
}

/// Answers a request for the code actions at a cursor.
pub fn handle_non_range(lsp: &Server, uri: &URI, range: &Range, stamp: u64) -> (r: Result<
    Option<Vec<CodeActionOrCommand>>,
    LspError,
>)
    ensures
        match planned_extraction(lsp, uri@, range.start, stamp) {
            Ok(Some(plan)) => r is Ok && r->Ok_0 is Some && r->Ok_0->0@.len() == 1
                && offers_extraction(r->Ok_0->0@[0], uri@, plan),
            Ok(None) => r is Ok && r->Ok_0 is Some && r->Ok_0->0@.len() == 0,
            Err(e) => r is Err && r->Err_0 == e,
        },
{
    let mut actions: Vec<CodeActionOrCommand> = Vec::new();
    match plan_extraction(lsp, uri, range.start, stamp) {
        Ok(Some(plan)) => {
            actions.push(extraction_action(uri, plan));
            Ok(Some(actions))
        },
        Ok(None) => Ok(Some(actions)),
        Err(e) => Err(e),
    }
}

} // verus!
