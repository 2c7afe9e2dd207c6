//! Edits to the workspace: changes to the text of documents, and the
//! creating, renaming and deleting of files.

use vstd::prelude::*;
use crate::lsp_types::{DocumentUri, Range, TextDocumentIdentifier};

verus! {

/// A replacement of the text in a range.
#[derive(Debug, Clone, PartialEq, Eq)]
pub struct TextEdit {
    pub range: Range,
    pub new_text: String,
}

impl TextEdit {
    pub fn new(range: Range, new_text: String) -> (edit: Self)
        ensures
            edit.range == range,
            edit.new_text == new_text,
    {
        TextEdit { range, new_text }
    }
}

/// What is said of a change before the user agrees to it.
#[derive(Debug, Clone, PartialEq, Eq)]
pub struct ChangeAnnotation {
    pub label: String,
    pub needs_confirmation: Option<bool>,
    pub description: Option<String>,
}

/// A document, at a version or at whatever version it has.
#[derive(Debug, Clone)]
pub struct OptionalVersionedTextDocumentIdentifier {
    pub text_document: TextDocumentIdentifier,
    pub version: Option<usize>,
}

impl OptionalVersionedTextDocumentIdentifier {
    pub fn new(uri: DocumentUri, version: Option<usize>) -> (id: Self)
        ensures
            id.text_document.uri == uri,
            id.version == version,
    {
        OptionalVersionedTextDocumentIdentifier {
            text_document: TextDocumentIdentifier { uri },
            version,
        }
    }
}

/// Edits to one document.
#[derive(Debug, Clone)]
pub struct TextDocumentEdit {
    pub text_document: OptionalVersionedTextDocumentIdentifier,
    pub edits: Vec<TextEdit>,
}

/// How a file is created where one exists already.
#[derive(Debug, Clone, Copy, PartialEq, Eq, Structural)]
pub struct CreateFileOptions {
    pub overwrite: Option<bool>,
    pub ignore_if_exists: Option<bool>,
}

/// The creating of a file.
#[derive(Debug, Clone)]
pub struct CreateFile {
    pub uri: DocumentUri,
    pub options: Option<CreateFileOptions>,
    pub annotation_id: Option<ChangeAnnotationIdentifier>,
}

/// How a file is renamed where the new name is taken already.
#[derive(Debug, Clone, Copy, PartialEq, Eq, Structural)]
pub struct RenameFileOptions {
    pub overwrite: Option<bool>,
    pub ignore_if_exists: Option<bool>,
}

/// The renaming of a file.
#[derive(Debug, Clone)]
pub struct RenameFile {
    pub old_uri: DocumentUri,
    pub new_uri: DocumentUri,
    pub options: Option<RenameFileOptions>,
    pub annotation_id: Option<ChangeAnnotationIdentifier>,
}

/// How a file is deleted.
#[derive(Debug, Clone)]
pub struct DeleteFileOptions {
    pub recursive: Option<bool>,
    pub ignore_if_not_exists: Option<bool>,
    pub annotation_id: Option<ChangeAnnotationIdentifier>,
}

/// The deleting of a file.
#[derive(Debug, Clone)]
pub struct DeleteFile {
    pub uri: DocumentUri,
    pub options: Option<DeleteFileOptions>,
}

/// An operation on a file.
#[derive(Debug, Clone)]
pub enum ResourceOp {
    Create(CreateFile),
    Rename(RenameFile),
    Delete(DeleteFile),
}

/// One step of an edit to the workspace.
#[derive(Debug, Clone)]
pub enum DocumentChangeOperation {
    Op(ResourceOp),
    Edit(TextDocumentEdit),
}

impl DocumentChangeOperation {
    /// The step that a file operation is.
    pub fn from_op(op: ResourceOp) -> (step: Self)
        ensures
            step == DocumentChangeOperation::Op(op),
    {
        DocumentChangeOperation::Op(op)
    }

    /// The step that the edits to a document are.
    pub fn from_edit(edit: TextDocumentEdit) -> (step: Self)
        ensures
            step == DocumentChangeOperation::Edit(edit),
    {
        DocumentChangeOperation::Edit(edit)
    }
}

/// The name of a change annotation.
pub type ChangeAnnotationIdentifier = String;

/// The steps of an edit to the workspace, in order.
#[derive(Debug, Clone)]
pub enum DocumentChanges {
    Edits(Vec<TextDocumentEdit>),
    Operations(Vec<DocumentChangeOperation>),
}

/// The steps of an edit to the workspace, under their other name.
pub type DocumentEdits = DocumentChanges;

/// An edit to the workspace.
#[derive(Debug, Clone)]
pub struct WorkspaceEdit {
    pub changes: Option<Vec<(DocumentUri, Vec<TextEdit>)>>,
    pub document_changes: Option<DocumentChanges>,
    pub change_annotations: Option<Vec<(ChangeAnnotationIdentifier, Vec<ChangeAnnotation>)>>,
}

} // verus!
