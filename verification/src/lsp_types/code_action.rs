//! Code actions: what the editor offers to do at a place.

use vstd::prelude::*;
use crate::lsp_types::workspace::WorkspaceEdit;
use crate::lsp_types::{Command, Diagnostic, Range, TextDocumentIdentifier};

verus! {

/// What is known at the place for which code actions are asked.
#[derive(Debug, Clone)]
pub struct CodeActionContext {
    pub diagnostics: Vec<Diagnostic>,
}

/// A request for the code actions at a range of a document.
#[derive(Debug, Clone)]
pub struct CodeActionParams {
    pub text_document: TextDocumentIdentifier,
    pub range: Range,
    pub context: CodeActionContext,
}

/// The kinds of code action.
#[derive(Debug, Clone, Copy, PartialEq, Eq, Structural)]
pub enum CodeActionKind {
    Refactor,
    RefactorExtract,
}

/// The name of a kind on the wire.
pub open spec fn kind_name(kind: CodeActionKind) -> Seq<char> {
    match kind {
        CodeActionKind::Refactor => "refactor"@,
        CodeActionKind::RefactorExtract => "refactor.extract"@,
    }
}

impl CodeActionKind {
    /// The name of the kind on the wire.
    pub fn as_str(&self) -> (name: &'static str)
        ensures
            name@ == kind_name(*self),
    {
        match self {
            CodeActionKind::Refactor => "refactor",
            CodeActionKind::RefactorExtract => "refactor.extract",
        }
    }
}

/// Something that the editor can do at a place: an edit, a command, or
/// both.
#[derive(Debug, Clone)]
pub struct CodeAction {
    pub title: String,
    pub kind: Option<CodeActionKind>,
    pub edit: Option<WorkspaceEdit>,
    pub command: Option<Command>,
}

/// An answer to a request for code actions: a command or a code action.
#[derive(Debug, Clone)]
pub enum CodeActionOrCommand {
    Command(Command),
    CodeAction(CodeAction),
}

impl CodeActionOrCommand {
    /// A command, as an answer to a request for code actions.
    pub fn from_command(value: Command) -> (r: Self)
        ensures
            r == CodeActionOrCommand::Command(value),
    {
        CodeActionOrCommand::Command(value)
    }

    /// A code action, as an answer to a request for code actions.
    pub fn from_code_action(value: CodeAction) -> (r: Self)
        ensures
            r == CodeActionOrCommand::CodeAction(value),
    {
        CodeActionOrCommand::CodeAction(value)
    }
}

/// What a request for code actions is answered with.
pub type CodeActionResponse = Option<Vec<CodeActionOrCommand>>;

} // verus!
