//! What the server tells the editor that it can do.

use vstd::prelude::*;
use crate::lsp_types::code_action::CodeActionKind;

verus! {

/// How the editor is to keep the server up to date with a document.
#[derive(Debug, Clone, Copy, PartialEq, Eq, Structural)]
pub enum TextDocumentSyncKind {
    /// Not at all.
    Nothing,
    /// By sending the whole text after every change.
    Full,
    /// By sending what has changed.
    Incremental,
}

/// What the server can do.
#[derive(Debug, Clone, Copy, PartialEq, Eq, Structural)]
pub struct ServerCapabilities {
    pub text_document_sync: TextDocumentSyncKind,
    pub hover_provider: bool,
    pub definition_provider: bool,
    pub references_provider: bool,
    /// Whether completions can be filled in after they were offered.
    pub completion_resolve_provider: bool,
    /// The kind of code action that is offered.
    pub code_action_kind: CodeActionKind,
    /// Whether the diagnostics of a document depend on other documents.
    pub inter_file_dependencies: bool,
    pub workspace_diagnostics: bool,
    pub workspace_folders: bool,
}

/// What the server can do: it wants the whole text after every change, and
/// it offers hovers, definitions, references, completions that can be
/// filled in, the code action that extracts, and diagnostics that depend
/// on other files and span the workspace.
pub open spec fn advertised() -> ServerCapabilities {
    ServerCapabilities {
        text_document_sync: TextDocumentSyncKind::Full,
        hover_provider: true,
        definition_provider: true,
        references_provider: true,
        completion_resolve_provider: true,
        code_action_kind: CodeActionKind::RefactorExtract,
        inter_file_dependencies: true,
        workspace_diagnostics: true,
        workspace_folders: true,
    }
}

/// The characters after which the editor is to ask for completions.
pub open spec fn trigger_characters() -> Seq<char> {
    seq!['#', '[', ':', '(']
}

/// The characters after which the editor is to ask for completions.
pub fn completion_triggers() -> (v: Vec<char>)
    ensures
        v@ == trigger_characters(),
{
    let mut v: Vec<char> = Vec::new();
    v.push('#');
    v.push('[');
    v.push(':');
    v.push('(');
    proof {
        assert(v@ =~= trigger_characters());
    }
    v
}

/// Who the server is.
#[derive(Debug, Clone, PartialEq, Eq)]
pub struct ServerInfo {
    pub name: String,
    pub version: Option<String>,
}

/// The answer to the editor's first request.
#[derive(Debug, Clone, PartialEq, Eq)]
pub struct InitializeResult {
    pub capabilities: ServerCapabilities,
    pub completion_trigger_characters: Vec<char>,
    pub server_info: Option<ServerInfo>,
}

/// Answers the editor's first request: tells what the server can do, after
/// which characters completions are to be asked for, and who the server
/// is.
pub fn process_initialize() -> (r: InitializeResult)
    ensures
        r.capabilities == advertised(),
        r.completion_trigger_characters@ == trigger_characters(),
        r.server_info is Some,
        r.server_info->0.name@ == "rust-markdown-lsp"@,
        r.server_info->0.version is Some,
        r.server_info->0.version->0@ == "0.1.0"@,
{
    InitializeResult {
        capabilities: ServerCapabilities {
            text_document_sync: TextDocumentSyncKind::Full,
            hover_provider: true,
            definition_provider: true,
            references_provider: true,
            completion_resolve_provider: true,
            code_action_kind: CodeActionKind::RefactorExtract,
            inter_file_dependencies: true,
            workspace_diagnostics: true,
            workspace_folders: true,
        },
        completion_trigger_characters: completion_triggers(),
        server_info: Some(
            ServerInfo {
                name: String::from_str("rust-markdown-lsp"),
                version: Some(String::from_str("0.1.0")),
            },
        ),
    }
}

} // verus!
