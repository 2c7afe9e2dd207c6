//! What happens when the editor changes a document.

use vstd::prelude::*;
use crate::error::LspError;
use crate::lsp::server::{index_of, Server};
use crate::lsp_types::{TextDocumentContentChangeEvent, VersionedTextDocumentIdentifier};

verus! {

/// What the editor says when it changes a document.
#[derive(Debug, Clone)]
pub struct DidChangeTextDocumentParams {
    pub text_document: VersionedTextDocumentIdentifier,
    pub content_changes: Vec<TextDocumentContentChangeEvent>,
}

/// Whether one of the changes replaces a range only.
pub open spec fn has_incremental(changes: Seq<TextDocumentContentChangeEvent>) -> bool {
    exists|i: int| 0 <= i < changes.len() && #[trigger] changes[i] is Incremental
}

/// The text that a list of changes of the whole text leaves: the text of
/// the last.
pub open spec fn final_text(changes: Seq<TextDocumentContentChangeEvent>) -> Seq<char> {
    changes.last()->Full_0.text@
}

/// Takes note of changes that the editor has made to a document.
///
/// Only changes of the whole text are supported: if one of the changes
/// replaces a range, nothing happens and the answer says so. Otherwise
/// the document gets the text of the last change, at the version that the
/// editor gave, provided that this version is later than the document's;
/// changes that come out of order are stale and leave the document as it
/// is. Changes to a document that is not open do nothing.
pub fn process_did_change(lsp: &mut Server, params: &DidChangeTextDocumentParams) -> (r: Result<
    (),
    LspError,
>)
    ensures
        final(lsp).config == old(lsp).config,
        final(lsp).root == old(lsp).root,
        final(lsp).client_capabilities == old(lsp).client_capabilities,
        final(lsp).documents.docs().len() == old(lsp).documents.docs().len(),
        has_incremental(params.content_changes@) ==> r == Err::<(), LspError>(
            LspError::Unsupported,
        ) && final(lsp).documents.docs() == old(lsp).documents.docs(),
        !has_incremental(params.content_changes@) && params.content_changes@.len() == 0 ==> r is Ok
            && final(lsp).documents.docs() == old(lsp).documents.docs(),
        !has_incremental(params.content_changes@) && params.content_changes@.len() > 0
            ==> match index_of(
            old(lsp).documents.docs(),
            params.text_document.text_document_identifier.uri@,
        ) {
            Some(i) => {
                &&& forall|j: int|
                    0 <= j < old(lsp).documents.docs().len() && j != i ==> final(lsp).documents.docs()[j] == old(lsp).documents.docs()[j]
                &&& if params.text_document.version > old(lsp).documents.docs()[i].version {
                    &&& r is Ok
                    &&& final(lsp).documents.docs()[i].text() == final_text(
                        params.content_changes@,
                    )
                    &&& final(lsp).documents.docs()[i].version == params.text_document.version
                } else {
                    &&& r == Err::<(), LspError>(LspError::StaleVersion)
                    &&& final(lsp).documents.docs()[i] == old(lsp).documents.docs()[i]
                }
            },
            None => r is Ok && final(lsp).documents.docs() == old(lsp).documents.docs(),
        },
{
    let changes = &params.content_changes;
    let mut i: usize = 0;
    while i < changes.len()
        invariant
            i <= changes.len(),
            changes == &params.content_changes,
            *lsp == *old(lsp),
            forall|j: int| 0 <= j < i ==> #[trigger] changes@[j] is Full,
        decreases changes.len() - i,
    {
        match &changes[i] {
            TextDocumentContentChangeEvent::Full(_) => {},
            TextDocumentContentChangeEvent::Incremental(_) => {
                proof {
                    assert(changes@[i as int] is Incremental);
                }
                return Err(LspError::Unsupported);
            },
        }
        i += 1;
    }
    if changes.len() == 0 {
        return Ok(());
    }
    match &changes[changes.len() - 1] {
        TextDocumentContentChangeEvent::Full(change) => lsp.documents.change_document(
            &params.text_document.text_document_identifier.uri,
            change.text.as_str(),
            params.text_document.version,
        ),
        TextDocumentContentChangeEvent::Incremental(_) => Err(LspError::Unsupported),
    }
}

} // verus!
