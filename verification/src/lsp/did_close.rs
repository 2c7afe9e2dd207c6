//! What happens when the editor closes a document.

use vstd::prelude::*;
use crate::lsp::server::{index_of, state_of, DocumentState, Server};
use crate::lsp_types::TextDocumentIdentifier;

verus! {

/// What the editor says when it closes a document.
#[derive(Debug, Clone)]
pub struct DidCloseTextDocumentParams {
    pub text_document: TextDocumentIdentifier,
}

/// Takes note of a document that the editor has closed. From then on the
/// store does not hold it; the other documents stay as they are, in their
/// order.
pub fn process_did_close(lsp: &mut Server, params: &DidCloseTextDocumentParams)
    ensures
        final(lsp).config == old(lsp).config,
        final(lsp).root == old(lsp).root,
        final(lsp).client_capabilities == old(lsp).client_capabilities,
        state_of(final(lsp).documents.docs(), params.text_document.uri@) == DocumentState::Absent,
        match index_of(old(lsp).documents.docs(), params.text_document.uri@) {
            Some(i) => final(lsp).documents.docs() == old(lsp).documents.docs().remove(i),
            None => final(lsp).documents.docs() == old(lsp).documents.docs(),
        },
{
    lsp.documents.remove_document(&params.text_document.uri);
}

} // verus!
