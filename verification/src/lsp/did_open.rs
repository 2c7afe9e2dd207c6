//! What happens when the editor opens a document.

use vstd::prelude::*;
use crate::error::LspError;
use crate::lsp::server::{index_of, state_of, DocumentState, Server};
use crate::lsp_types::TextDocumentItem;

verus! {

/// What the editor says when it opens a document.
#[derive(Debug, Clone)]
pub struct DidOpenTextDocumentParams {
    pub text_document: TextDocumentItem,
}

/// Takes note of a document that the editor has opened. From then on the
/// document is open at the version that the editor gave, with the text
/// that the editor gave, whether or not it was known before; nothing else
/// changes.
pub fn process_did_open(lsp: &mut Server, params: DidOpenTextDocumentParams) -> (r: Result<
    (),
    LspError,
>)
    ensures
        r is Ok,
        final(lsp).config == old(lsp).config,
        final(lsp).root == old(lsp).root,
        final(lsp).client_capabilities == old(lsp).client_capabilities,
        state_of(final(lsp).documents.docs(), params.text_document.uri@) == DocumentState::Open(
            params.text_document.version,
        ),
        final(lsp).documents.docs()[index_of(
            final(lsp).documents.docs(),
            params.text_document.uri@,
        )->0].text() == params.text_document.text@,
        forall|j: int|
            0 <= j < old(lsp).documents.docs().len() && Some(j) != index_of(
                old(lsp).documents.docs(),
                params.text_document.uri@,
            ) ==> final(lsp).documents.docs()[j] == old(lsp).documents.docs()[j],
{
    let item = params.text_document;
    lsp.documents.open_document(item.uri, item.version, item.text.as_str())
}

} // verus!
