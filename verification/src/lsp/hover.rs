//! Showing, on a link, what the link leads to.

use vstd::prelude::*;
use crate::document::references::{first_containing, lemma_first_containing};
use crate::error::LspError;
use crate::lsp::helpers::{get_content, linked_content};
use crate::lsp::server::{index_of, Server};
use crate::lsp_types::{
    Hover, HoverView, MarkupContent, MarkupKind, Position, TextDocumentPositionParams,
};

verus! {

/// What resting on a position of a document shows. On a link, the text
/// that the link leads to, as Markdown, for the range of the link. On a
/// header, or where no reference stands, nothing.
pub open spec fn hover_at(lsp: &Server, uri: Seq<char>, position: Position) -> Result<
    Option<HoverView>,
    LspError,
> {
    match index_of(lsp.documents.docs(), uri) {
        Some(i) => {
            let doc = lsp.documents.docs()[i];
            match first_containing(doc.reference_list(), position, 0) {
                Some(k) => {
                    let r = doc.reference_list()[k];
                    if r.kind.is_link() {
                        match linked_content(
                            lsp,
                            doc.uri@,
                            r.kind.target()->0,
                            r.kind.link_header(),
                        ) {
                            Ok(value) => Ok(
                                Some(
                                    HoverView {
                                        kind: MarkupKind::Markdown,
                                        value,
                                        range: Some(r.range),
                                    },
                                ),
                            ),
                            Err(e) => Err(e),
                        }
                    } else {
                        Ok(None)
                    }
                },
                None => Ok(None),
            }
        },
        None => Err(LspError::DocumentNotFound),
    }
}

/// The hover of a result.
pub open spec fn hover_result(r: Result<Option<Hover>, LspError>) -> Result<
    Option<HoverView>,
    LspError,
> {
    match r {
        Ok(Some(h)) => Ok(Some(h@)),
        Ok(None) => Ok(None),
        Err(e) => Err(e),
    }
}

/// Answers a request for what to show at a position.
pub fn process_hover(lsp: &Server, params: &TextDocumentPositionParams) -> (r: Result<
    Option<Hover>,
    LspError,
>)
    ensures
        hover_result(r) == hover_at(lsp, params.text_document.uri@, params.position),
{
    let document = match lsp.documents.get_document(&params.text_document.uri) {
        Some(d) => d,
        None => {
            return Err(LspError::DocumentNotFound);
        },
    };
    let reference = match document.get_reference_at_position(params.position) {
        Some(r) => r,
        None => {
            return Ok(None);
        },
    };
    proof {
        let k = first_containing(document.reference_list(), params.position, 0)->0;
        lemma_first_containing(document.reference_list(), params.position, 0);
        assert(document.reference_list()[k] == document.references@[k]@);
    }
    let target = match reference.kind.get_target() {
        Some(t) => t,
        None => {
            return Ok(None);
        },
    };
    let header = reference.kind.get_link_header();
    match get_content(lsp, document, target, header) {
        Ok(value) => Ok(
            Some(
                Hover {
                    contents: MarkupContent { kind: MarkupKind::Markdown, value },
                    range: Some(reference.range),
                },
            ),
        ),
        Err(e) => Err(e),
    }
}

} // verus!
