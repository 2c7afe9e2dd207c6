//! Going from a link to the header that it names.

use vstd::prelude::*;
use crate::document::references::{
    first_containing, lemma_first_containing, reference_views, Reference, ReferenceKind,
    ReferenceView,
};
use crate::text::{opt_str_text};
use crate::document::Document;
use crate::error::LspError;
use crate::lsp::helpers::{
    find_header, first_header_for, fragment_names, is_header_for, lemma_first_header_for,
    resolve_target_uri, resolved_target, strip_hash, strip_hash_prefix,
};
use crate::lsp::server::{index_of, lemma_index_of_unique, store_wf, Server};
use crate::lsp_types::{Location, LocationView, Position, TextDocumentPositionParams};

verus! {

/// The index of the first header, at or after `from`.
pub open spec fn first_header(refs: Seq<ReferenceView>, from: int) -> Option<int>
    decreases refs.len() - from,
{
    if from < 0 || from >= refs.len() {
        None
    } else if refs[from].kind is Header {
        Some(from)
    } else {
        first_header(refs, from + 1)
    }
}

/// The index of the header that a link leads to: the first header that its
/// fragment names, and the first header of all where the link has no
/// fragment.
pub open spec fn definition_index(refs: Seq<ReferenceView>, fragment: Option<Seq<char>>) -> Option<
    int,
> {
    match fragment {
        Some(f) => first_header_for(refs, strip_hash(f), 0),
        None => first_header(refs, 0),
    }
}

/// Where a link with the given target and fragment leads, when it stands
/// in the document `source`: to the header it names in the document it
/// names. It leads nowhere where the target names no document, where the
/// store does not hold the document, or where the document has no such
/// header.
pub open spec fn definition_of(
    lsp: &Server,
    source: Seq<char>,
    target: Seq<char>,
    fragment: Option<Seq<char>>,
) -> Result<LocationView, LspError> {
    match resolved_target(lsp, source, target) {
        Ok(uri) => match index_of(lsp.documents.docs(), uri) {
            Some(i) => {
                let doc = lsp.documents.docs()[i];
                match definition_index(doc.reference_list(), fragment) {
                    Some(k) => Ok(
                        LocationView { uri: doc.uri@, range: doc.reference_list()[k].range },
                    ),
                    None => Err(LspError::DefinitionNotFound),
                }
            },
            None => Err(LspError::DocumentNotFound),
        },
        Err(e) => Err(e),
    }
}

/// What going to the definition at a position of a document gives. On a
/// link, the place that the link leads to. On a header, or where no
/// reference stands, nothing.
pub open spec fn goto_definition(lsp: &Server, uri: Seq<char>, position: Position) -> Result<
    Option<LocationView>,
    LspError,
> {
    match index_of(lsp.documents.docs(), uri) {
        Some(i) => {
            let doc = lsp.documents.docs()[i];
            match first_containing(doc.reference_list(), position, 0) {
                Some(k) => {
                    let kind = doc.reference_list()[k].kind;
                    if kind.is_link() {
                        match definition_of(lsp, doc.uri@, kind.target()->0, kind.link_header()) {
                            Ok(location) => Ok(Some(location)),
                            Err(e) => Err(e),
                        }
                    } else {
                        Ok(None)
                    }
                },
                None => Ok(None),
            }
        },
        None => Err(LspError::DocumentNotFound),
    }
}

/// The location of a result.
pub open spec fn location_result(r: Result<Location, LspError>) -> Result<LocationView, LspError> {
    match r {
        Ok(l) => Ok(l@),
        Err(e) => Err(e),
    }
}

/// The location of a result that may hold none.
pub open spec fn opt_location_result(r: Result<Option<Location>, LspError>) -> Result<
    Option<LocationView>,
    LspError,
> {
    match r {
        Ok(Some(l)) => Ok(Some(l@)),
        Ok(None) => Ok(None),
        Err(e) => Err(e),
    }
}

fn find_first_header(refs: &Vec<Reference>) -> (r: Option<usize>)
    ensures
        match r {
            Some(i) => first_header(reference_views(refs@), 0) == Some(i as int) && i < refs.len(),
            None => first_header(reference_views(refs@), 0) is None,
        },
{
    let ghost views = reference_views(refs@);
    let mut i: usize = 0;
    while i < refs.len()
        invariant
            views == reference_views(refs@),
            first_header(views, 0) == first_header(views, i as int),
        decreases refs.len() - i,
    {
        proof {
            assert(views[i as int] == refs@[i as int]@);
        }
        match &refs[i].kind {
            ReferenceKind::Header { .. } => {
                return Some(i);
            },
            _ => {},
        }
        i += 1;
    }
    None
}

/// Finds where a link with the given target and fragment leads.
pub fn find_definition(lsp: &Server, document: &Document, target: &str, header: Option<&str>) -> (r:
    Result<Location, LspError>)
    ensures
        location_result(r) == definition_of(lsp, document.uri@, target@, opt_str_text(header)),
{
    let file_path = match resolve_target_uri(lsp, document, target) {
        Ok(uri) => uri,
        Err(e) => {
            return Err(e);
        },
    };
    let linked = match lsp.documents.get_document(&file_path) {
        Some(d) => d,
        None => {
            return Err(LspError::DocumentNotFound);
        },
    };
    let found = match header {
        Some(h) => {
            let wanted = strip_hash_prefix(h);
            find_header(&linked.references, wanted.as_str(), 0)
        },
        None => find_first_header(&linked.references),
    };
    match found {
        Some(k) => {
            proof {
                assert(linked.reference_list()[k as int] == linked.references@[k as int]@);
            }
            Ok(Location { uri: linked.uri.duplicate(), range: linked.references[k].range })
        },
        None => Err(LspError::DefinitionNotFound),
    }
}

/// Answers a request to go to the definition of what stands at a position.
pub fn process_goto_definition(lsp: &Server, params: &TextDocumentPositionParams) -> (r: Result<
    Option<Location>,
    LspError,
>)
    ensures
        opt_location_result(r) == goto_definition(
            lsp,
            params.text_document.uri@,
            params.position,
        ),
{
    let document = match lsp.documents.get_document(&params.text_document.uri) {
        Some(d) => d,
        None => {
            return Err(LspError::DocumentNotFound);
        },
    };
    let reference = match document.get_reference_at_position(params.position) {
        Some(r) => r,
        None => {
            return Ok(None);
        },
    };
    proof {
        let k = first_containing(document.reference_list(), params.position, 0)->0;
        lemma_first_containing(document.reference_list(), params.position, 0);
        assert(document.reference_list()[k] == document.references@[k]@);
    }
    if !reference.kind.is_link() {
        return Ok(None);
    }
    let target = match reference.kind.get_target() {
        Some(t) => t,
        None => {
            return Ok(None);
        },
    };
    let header = reference.kind.get_link_header();
    match find_definition(lsp, document, target, header) {
        Ok(location) => Ok(Some(location)),
        Err(e) => Err(e),
    }
}

/// Going to the definition is a left inverse of writing a link. Let a
/// link stand at a position of a document of the store, let its target
/// name a document of the store, and let its fragment name a header of
/// that document and no header before it. Then going to the definition at
/// that position gives that document and the range of that header.
pub proof fn lemma_goto_definition_finds_header(
    lsp: &Server,
    a: int,
    k: int,
    b: int,
    h: int,
    position: Position,
)
    requires
        store_wf(lsp.documents.docs()),
        0 <= a < lsp.documents.docs().len(),
        0 <= b < lsp.documents.docs().len(),
        first_containing(lsp.documents.docs()[a].reference_list(), position, 0) == Some(k),
        lsp.documents.docs()[a].reference_list()[k].kind.is_link(),
        lsp.documents.docs()[a].reference_list()[k].kind.link_header() is Some,
        resolved_target(
            lsp,
            lsp.documents.docs()[a].uri@,
            lsp.documents.docs()[a].reference_list()[k].kind.target()->0,
        ) == Ok::<Seq<char>, LspError>(lsp.documents.docs()[b].uri@),
        0 <= h < lsp.documents.docs()[b].reference_list().len(),
        lsp.documents.docs()[b].reference_list()[h].kind is Header,
        fragment_names(
            lsp.documents.docs()[b].reference_list()[h].kind->Header_content,
            lsp.documents.docs()[a].reference_list()[k].kind.link_header()->0,
        ),
        forall|j: int|
            0 <= j < h ==> !is_header_for(
                #[trigger] lsp.documents.docs()[b].reference_list()[j],
                strip_hash(lsp.documents.docs()[a].reference_list()[k].kind.link_header()->0),
            ),
    ensures
        goto_definition(lsp, lsp.documents.docs()[a].uri@, position) == Ok::<
            Option<LocationView>,
            LspError,
        >(
            Some(
                LocationView {
                    uri: lsp.documents.docs()[b].uri@,
                    range: lsp.documents.docs()[b].reference_list()[h].range,
                },
            ),
        ),
{
    let docs = lsp.documents.docs();
    lemma_store_index(docs, a);
    lemma_store_index(docs, b);
    let refs_b = docs[b].reference_list();
    let wanted = strip_hash(docs[a].reference_list()[k].kind.link_header()->0);
    lemma_first_header_for(refs_b, wanted, 0);
}

/// In a store, a document stands under its own URI.
pub proof fn lemma_store_index(docs: Seq<Document>, i: int)
    requires
        store_wf(docs),
        0 <= i < docs.len(),
    ensures
        index_of(docs, docs[i].uri@) == Some(i),
{
    lemma_index_of_unique(docs, docs[i].uri@, i);
}

} // verus!
