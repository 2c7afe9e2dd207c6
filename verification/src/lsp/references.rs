//! Finding the references to what stands at a position: the links that
//! lead to a header, the links that lead where a link leads, or the links
//! that lead to a document.

use vstd::prelude::*;
use crate::document::references::{
    first_containing, lemma_first_containing, Reference, ReferenceKind, ReferenceKindView,
    ReferenceView,
};
use crate::text::{opt_str_text};
use crate::document::Document;
use crate::error::LspError;
use crate::lsp::goto_definition::lemma_store_index;
use crate::lsp::helpers::{
    fragment_names, normalize_header_chars, normalized_header, resolve_target_uri, resolved_target,
    strip_hash,
};
use crate::lsp::server::{index_of, store_wf, Server};
use crate::lsp_types::{
    location_views, Location, LocationView, Position, Range, ReferenceParams,
};
use crate::path::uri_result;
use crate::text::{chars_eq, str_eq};
use crate::uri::URI;

verus! {

/// Whether two header texts have the same normal form.
pub open spec fn same_normal_form(a: Seq<char>, b: Seq<char>) -> bool {
    normalized_header(a) == normalized_header(b)
}

/// Whether two header texts have the same normal form.
pub fn normalized_headers_match(content1: &str, content2: &str) -> (r: bool)
    ensures
        r == same_normal_form(content1@, content2@),
{
    let a = normalize_header_chars(content1);
    let b = normalize_header_chars(content2);
    chars_eq(&a, &b)
}

/// Whether two links agree in their fragments: both have none, or both
/// have the same.
pub open spec fn compatible(h1: Option<Seq<char>>, h2: Option<Seq<char>>) -> bool {
    match (h1, h2) {
        (Some(a), Some(b)) => a == b,
        (None, None) => true,
        _ => false,
    }
}

/// Headers are compatible if they are both None or both Some and equal
pub fn headers_are_compatible(h1: Option<&str>, h2: Option<&str>) -> (r: bool)
    ensures
        r == compatible(opt_str_text(h1), opt_str_text(h2)),
{
    match (h1, h2) {
        (Some(header1), Some(header2)) => str_eq(header1, header2),
        (None, None) => true,
        _ => false,
    }
}

/// What references are looked for.
pub enum Query {
    /// The links that lead to the header with the given text in the
    /// document `uri`; the header itself, which covers `range`, is left
    /// out.
    Header { uri: Seq<char>, range: Range, content: Seq<char> },
    /// The links that lead where the link that covers `range` in the
    /// document `uri` leads, with the same fragment, and the header that
    /// it leads to; the link itself is left out.
    Link {
        uri: Seq<char>,
        range: Range,
        resolved: Result<Seq<char>, LspError>,
        header: Option<Seq<char>>,
    },
    /// The links that lead to the document `uri`.
    File { uri: Seq<char> },
}

/// Whether the target of a reference, read in the document it stands in,
/// names the document `wanted`.
pub open spec fn leads_to(lsp: &Server, doc: Seq<char>, r: ReferenceView, wanted: Seq<char>)
    -> bool {
    match r.kind.target() {
        Some(t) => resolved_target(lsp, doc, t) == Ok::<Seq<char>, LspError>(wanted),
        None => false,
    }
}

/// Whether the reference `r` of the document `doc` is one of those looked
/// for.
pub open spec fn accepts(lsp: &Server, query: Query, doc: Seq<char>, r: ReferenceView) -> bool {
    match query {
        Query::Header { uri, range, content } => {
            &&& !(doc == uri && r.range == range)
            &&& leads_to(lsp, doc, r, uri)
            &&& match r.kind.link_header() {
                Some(f) => same_normal_form(content, f),
                None => false,
            }
        },
        Query::Link { uri, range, resolved, header } => {
            &&& !(doc == uri && r.range == range)
            &&& match resolved {
                Ok(wanted) => match r.kind {
                    ReferenceKindView::Header { content, .. } => doc == wanted && match header {
                        Some(f) => same_normal_form(content, f),
                        None => false,
                    },
                    _ => leads_to(lsp, doc, r, wanted) && compatible(header, r.kind.link_header()),
                },
                Err(_) => false,
            }
        },
        Query::File { uri } => leads_to(lsp, doc, r, uri),
    }
}

/// The places of those of the references `refs` of the document `doc` that
/// are looked for, in order.
pub open spec fn matches_in(lsp: &Server, query: Query, doc: Seq<char>, refs: Seq<ReferenceView>)
    -> Seq<LocationView>
    decreases refs.len(),
{
    if refs.len() == 0 {
        seq![]
    } else if accepts(lsp, query, doc, refs.last()) {
        matches_in(lsp, query, doc, refs.drop_last()).push(
            LocationView { uri: doc, range: refs.last().range },
        )
    } else {
        matches_in(lsp, query, doc, refs.drop_last())
    }
}

/// The places of the references looked for in the documents `docs`,
/// document by document.
pub open spec fn matches_across(lsp: &Server, query: Query, docs: Seq<Document>) -> Seq<
    LocationView,
>
    decreases docs.len(),
{
    if docs.len() == 0 {
        seq![]
    } else {
        matches_across(lsp, query, docs.drop_last()) + matches_in(
            lsp,
            query,
            docs.last().uri@,
            docs.last().reference_list(),
        )
    }
}

/// What is looked for when references are asked for at a reference of a
/// document.
pub open spec fn query_for(lsp: &Server, doc: Seq<char>, r: ReferenceView) -> Query {
    match r.kind {
        ReferenceKindView::Header { content, .. } => Query::Header {
            uri: doc,
            range: r.range,
            content,
        },
        _ => Query::Link {
            uri: doc,
            range: r.range,
            resolved: resolved_target(lsp, doc, r.kind.target()->0),
            header: r.kind.link_header(),
        },
    }
}

/// What asking for references at a position of a document gives: the
/// references to the reference at the position, with that reference
/// itself in front if it is asked for, or, where no reference stands at
/// the position, the links that lead to the document.
pub open spec fn found_references(
    lsp: &Server,
    uri: Seq<char>,
    position: Position,
    include_declaration: bool,
) -> Result<Seq<LocationView>, LspError> {
    match index_of(lsp.documents.docs(), uri) {
        Some(i) => {
            let doc = lsp.documents.docs()[i];
            match first_containing(doc.reference_list(), position, 0) {
                Some(k) => {
                    let r = doc.reference_list()[k];
                    let found = matches_across(
                        lsp,
                        query_for(lsp, doc.uri@, r),
                        lsp.documents.docs(),
                    );
                    if include_declaration {
                        Ok(seq![LocationView { uri: doc.uri@, range: r.range }] + found)
                    } else {
                        Ok(found)
                    }
                },
                None => Ok(
                    matches_across(lsp, Query::File { uri: doc.uri@ }, lsp.documents.docs()),
                ),
            }
        },
        None => Err(LspError::DocumentNotFound),
    }
}

/// What is looked for, as the search holds it.
pub enum SourceQuery<'a> {
    Header { uri: &'a URI, range: Range, content: &'a str },
    Link { uri: &'a URI, range: Range, resolved: Result<URI, LspError>, header: Option<&'a str> },
    File { uri: &'a URI },
}

impl<'a> View for SourceQuery<'a> {
    type V = Query;

    open spec fn view(&self) -> Query {
        match *self {
            SourceQuery::Header { uri, range, content } => Query::Header {
                uri: uri@,
                range,
                content: content@,
            },
            SourceQuery::Link { uri, range, resolved, header } => Query::Link {
                uri: uri@,
                range,
                resolved: uri_result(resolved),
                header: opt_str_text(header),
            },
            SourceQuery::File { uri } => Query::File { uri: uri@ },
        }
    }
}

fn resolve_and_check_target(lsp: &Server, doc: &Document, reference: &Reference, wanted: &URI)
    -> (r: bool)
    ensures
        r == leads_to(lsp, doc.uri@, reference@, wanted@),
{
    match reference.kind.get_target() {
        Some(target) => match resolve_target_uri(lsp, doc, target) {
            Ok(resolved) => resolved.same_as(wanted),
            Err(_) => false,
        },
        None => false,
    }
}

fn is_source_reference(doc: &Document, reference: &Reference, uri: &URI, range: Range) -> (r: bool)
    ensures
        r == (doc.uri@ == uri@ && reference.range == range),
{
    doc.uri.same_as(uri) && reference.range.start.line == range.start.line
        && reference.range.start.character == range.start.character && reference.range.end.line
        == range.end.line && reference.range.end.character == range.end.character
}

/// Whether a reference of a document is one of those looked for.
pub fn check_reference_match(
    lsp: &Server,
    query: &SourceQuery,
    doc: &Document,
    reference: &Reference,
) -> (r: bool)
    ensures
        r == accepts(lsp, query@, doc.uri@, reference@),
{
    match query {
        SourceQuery::Header { uri, range, content } => {
            if is_source_reference(doc, reference, uri, *range) {
                return false;
            }
            if !resolve_and_check_target(lsp, doc, reference, uri) {
                return false;
            }
            match reference.kind.get_link_header() {
                Some(link_header) => normalized_headers_match(content, link_header),
                None => false,
            }
        },
        SourceQuery::Link { uri, range, resolved, header } => {
            if is_source_reference(doc, reference, uri, *range) {
                return false;
            }
            let wanted = match resolved {
                Ok(w) => w,
                Err(_) => {
                    return false;
                },
            };
            match &reference.kind {
                ReferenceKind::Header { content, .. } => {
                    if !doc.uri.same_as(wanted) {
                        return false;
                    }
                    match header {
                        Some(f) => normalized_headers_match(content.as_str(), f),
                        None => false,
                    }
                },
                _ => {
                    if !resolve_and_check_target(lsp, doc, reference, wanted) {
                        return false;
                    }
                    headers_are_compatible(*header, reference.kind.get_link_header())
                },
            }
        },
        SourceQuery::File { uri } => resolve_and_check_target(lsp, doc, reference, uri),
    }
}

fn collect_in(lsp: &Server, query: &SourceQuery, doc: &Document, found: &mut Vec<Location>)
    ensures
        location_views(final(found)@) == location_views(old(found)@) + matches_in(
            lsp,
            query@,
            doc.uri@,
            doc.reference_list(),
        ),
{
    let ghost before = location_views(found@);
    let ghost refs = doc.reference_list();
    let mut j: usize = 0;
    proof {
        assert(refs.take(0) =~= Seq::empty());
        assert(before + matches_in(lsp, query@, doc.uri@, refs.take(0)) =~= before);
    }
    while j < doc.references.len()
        invariant
            j <= doc.references.len(),
            refs == doc.reference_list(),
            location_views(found@) == before + matches_in(
                lsp,
                query@,
                doc.uri@,
                refs.take(j as int),
            ),
        decreases doc.references.len() - j,
    {
        let reference = &doc.references[j];
        let ghost so_far = matches_in(lsp, query@, doc.uri@, refs.take(j as int));
        let ghost views = location_views(found@);
        proof {
            let next = refs.take(j + 1);
            assert(next.drop_last() == refs.take(j as int));
            assert(next.last() == reference@);
        }
        if check_reference_match(lsp, query, doc, reference) {
            let location = Location { uri: doc.uri.duplicate(), range: reference.range };
            found.push(location);
            proof {
                assert(location_views(found@) =~= views.push(location@));
                assert(before + so_far.push(location@) =~= (before + so_far).push(location@));
            }
        }
        j += 1;
    }
    proof {
        assert(refs.take(doc.references.len() as int) == refs);
    }
}

/// Collects the places of the references looked for, over all the
/// documents of the store, in the order of the store.
pub fn collect_from(lsp: &Server, query: &SourceQuery) -> (found: Vec<Location>)
    ensures
        location_views(found@) == matches_across(lsp, query@, lsp.documents.docs()),
{
    let docs = lsp.documents.get_documents();
    let mut found: Vec<Location> = Vec::new();
    let mut i: usize = 0;
    proof {
        assert(docs@.take(0) =~= Seq::empty());
        assert(location_views(found@) =~= matches_across(lsp, query@, docs@.take(0)));
    }
    while i < docs.len()
        invariant
            i <= docs.len(),
            docs@ == lsp.documents.docs(),
            location_views(found@) == matches_across(lsp, query@, docs@.take(i as int)),
        decreases docs.len() - i,
    {
        proof {
            let next = docs@.take(i + 1);
            assert(next.drop_last() == docs@.take(i as int));
            assert(next.last() == docs@[i as int]);
        }
        collect_in(lsp, query, &docs[i], &mut found);
        i += 1;
    }
    proof {
        assert(docs@.take(docs.len() as int) == docs@);
    }
    found
}

/// The locations of a result.
pub open spec fn locations_result(r: Result<Option<Vec<Location>>, LspError>) -> Result<
    Seq<LocationView>,
    LspError,
> {
    match r {
        Ok(Some(v)) => Ok(location_views(v@)),
        Ok(None) => Ok(seq![]),
        Err(e) => Err(e),
    }
}

/// Answers a request for the references to what stands at a position.
pub fn process_references(lsp: &Server, params: &ReferenceParams) -> (r: Result<
    Option<Vec<Location>>,
    LspError,
>)
    ensures
        locations_result(r) == found_references(
            lsp,
            params.text_document_position.text_document.uri@,
            params.text_document_position.position,
            params.context.include_declaration,
        ),
        r is Ok ==> r->Ok_0 is Some,
{
    let uri = &params.text_document_position.text_document.uri;
    let position = params.text_document_position.position;
    let document = match lsp.documents.get_document(uri) {
        Some(d) => d,
        None => {
            return Err(LspError::DocumentNotFound);
        },
    };
    let reference = match document.get_reference_at_position(position) {
        Some(r) => r,
        None => {
            let found = collect_from(lsp, &SourceQuery::File { uri: &document.uri });
            return Ok(Some(found));
        },
    };
    proof {
        let k = first_containing(document.reference_list(), position, 0)->0;
        lemma_first_containing(document.reference_list(), position, 0);
        assert(document.reference_list()[k] == document.references@[k]@);
    }
    let query = match &reference.kind {
        ReferenceKind::Header { content, .. } => SourceQuery::Header {
            uri: &document.uri,
            range: reference.range,
            content: content.as_str(),
        },
        ReferenceKind::Link { target, header, .. } => SourceQuery::Link {
            uri: &document.uri,
            range: reference.range,
            resolved: resolve_target_uri(lsp, document, target.as_str()),
            header: reference.kind.get_link_header(),
        },
        ReferenceKind::WikiLink { target, header, .. } => SourceQuery::Link {
            uri: &document.uri,
            range: reference.range,
            resolved: resolve_target_uri(lsp, document, target.as_str()),
            header: reference.kind.get_link_header(),
        },
    };
    let found = collect_from(lsp, &query);
    if params.context.include_declaration {
        let declaration = Location { uri: document.uri.duplicate(), range: reference.range };
        let mut all: Vec<Location> = Vec::new();
        all.push(declaration);
        let mut i: usize = 0;
        while i < found.len()
            invariant
                i <= found.len(),
                all@.len() == i + 1,
                all@[0] == declaration,
                forall|j: int| 0 <= j < i ==> all@[j + 1] == found@[j],
            decreases found.len() - i,
        {
            all.push(Location { uri: found[i].uri.duplicate(), range: found[i].range });
            i += 1;
        }
        proof {
            assert(location_views(all@) =~= seq![declaration@] + location_views(found@));
        }
        Ok(Some(all))
    } else {
        Ok(Some(found))
    }
}

proof fn lemma_matches_in_contains(
    lsp: &Server,
    query: Query,
    doc: Seq<char>,
    refs: Seq<ReferenceView>,
    k: int,
)
    requires
        0 <= k < refs.len(),
        accepts(lsp, query, doc, refs[k]),
    ensures
        matches_in(lsp, query, doc, refs).contains(LocationView { uri: doc, range: refs[k].range }),
    decreases refs.len(),
{
    let wanted = LocationView { uri: doc, range: refs[k].range };
    let init = matches_in(lsp, query, doc, refs.drop_last());
    if k == refs.len() - 1 {
        let all = init.push(wanted);
        assert(all[init.len() as int] == wanted);
    } else {
        assert(refs.drop_last()[k] == refs[k]);
        lemma_matches_in_contains(lsp, query, doc, refs.drop_last(), k);
        let at = choose|i: int| 0 <= i < init.len() && init[i] == wanted;
        if accepts(lsp, query, doc, refs.last()) {
            let all = init.push(LocationView { uri: doc, range: refs.last().range });
            assert(all[at] == wanted);
        }
    }
}

proof fn lemma_matches_across_contains(
    lsp: &Server,
    query: Query,
    docs: Seq<Document>,
    a: int,
    k: int,
)
    requires
        0 <= a < docs.len(),
        0 <= k < docs[a].reference_list().len(),
        accepts(lsp, query, docs[a].uri@, docs[a].reference_list()[k]),
    ensures
        matches_across(lsp, query, docs).contains(
            LocationView { uri: docs[a].uri@, range: docs[a].reference_list()[k].range },
        ),
    decreases docs.len(),
{
    let wanted = LocationView { uri: docs[a].uri@, range: docs[a].reference_list()[k].range };
    let init = matches_across(lsp, query, docs.drop_last());
    let last = matches_in(lsp, query, docs.last().uri@, docs.last().reference_list());
    if a == docs.len() - 1 {
        lemma_matches_in_contains(lsp, query, docs[a].uri@, docs[a].reference_list(), k);
        let at = choose|i: int| 0 <= i < last.len() && last[i] == wanted;
        assert((init + last)[init.len() + at] == wanted);
    } else {
        assert(docs.drop_last()[a] == docs[a]);
        lemma_matches_across_contains(lsp, query, docs.drop_last(), a, k);
        let at = choose|i: int| 0 <= i < init.len() && init[i] == wanted;
        assert((init + last)[at] == wanted);
    }
}

/// Whether none of the places is the range `range` of the document `uri`.
pub open spec fn none_is(places: Seq<LocationView>, uri: Seq<char>, range: Range) -> bool {
    forall|i: int|
        0 <= i < places.len() ==> !((#[trigger] places[i]).uri == uri && places[i].range == range)
}

/// The reference that a query starts from, for a query that starts from
/// one.
pub open spec fn query_source(query: Query) -> Option<(Seq<char>, Range)> {
    match query {
        Query::Header { uri, range, .. } => Some((uri, range)),
        Query::Link { uri, range, .. } => Some((uri, range)),
        Query::File { .. } => None,
    }
}

proof fn lemma_matches_in_leave_source_out(
    lsp: &Server,
    query: Query,
    doc: Seq<char>,
    refs: Seq<ReferenceView>,
    uri: Seq<char>,
    range: Range,
)
    requires
        query_source(query) == Some((uri, range)),
    ensures
        none_is(matches_in(lsp, query, doc, refs), uri, range),
    decreases refs.len(),
{
    if refs.len() > 0 {
        lemma_matches_in_leave_source_out(lsp, query, doc, refs.drop_last(), uri, range);
    }
}

proof fn lemma_matches_across_leave_source_out(
    lsp: &Server,
    query: Query,
    docs: Seq<Document>,
    uri: Seq<char>,
    range: Range,
)
    requires
        query_source(query) == Some((uri, range)),
    ensures
        none_is(matches_across(lsp, query, docs), uri, range),
    decreases docs.len(),
{
    if docs.len() > 0 {
        lemma_matches_across_leave_source_out(lsp, query, docs.drop_last(), uri, range);
        lemma_matches_in_leave_source_out(
            lsp,
            query,
            docs.last().uri@,
            docs.last().reference_list(),
            uri,
            range,
        );
    }
}

/// The references to the reference at a position leave that reference
/// itself out, unless it is asked for.
pub proof fn lemma_references_leave_source_out(lsp: &Server, b: int, h: int, cursor: Position)
    requires
        store_wf(lsp.documents.docs()),
        0 <= b < lsp.documents.docs().len(),
        first_containing(lsp.documents.docs()[b].reference_list(), cursor, 0) == Some(h),
    ensures
        found_references(lsp, lsp.documents.docs()[b].uri@, cursor, false) is Ok,
        none_is(
            found_references(lsp, lsp.documents.docs()[b].uri@, cursor, false)->Ok_0,
            lsp.documents.docs()[b].uri@,
            lsp.documents.docs()[b].reference_list()[h].range,
        ),
{
    let docs = lsp.documents.docs();
    lemma_store_index(docs, b);
    lemma_first_containing(docs[b].reference_list(), cursor, 0);
    let source = docs[b].reference_list()[h];
    lemma_matches_across_leave_source_out(
        lsp,
        query_for(lsp, docs[b].uri@, source),
        docs,
        docs[b].uri@,
        source.range,
    );
}

/// References are symmetric with going to the definition. Let a link of a
/// document of the store carry a fragment and lead to a header of a
/// document of the store: its target names the document and its fragment
/// names the header. Then the references to that header include the link.
///
/// This is stated for a header text whose normal form is its own normal
/// form, for a fragment whose normal form does not change when the hash
/// it may begin with is taken off, and for a link that does not cover the
/// very range of the header in the same document.
pub proof fn lemma_references_include_link(
    lsp: &Server,
    a: int,
    k: int,
    b: int,
    h: int,
    cursor: Position,
)
    requires
        store_wf(lsp.documents.docs()),
        0 <= a < lsp.documents.docs().len(),
        0 <= b < lsp.documents.docs().len(),
        0 <= k < lsp.documents.docs()[a].reference_list().len(),
        lsp.documents.docs()[a].reference_list()[k].kind.is_link(),
        lsp.documents.docs()[a].reference_list()[k].kind.link_header() is Some,
        resolved_target(
            lsp,
            lsp.documents.docs()[a].uri@,
            lsp.documents.docs()[a].reference_list()[k].kind.target()->0,
        ) == Ok::<Seq<char>, LspError>(lsp.documents.docs()[b].uri@),
        first_containing(lsp.documents.docs()[b].reference_list(), cursor, 0) == Some(h),
        lsp.documents.docs()[b].reference_list()[h].kind is Header,
        fragment_names(
            lsp.documents.docs()[b].reference_list()[h].kind->Header_content,
            lsp.documents.docs()[a].reference_list()[k].kind.link_header()->0,
        ),
        normalized_header(
            normalized_header(lsp.documents.docs()[b].reference_list()[h].kind->Header_content),
        ) == normalized_header(lsp.documents.docs()[b].reference_list()[h].kind->Header_content),
        normalized_header(
            strip_hash(lsp.documents.docs()[a].reference_list()[k].kind.link_header()->0),
        ) == normalized_header(lsp.documents.docs()[a].reference_list()[k].kind.link_header()->0),
        !(lsp.documents.docs()[a].uri@ == lsp.documents.docs()[b].uri@
            && lsp.documents.docs()[a].reference_list()[k].range
            == lsp.documents.docs()[b].reference_list()[h].range),
    ensures
        found_references(lsp, lsp.documents.docs()[b].uri@, cursor, false) is Ok,
        found_references(lsp, lsp.documents.docs()[b].uri@, cursor, false)->Ok_0.contains(
            LocationView {
                uri: lsp.documents.docs()[a].uri@,
                range: lsp.documents.docs()[a].reference_list()[k].range,
            },
        ),
{
    let docs = lsp.documents.docs();
    lemma_store_index(docs, b);
    lemma_first_containing(docs[b].reference_list(), cursor, 0);
    let header = docs[b].reference_list()[h];
    let link = docs[a].reference_list()[k];
    let query = query_for(lsp, docs[b].uri@, header);
    assert(accepts(lsp, query, docs[a].uri@, link));
    lemma_matches_across_contains(lsp, query, docs, a, k);
}

} // verus!
