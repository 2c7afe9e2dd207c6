//! The documents that the server knows, and the server's own state.

use vstd::prelude::*;
use crate::config::{default_config, Config};
use crate::document::references::Reference;
use crate::document::Document;
use crate::error::LspError;
use crate::uri::URI;

verus! {

/// Whether a list of documents can be the content of a store: every
/// document has the references and diagnostics of its text, and no two
/// documents have the same URI.
pub open spec fn store_wf(docs: Seq<Document>) -> bool {
    &&& forall|i: int| 0 <= i < docs.len() ==> (#[trigger] docs[i]).wf()
    &&& forall|i: int, j: int|
        0 <= i < docs.len() && 0 <= j < docs.len() && i != j ==> (#[trigger] docs[i]).uri@
            != (#[trigger] docs[j]).uri@
}

/// The index of the document with the given URI, if the list holds one.
pub open spec fn index_of(docs: Seq<Document>, uri: Seq<char>) -> Option<int>
    decreases docs.len(),
{
    if docs.len() == 0 {
        None
    } else if index_of(docs.drop_last(), uri) is Some {
        index_of(docs.drop_last(), uri)
    } else if docs.last().uri@ == uri {
        Some(docs.len() - 1)
    } else {
        None
    }
}

/// What `index_of` boils down to: the first index at which the URI
/// stands.
pub proof fn lemma_index_of(docs: Seq<Document>, uri: Seq<char>)
    ensures
        match index_of(docs, uri) {
            Some(i) => 0 <= i < docs.len() && docs[i].uri@ == uri && forall|j: int|
                0 <= j < i ==> (#[trigger] docs[j]).uri@ != uri,
            None => forall|j: int| 0 <= j < docs.len() ==> (#[trigger] docs[j]).uri@ != uri,
        },
    decreases docs.len(),
{
    if docs.len() > 0 {
        let init = docs.drop_last();
        lemma_index_of(init, uri);
        match index_of(init, uri) {
            Some(i) => {
                assert(init[i] == docs[i]);
                assert forall|j: int| 0 <= j < i implies (#[trigger] docs[j]).uri@ != uri by {
                    assert(init[j] == docs[j]);
                }
            },
            None => {
                assert forall|j: int| 0 <= j < docs.len() - 1 implies (#[trigger] docs[j]).uri@
                    != uri by {
                    assert(init[j] == docs[j]);
                }
            },
        }
    }
}

/// Finds the document with the given URI.
pub fn find_document(docs: &Vec<Document>, uri: &URI) -> (r: Option<usize>)
    ensures
        match r {
            Some(i) => index_of(docs@, uri@) == Some(i as int) && i < docs.len() && docs@[i as int].uri@
                == uri@,
            None => index_of(docs@, uri@) is None,
        },
{
    let mut i: usize = 0;
    while i < docs.len()
        invariant
            i <= docs.len(),
            forall|j: int| 0 <= j < i ==> (#[trigger] docs@[j]).uri@ != uri@,
        decreases docs.len() - i,
    {
        if docs[i].uri.same_as(uri) {
            proof {
                lemma_index_of_unique(docs@, uri@, i as int);
            }
            return Some(i);
        }
        i += 1;
    }
    proof {
        lemma_index_of(docs@, uri@);
    }
    None
}

/// The first index at which a URI stands is its index.
pub proof fn lemma_index_of_unique(docs: Seq<Document>, uri: Seq<char>, i: int)
    requires
        0 <= i < docs.len(),
        docs[i].uri@ == uri,
        forall|j: int| 0 <= j < i ==> (#[trigger] docs[j]).uri@ != uri,
    ensures
        index_of(docs, uri) == Some(i),
{
    lemma_index_of(docs, uri);
}

proof fn lemma_replace_keeps_wf(docs: Seq<Document>, i: int, d: Document)
    requires
        store_wf(docs),
        0 <= i < docs.len(),
        d.wf(),
        d.uri@ == docs[i].uri@,
    ensures
        store_wf(docs.update(i, d)),
        index_of(docs.update(i, d), d.uri@) == Some(i),
{
    let after = docs.update(i, d);
    assert forall|a: int, b: int|
        0 <= a < after.len() && 0 <= b < after.len() && a != b implies (#[trigger] after[a]).uri@
        != (#[trigger] after[b]).uri@ by {
        assert(after[a].uri@ == docs[a].uri@);
        assert(after[b].uri@ == docs[b].uri@);
    }
    assert forall|j: int| 0 <= j < i implies (#[trigger] after[j]).uri@ != d.uri@ by {
        assert(after[j].uri@ == docs[j].uri@);
    }
    lemma_index_of_unique(after, d.uri@, i);
}

proof fn lemma_push_keeps_wf(docs: Seq<Document>, d: Document)
    requires
        store_wf(docs),
        d.wf(),
        index_of(docs, d.uri@) is None,
    ensures
        store_wf(docs.push(d)),
        index_of(docs.push(d), d.uri@) == Some(docs.len() as int),
{
    let after = docs.push(d);
    lemma_index_of(docs, d.uri@);
    assert forall|a: int, b: int|
        0 <= a < after.len() && 0 <= b < after.len() && a != b implies (#[trigger] after[a]).uri@
        != (#[trigger] after[b]).uri@ by {
        if a < docs.len() {
            assert(after[a] == docs[a]);
        }
        if b < docs.len() {
            assert(after[b] == docs[b]);
        }
    }
    assert forall|j: int| 0 <= j < docs.len() implies (#[trigger] after[j]).uri@ != d.uri@ by {
        assert(after[j] == docs[j]);
    }
    lemma_index_of_unique(after, d.uri@, docs.len() as int);
}

proof fn lemma_remove_keeps_wf(docs: Seq<Document>, i: int)
    requires
        store_wf(docs),
        0 <= i < docs.len(),
    ensures
        store_wf(docs.remove(i)),
        index_of(docs.remove(i), docs[i].uri@) is None,
{
    let after = docs.remove(i);
    assert forall|a: int| 0 <= a < after.len() implies #[trigger] after[a] == docs[if a < i {
        a
    } else {
        a + 1
    }] by {}
    assert forall|a: int, b: int|
        0 <= a < after.len() && 0 <= b < after.len() && a != b implies (#[trigger] after[a]).uri@
        != (#[trigger] after[b]).uri@ by {
        let a2 = if a < i {
            a
        } else {
            a + 1
        };
        let b2 = if b < i {
            b
        } else {
            b + 1
        };
        assert(after[a] == docs[a2]);
        assert(after[b] == docs[b2]);
    }
    lemma_index_of(after, docs[i].uri@);
    if index_of(after, docs[i].uri@) is Some {
        let k = index_of(after, docs[i].uri@)->0;
        let k2 = if k < i {
            k
        } else {
            k + 1
        };
        assert(after[k] == docs[k2]);
        assert(docs[k2].uri@ != docs[i].uri@);
    }
}

/// The references of a document, each with the URI of the document.
pub open spec fn references_of(doc: Document) -> Seq<(URI, Reference)> {
    Seq::new(doc.references@.len(), |k: int| (doc.uri, doc.references@[k]))
}

/// The references of a list of documents, each with the URI of its
/// document, document by document.
pub open spec fn all_references(docs: Seq<Document>) -> Seq<(URI, Reference)>
    decreases docs.len(),
{
    if docs.len() == 0 {
        seq![]
    } else {
        all_references(docs.drop_last()) + references_of(docs.last())
    }
}

/// What a list of pairs of borrowed values borrows.
pub open spec fn lent(pairs: Seq<(&URI, &Reference)>) -> Seq<(URI, Reference)> {
    Seq::new(pairs.len(), |k: int| (*pairs[k].0, *pairs[k].1))
}

/// What the server knows of a document: nothing, or that it is open at a
/// version.
#[derive(Debug, Clone, Copy, PartialEq, Eq, Structural)]
pub enum DocumentState {
    Absent,
    Open(i32),
}

/// The state of the document under a URI.
pub open spec fn state_of(docs: Seq<Document>, uri: Seq<char>) -> DocumentState {
    match index_of(docs, uri) {
        Some(i) => DocumentState::Open(docs[i].version),
        None => DocumentState::Absent,
    }
}

/// The documents that the server knows, each under its URI, in the order
/// in which they first came.
pub struct DocumentStore {
    documents: Vec<Document>,
}

impl DocumentStore {
    #[verifier::type_invariant]
    spec fn well_formed(&self) -> bool {
        store_wf(self.documents@)
    }

    /// The documents of the store, in order.
    pub closed spec fn docs(&self) -> Seq<Document> {
        self.documents@
    }

    /// A store without documents.
    pub fn new() -> (store: Self)
        ensures
            store.docs() == Seq::<Document>::empty(),
    {
        DocumentStore { documents: Vec::new() }
    }

    /// Puts a document with the given text under the URI. A document that
    /// was there under the same URI gives way to it and leaves it its
    /// place; otherwise the document comes last.
    pub fn open_document(&mut self, uri: URI, version: i32, text: &str) -> (r: Result<
        (),
        LspError,
    >)
        ensures
            r is Ok,
            match index_of(old(self).docs(), uri@) {
                Some(i) => final(self).docs().len() == old(self).docs().len() && index_of(
                    final(self).docs(),
                    uri@,
                ) == Some(i) && forall|j: int|
                    0 <= j < old(self).docs().len() && j != i ==> final(self).docs()[j] == old(self).docs()[j],
                None => final(self).docs().len() == old(self).docs().len() + 1 && index_of(
                    final(self).docs(),
                    uri@,
                ) == Some(old(self).docs().len() as int) && forall|j: int|
                    0 <= j < old(self).docs().len() ==> final(self).docs()[j] == old(self).docs()[j],
            },
            final(self).docs()[index_of(final(self).docs(), uri@)->0].text() == text@,
            final(self).docs()[index_of(final(self).docs(), uri@)->0].version == version,
            final(self).docs()[index_of(final(self).docs(), uri@)->0].wf(),
    {
        proof {
            use_type_invariant(&*self);
        }
        let found = find_document(&self.documents, &uri);
        let ghost key = uri@;
        let document = match Document::new(uri, text, version) {
            Ok(d) => d,
            Err(e) => {
                return Err(e);
            },
        };
        let mut docs: Vec<Document> = Vec::new();
        core::mem::swap(&mut self.documents, &mut docs);
        match found {
            Some(i) => {
                proof {
                    lemma_replace_keeps_wf(docs@, i as int, document);
                }
                docs.set(i, document);
            },
            None => {
                proof {
                    lemma_push_keeps_wf(docs@, document);
                }
                docs.push(document);
            },
        }
        core::mem::swap(&mut self.documents, &mut docs);
        Ok(())
    }

    /// Gives the document under the URI a new text and the version after
    /// its own. Where there is no such document, nothing happens.
    pub fn update_document(&mut self, uri: &URI, text: &str) -> (r: Result<(), LspError>)
        ensures
            final(self).docs().len() == old(self).docs().len(),
            match index_of(old(self).docs(), uri@) {
                Some(i) => {
                    &&& forall|j: int|
                        0 <= j < old(self).docs().len() && j != i ==> final(self).docs()[j] == old(self).docs()[j]
                    &&& final(self).docs()[i].uri == old(self).docs()[i].uri
                    &&& if old(self).docs()[i].version < i32::MAX {
                        &&& r is Ok
                        &&& final(self).docs()[i].text() == text@
                        &&& final(self).docs()[i].version == old(self).docs()[i].version + 1
                    } else {
                        &&& r == Err::<(), LspError>(LspError::StaleVersion)
                        &&& final(self).docs()[i] == old(self).docs()[i]
                    }
                },
                None => r is Ok && final(self).docs() == old(self).docs(),
            },
    {
        proof {
            use_type_invariant(&*self);
            lemma_index_of(self.documents@, uri@);
        }
        match find_document(&self.documents, uri) {
            Some(i) => {
                let current = &self.documents[i];
                if current.version == i32::MAX {
                    return Err(LspError::StaleVersion);
                }
                let version = current.version + 1;
                let key = current.uri.duplicate();
                let document = match Document::new(key, text, version) {
                    Ok(d) => d,
                    Err(e) => {
                        return Err(e);
                    },
                };
                let mut docs: Vec<Document> = Vec::new();
                core::mem::swap(&mut self.documents, &mut docs);
                proof {
                    lemma_replace_keeps_wf(docs@, i as int, document);
                }
                docs.set(i, document);
                core::mem::swap(&mut self.documents, &mut docs);
                Ok(())
            },
            None => Ok(()),
        }
    }

    /// Gives the document under the URI a new text at a new version, as the
    /// editor does when the text has changed. The version has to be later
    /// than the document's; a change that comes out of order is stale and
    /// leaves the document as it is. Where there is no such document,
    /// nothing happens.
    pub fn change_document(&mut self, uri: &URI, text: &str, version: i32) -> (r: Result<
        (),
        LspError,
    >)
        ensures
            final(self).docs().len() == old(self).docs().len(),
            match index_of(old(self).docs(), uri@) {
                Some(i) => {
                    &&& forall|j: int|
                        0 <= j < old(self).docs().len() && j != i ==> final(self).docs()[j] == old(self).docs()[j]
                    &&& final(self).docs()[i].uri == old(self).docs()[i].uri
                    &&& if version > old(self).docs()[i].version {
                        &&& r is Ok
                        &&& final(self).docs()[i].text() == text@
                        &&& final(self).docs()[i].version == version
                    } else {
                        &&& r == Err::<(), LspError>(LspError::StaleVersion)
                        &&& final(self).docs()[i] == old(self).docs()[i]
                    }
                },
                None => r is Ok && final(self).docs() == old(self).docs(),
            },
    {
        proof {
            use_type_invariant(&*self);
        }
        match find_document(&self.documents, uri) {
            Some(i) => {
                let current = &self.documents[i];
                if version <= current.version {
                    return Err(LspError::StaleVersion);
                }
                let key = current.uri.duplicate();
                let document = match Document::new(key, text, version) {
                    Ok(d) => d,
                    Err(e) => {
                        return Err(e);
                    },
                };
                let mut docs: Vec<Document> = Vec::new();
                core::mem::swap(&mut self.documents, &mut docs);
                proof {
                    lemma_replace_keeps_wf(docs@, i as int, document);
                }
                docs.set(i, document);
                core::mem::swap(&mut self.documents, &mut docs);
                Ok(())
            },
            None => Ok(()),
        }
    }

    /// What the store knows of the document under a URI.
    pub fn state(&self, uri: &URI) -> (r: DocumentState)
        ensures
            r == state_of(self.docs(), uri@),
    {
        match find_document(&self.documents, uri) {
            Some(i) => DocumentState::Open(self.documents[i].version),
            None => DocumentState::Absent,
        }
    }

    /// Takes the document under the URI out of the store, if there is one.
    pub fn remove_document(&mut self, uri: &URI)
        ensures
            index_of(final(self).docs(), uri@) is None,
            match index_of(old(self).docs(), uri@) {
                Some(i) => final(self).docs() == old(self).docs().remove(i),
                None => final(self).docs() == old(self).docs(),
            },
    {
        proof {
            use_type_invariant(&*self);
            lemma_index_of(self.documents@, uri@);
        }
        match find_document(&self.documents, uri) {
            Some(i) => {
                let mut docs: Vec<Document> = Vec::new();
                core::mem::swap(&mut self.documents, &mut docs);
                proof {
                    lemma_remove_keeps_wf(docs@, i as int);
                }
                docs.remove(i);
                core::mem::swap(&mut self.documents, &mut docs);
            },
            None => {},
        }
    }

    /// The document under the URI, if there is one.
    pub fn get_document(&self, uri: &URI) -> (r: Option<&Document>)
        ensures
            match r {
                Some(d) => index_of(self.docs(), uri@) is Some && *d == self.docs()[index_of(
                    self.docs(),
                    uri@,
                )->0] && d.uri@ == uri@ && d.wf(),
                None => index_of(self.docs(), uri@) is None,
            },
    {
        proof {
            use_type_invariant(self);
            lemma_index_of(self.documents@, uri@);
        }
        match find_document(&self.documents, uri) {
            Some(i) => Some(&self.documents[i]),
            None => None,
        }
    }

    /// All the references of all the documents, each with the URI of its
    /// document, in the order of the documents and of their texts.
    pub fn get_references_with_uri(&self) -> (r: Vec<(&URI, &Reference)>)
        ensures
            lent(r@) == all_references(self.docs()),
    {
        let docs = &self.documents;
        let mut out: Vec<(&URI, &Reference)> = Vec::new();
        let mut i: usize = 0;
        proof {
            assert(docs@.take(0) =~= Seq::empty());
            assert(lent(out@) =~= all_references(docs@.take(0)));
        }
        while i < docs.len()
            invariant
                i <= docs.len(),
                lent(out@) == all_references(docs@.take(i as int)),
            decreases docs.len() - i,
        {
            let doc = &docs[i];
            let ghost before = lent(out@);
            proof {
                let next = docs@.take(i + 1);
                assert(next.drop_last() == docs@.take(i as int));
                assert(next.last() == *doc);
            }
            let mut k: usize = 0;
            while k < doc.references.len()
                invariant
                    k <= doc.references.len(),
                    lent(out@) == before + references_of(*doc).take(k as int),
                decreases doc.references.len() - k,
            {
                let ghost so_far = lent(out@);
                out.push((&doc.uri, &doc.references[k]));
                proof {
                    assert(lent(out@) =~= so_far.push((doc.uri, doc.references@[k as int])));
                    assert(references_of(*doc).take(k + 1) =~= references_of(*doc).take(
                        k as int,
                    ).push((doc.uri, doc.references@[k as int])));
                }
                k += 1;
            }
            proof {
                assert(references_of(*doc).take(doc.references.len() as int) == references_of(
                    *doc,
                ));
            }
            i += 1;
        }
        proof {
            assert(docs@.take(docs.len() as int) == docs@);
        }
        out
    }

    /// All the documents, in the order in which they first came.
    pub fn get_documents(&self) -> (r: &Vec<Document>)
        ensures
            r@ == self.docs(),
            store_wf(r@),
    {
        proof {
            use_type_invariant(self);
        }
        &self.documents
    }
}

/// The state of the server: the documents, the settings, and the root of
/// the workspace once it is known.
pub struct Server {
    pub documents: DocumentStore,
    pub config: Config,
    pub root: Option<URI>,
    pub client_capabilities: Option<String>,
}

impl Server {
    /// The root of the workspace, if it is known.
    pub open spec fn root_uri(&self) -> Option<URI> {
        self.root
    }

    /// A server without documents, with the default settings.
    pub fn new() -> (server: Self)
        ensures
            server.documents.docs() == Seq::<Document>::empty(),
            server.config == default_config(),
            server.root_uri() is None,
            server.client_capabilities is None,
    {
        Server {
            documents: DocumentStore::new(),
            config: Config::default(),
            root: None,
            client_capabilities: None,
        }
    }

    /// Makes `uri` the root of the workspace.
    pub fn set_root(&mut self, uri: URI)
        ensures
            final(self).root_uri() == Some(uri),
            final(self).documents == old(self).documents,
            final(self).config == old(self).config,
            final(self).client_capabilities == old(self).client_capabilities,
    {
        self.root = Some(uri);
    }

    /// The root of the workspace, if it is known.
    pub fn root(&self) -> (r: Option<&URI>)
        ensures
            match r {
                Some(uri) => self.root_uri() == Some(*uri),
                None => self.root_uri() is None,
            },
    {
        match &self.root {
            Some(uri) => Some(uri),
            None => None,
        }
    }

    /// Keeps what the editor said it can do, as the JSON text it sent.
    pub fn set_client_capabilities(&mut self, capabilities: String)
        ensures
            final(self).client_capabilities == Some(capabilities),
            final(self).root_uri() == old(self).root_uri(),
            final(self).documents == old(self).documents,
            final(self).config == old(self).config,
    {
        self.client_capabilities = Some(capabilities);
    }
}

} // verus!
