//! Turning the target of a link into the URI of a document.

use vstd::prelude::*;
use crate::config::LinkConfig;
use crate::document::Document;
use crate::error::LspError;
use crate::lsp::server::DocumentStore;
use crate::path::{
    combine_and_normalize, combined, file_name_chars, file_name_of, file_stem_of, join_chars,
    joined, stem_chars, uri_result,
};
use crate::text::{
    chars_eq, contains_char, has_suffix, lowercase, matches_at, opt_text, str_to_lowercase,
    string_from_chars, substring, to_chars,
};
use crate::uri::{file_path_chars, file_path_of, uri_chars_of_path, uri_of_path, URI};

verus! {

/// A character of a file name as matching has it: spaces and underscores
/// count as dashes.
pub open spec fn unify_separator(c: char) -> char {
    if c == ' ' || c == '_' {
        '-'
    } else {
        c
    }
}

/// The text with every space and underscore replaced by a dash.
pub open spec fn unified(s: Seq<char>) -> Seq<char> {
    Seq::new(s.len(), |i: int| unify_separator(s[i]))
}

/// The form in which file names are compared: lowercase, with spaces and
/// underscores turned into dashes.
pub open spec fn normalized_name(s: Seq<char>) -> Seq<char> {
    unified(lowercase(s))
}

/// Normalizing a file name twice gives what normalizing it once gives,
/// whenever lowercasing leaves the normal form as it is.
pub proof fn lemma_normalize_name_idempotent(s: Seq<char>)
    requires
        lowercase(normalized_name(s)) == normalized_name(s),
    ensures
        normalized_name(normalized_name(s)) == normalized_name(s),
{
    assert(unified(unified(lowercase(s))) =~= unified(lowercase(s)));
}

/// The normal form of a name holds neither a space nor an underscore.
pub proof fn lemma_normalized_name_has_no_separators(s: Seq<char>)
    ensures
        !normalized_name(s).contains(' '),
        !normalized_name(s).contains('_'),
{
}

/// Names that differ only in case have the same normal form.
pub proof fn lemma_normalize_name_ignores_case(a: Seq<char>, b: Seq<char>)
    requires
        lowercase(a) == lowercase(b),
    ensures
        normalized_name(a) == normalized_name(b),
{
}

/// The normal form of a file name, as characters.
pub fn normalize_name_chars(s: &str) -> (out: Vec<char>)
    ensures
        out@ == normalized_name(s@),
{
    let lower = str_to_lowercase(s);
    let chars = to_chars(lower.as_str());
    let mut out: Vec<char> = Vec::new();
    let mut i: usize = 0;
    while i < chars.len()
        invariant
            i <= chars.len(),
            out@.len() == i,
            forall|k: int| 0 <= k < i ==> out@[k] == unify_separator(chars@[k]),
        decreases chars.len() - i,
    {
        let c = chars[i];
        if c == ' ' || c == '_' {
            out.push('-');
        } else {
            out.push(c);
        }
        i += 1;
    }
    proof {
        assert(out@ =~= unified(chars@));
    }
    out
}

/// Normalizes a name for matching: case is dropped, and spaces, dashes and
/// underscores all count as dashes.
pub fn normalize_for_matching(s: &str) -> (out: String)
    ensures
        out@ == normalized_name(s@),
{
    let chars = normalize_name_chars(s);
    string_from_chars(chars.as_slice())
}

/// Whether a target is written as a path: it holds a slash. A target that
/// begins with `/`, `./` or `../` holds one.
pub open spec fn path_syntax(target: Seq<char>) -> bool {
    target.contains('/')
}

/// Whether the target uses path syntax, that is, has a slash in it.
pub fn is_path_syntax(target: &str) -> (r: bool)
    ensures
        r == path_syntax(target@),
{
    let chars = to_chars(target);
    contains_char(&chars, '/')
}


/// The extension of a note's file.
pub open spec fn md_suffix() -> Seq<char> {
    seq!['.', 'm', 'd']
}

/// A target without the extension of a note's file, if it ends in it.
pub open spec fn without_md(target: Seq<char>) -> Seq<char> {
    if has_suffix(target, md_suffix()) {
        target.subrange(0, target.len() - 3)
    } else {
        target
    }
}

/// The stem of the file that a URI names, if it names one.
pub open spec fn filename_stem(uri: Seq<char>) -> Option<Seq<char>> {
    match file_path_of(uri) {
        Some(path) => file_stem_of(path),
        None => None,
    }
}

/// The name of the file that a URI names, if it names one.
pub open spec fn filename(uri: Seq<char>) -> Option<Seq<char>> {
    match file_path_of(uri) {
        Some(path) => file_name_of(path),
        None => None,
    }
}

/// Whether the file that a URI names has a stem with the given normal
/// form.
pub open spec fn names_document(uri: Seq<char>, wanted: Seq<char>) -> bool {
    match filename_stem(uri) {
        Some(stem) => normalized_name(stem) == wanted,
        None => false,
    }
}

/// The index of the first document whose file has a stem with the given
/// normal form.
pub open spec fn first_named(docs: Seq<Document>, wanted: Seq<char>) -> Option<int>
    decreases docs.len(),
{
    if docs.len() == 0 {
        None
    } else if first_named(docs.drop_last(), wanted) is Some {
        first_named(docs.drop_last(), wanted)
    } else if names_document(docs.last().uri@, wanted) {
        Some(docs.len() - 1)
    } else {
        None
    }
}

/// What `first_named` boils down to.
pub proof fn lemma_first_named(docs: Seq<Document>, wanted: Seq<char>)
    ensures
        match first_named(docs, wanted) {
            Some(i) => 0 <= i < docs.len() && names_document(docs[i].uri@, wanted) && forall|
                j: int,
            | 0 <= j < i ==> !names_document((#[trigger] docs[j]).uri@, wanted),
            None => forall|j: int|
                0 <= j < docs.len() ==> !names_document((#[trigger] docs[j]).uri@, wanted),
        },
    decreases docs.len(),
{
    if docs.len() > 0 {
        let init = docs.drop_last();
        lemma_first_named(init, wanted);
        match first_named(init, wanted) {
            Some(i) => {
                assert(init[i] == docs[i]);
                assert forall|j: int| 0 <= j < i implies !names_document(
                    (#[trigger] docs[j]).uri@,
                    wanted,
                ) by {
                    assert(init[j] == docs[j]);
                }
            },
            None => {
                assert forall|j: int| 0 <= j < docs.len() - 1 implies !names_document(
                    (#[trigger] docs[j]).uri@,
                    wanted,
                ) by {
                    assert(init[j] == docs[j]);
                }
            },
        }
    }
}

/// The document that a target names by its file name: the first document
/// of the store whose file has a stem that is, in normal form, the target
/// without its extension.
pub open spec fn resolved_by_filename(target: Seq<char>, docs: Seq<Document>) -> Option<Seq<char>> {
    match first_named(docs, normalized_name(without_md(target))) {
        Some(i) => Some(docs[i].uri@),
        None => None,
    }
}

/// The URI of an optional URI.
pub open spec fn opt_uri(uri: Option<URI>) -> Option<Seq<char>> {
    match uri {
        Some(u) => Some(u@),
        None => None,
    }
}

/// The URI of an optional reference to a URI.
pub open spec fn opt_uri_ref(uri: Option<&URI>) -> Option<Seq<char>> {
    match uri {
        Some(u) => Some(u@),
        None => None,
    }
}

/// The document that a target names as a path. A target that begins with
/// a slash is read from the root of the workspace, and names nothing where
/// there is no root. Any other target is read from the directory of the
/// source document.
pub open spec fn resolved_as_path(target: Seq<char>, source: Seq<char>, root: Option<Seq<char>>)
    -> Result<Seq<char>, LspError> {
    if target.len() > 0 && target[0] == '/' {
        match root {
            Some(r) => match file_path_of(r) {
                Some(root_path) => match uri_of_path(
                    joined(root_path, target.subrange(1, target.len() as int)),
                ) {
                    Some(uri) => Ok(uri),
                    None => Err(LspError::ResolutionFailed),
                },
                None => Err(LspError::ResolutionFailed),
            },
            None => Err(LspError::ResolutionFailed),
        }
    } else {
        combined(source, target)
    }
}

/// The document that a target names. A target with a slash in it is a
/// path. Any other target names a document by its file name, if file names
/// are to be looked up and the store holds a document so named, and is
/// else read as a path.
pub open spec fn resolved_link(
    target: Seq<char>,
    source: Seq<char>,
    by_filename: bool,
    docs: Seq<Document>,
    root: Option<Seq<char>>,
) -> Result<Seq<char>, LspError> {
    if path_syntax(target) {
        resolved_as_path(target, source, root)
    } else if by_filename && resolved_by_filename(target, docs) is Some {
        Ok(resolved_by_filename(target, docs)->0)
    } else {
        resolved_as_path(target, source, root)
    }
}

fn filename_stem_chars(uri: &URI) -> (r: Option<Vec<char>>)
    ensures
        match r {
            Some(stem) => filename_stem(uri@) == Some(stem@),
            None => filename_stem(uri@) is None,
        },
{
    let chars = uri.chars();
    let path = match file_path_chars(&chars) {
        Some(p) => p,
        None => {
            return None;
        },
    };
    match file_name_chars(&path) {
        Some(name) => Some(stem_chars(&name)),
        None => None,
    }
}

/// Extract filename without extension from URI
/// Example: file:///path/to/note.md -> Some("note")
pub fn extract_filename_stem(uri: &URI) -> (r: Option<String>)
    ensures
        opt_text(r) == filename_stem(uri@),
{
    match filename_stem_chars(uri) {
        Some(stem) => Some(string_from_chars(stem.as_slice())),
        None => None,
    }
}

/// Extract full filename with extension from URI
/// Example: file:///path/to/note.md -> Some("note.md")
pub fn extract_filename(uri: &URI) -> (r: Option<String>)
    ensures
        opt_text(r) == filename(uri@),
{
    let chars = uri.chars();
    let path = match file_path_chars(&chars) {
        Some(p) => p,
        None => {
            return None;
        },
    };
    match file_name_chars(&path) {
        Some(name) => Some(string_from_chars(name.as_slice())),
        None => None,
    }
}

fn is_named(uri: &URI, wanted: &Vec<char>) -> (r: bool)
    ensures
        r == names_document(uri@, wanted@),
{
    match extract_filename_stem(uri) {
        Some(stem) => {
            let normal = normalize_name_chars(stem.as_str());
            chars_eq(&normal, wanted)
        },
        None => false,
    }
}

/// Resolve target by searching for matching filename in workspace.
/// Returns the first match found.
///
/// The extension is always taken off the target for the comparison, so
/// that both [[note]] and [[note.md]] match note.md.
pub fn resolve_by_filename(target: &str, documents: &DocumentStore) -> (r: Option<URI>)
    ensures
        opt_uri(r) == resolved_by_filename(target@, documents.docs()),
{
    let chars = to_chars(target);
    let mut suffix: Vec<char> = Vec::new();
    suffix.push('.');
    suffix.push('m');
    suffix.push('d');
    proof {
        assert(suffix@ =~= md_suffix());
    }
    let stem = if chars.len() >= 3 && matches_at(&chars, chars.len() - 3, &suffix) {
        substring(&chars, 0, chars.len() - 3)
    } else {
        string_from_chars(chars.as_slice())
    };
    let wanted = normalize_name_chars(stem.as_str());
    let docs = documents.get_documents();
    let mut i: usize = 0;
    while i < docs.len()
        invariant
            i <= docs.len(),
            docs@ == documents.docs(),
            wanted@ == normalized_name(without_md(target@)),
            forall|j: int| 0 <= j < i ==> !names_document((#[trigger] docs@[j]).uri@, wanted@),
        decreases docs.len() - i,
    {
        if is_named(&docs[i].uri, &wanted) {
            proof {
                lemma_first_named(docs@, wanted@);
            }
            return Some(docs[i].uri.duplicate());
        }
        i += 1;
    }
    proof {
        lemma_first_named(docs@, wanted@);
    }
    None
}

/// Resolve target as a file path (relative or absolute)
pub fn resolve_as_path(target: &str, source_doc: &Document, workspace_root: Option<&URI>) -> (r:
    Result<URI, LspError>)
    ensures
        uri_result(r) == resolved_as_path(target@, source_doc.uri@, opt_uri_ref(workspace_root)),
{
    let chars = to_chars(target);
    if chars.len() > 0 && chars[0] == '/' {
        let root = match workspace_root {
            Some(root) => root,
            None => {
                return Err(LspError::ResolutionFailed);
            },
        };
        let root_chars = root.chars();
        let root_path = match file_path_chars(&root_chars) {
            Some(p) => p,
            None => {
                return Err(LspError::ResolutionFailed);
            },
        };
        let mut rest: Vec<char> = Vec::new();
        let mut i: usize = 1;
        while i < chars.len()
            invariant
                1 <= i <= chars.len(),
                rest@ == chars@.subrange(1, i as int),
            decreases chars.len() - i,
        {
            rest.push(chars[i]);
            i += 1;
        }
        let full = join_chars(&root_path, &rest);
        match uri_chars_of_path(&full) {
            Some(uri) => Ok(URI::from_chars(&uri)),
            None => Err(LspError::ResolutionFailed),
        }
    } else {
        combine_and_normalize(&source_doc.uri, target)
    }
}

/// Main entry point for link resolution
///
/// Resolution order:
/// 1. If target looks like a path (contains /), resolve as path
/// 2. If filename resolution enabled, try to find by filename
/// 3. Fallback to treating as relative path
pub fn resolve_link(
    target: &str,
    source_doc: &Document,
    config: &LinkConfig,
    documents: &DocumentStore,
    workspace_root: Option<&URI>,
) -> (r: Result<URI, LspError>)
    ensures
        uri_result(r) == resolved_link(
            target@,
            source_doc.uri@,
            config.enable_filename_resolution,
            documents.docs(),
            opt_uri_ref(workspace_root),
        ),
{
    if is_path_syntax(target) {
        return resolve_as_path(target, source_doc, workspace_root);
    }
    if config.enable_filename_resolution {
        match resolve_by_filename(target, documents) {
            Some(resolved) => {
                return Ok(resolved);
            },
            None => {},
        }
    }
    resolve_as_path(target, source_doc, workspace_root)
}

} // verus!
