//! Document URIs, and the file paths that `file://` URIs stand for.

use vstd::prelude::*;
use crate::text::{concat, has_prefix, matches_at, string_from_chars, to_chars};

verus! {

/// The URI of a document, as text.
#[derive(Debug, Clone, Eq, PartialEq, Hash)]
pub struct URI(pub String);

impl View for URI {
    type V = Seq<char>;

    open spec fn view(&self) -> Seq<char> {
        self.0@
    }
}

/// What a file URI begins with.
pub open spec fn file_scheme() -> Seq<char> {
    seq!['f', 'i', 'l', 'e', ':', '/', '/']
}

/// The path that a URI stands for: what follows `file://`. Other URIs
/// stand for no path.
pub open spec fn file_path_of(uri: Seq<char>) -> Option<Seq<char>> {
    if has_prefix(uri, file_scheme()) {
        Some(uri.subrange(7, uri.len() as int))
    } else {
        None
    }
}

/// The path of a URI: the path it stands for if it is a file URI, and else
/// its whole text.
pub open spec fn path_of(uri: Seq<char>) -> Seq<char> {
    match file_path_of(uri) {
        Some(p) => p,
        None => uri,
    }
}

/// The URI of a path. Only absolute paths, those that begin with a slash,
/// have one.
pub open spec fn uri_of_path(path: Seq<char>) -> Option<Seq<char>> {
    if path.len() > 0 && path[0] == '/' {
        Some(file_scheme() + path)
    } else {
        None
    }
}

/// The characters of `file://`.
pub fn scheme_chars() -> (v: Vec<char>)
    ensures
        v@ == file_scheme(),
{
    let mut v: Vec<char> = Vec::new();
    v.push('f');
    v.push('i');
    v.push('l');
    v.push('e');
    v.push(':');
    v.push('/');
    v.push('/');
    proof {
        assert(v@ =~= file_scheme());
    }
    v
}

/// The path that a URI, given as characters, stands for.
pub fn file_path_chars(uri: &Vec<char>) -> (r: Option<Vec<char>>)
    ensures
        match r {
            Some(p) => file_path_of(uri@) == Some(p@),
            None => file_path_of(uri@) is None,
        },
{
    let scheme = scheme_chars();
    if !matches_at(uri, 0, &scheme) {
        return None;
    }
    let mut out: Vec<char> = Vec::new();
    let mut i: usize = 7;
    while i < uri.len()
        invariant
            7 <= i <= uri.len(),
            out@ == uri@.subrange(7, i as int),
        decreases uri.len() - i,
    {
        out.push(uri[i]);
        i += 1;
    }
    Some(out)
}

/// The URI of a path, given as characters.
pub fn uri_chars_of_path(path: &Vec<char>) -> (r: Option<Vec<char>>)
    ensures
        match r {
            Some(u) => uri_of_path(path@) == Some(u@),
            None => uri_of_path(path@) is None,
        },
{
    if path.len() > 0 && path[0] == '/' {
        let scheme = scheme_chars();
        Some(concat(&scheme, path))
    } else {
        None
    }
}

impl URI {
    /// The URI with the given text.
    pub fn from_str(text: &str) -> (uri: URI)
        ensures
            uri@ == text@,
    {
        URI(String::from_str(text))
    }

    /// The URI with the given characters.
    pub fn from_chars(chars: &Vec<char>) -> (uri: URI)
        ensures
            uri@ == chars@,
    {
        URI(string_from_chars(chars.as_slice()))
    }

    /// The URI of an absolute path; a relative path has none.
    pub fn from_file_path(path: &str) -> (r: Option<URI>)
        ensures
            match r {
                Some(uri) => uri_of_path(path@) == Some(uri@),
                None => uri_of_path(path@) is None,
            },
    {
        let chars = to_chars(path);
        match uri_chars_of_path(&chars) {
            Some(u) => Some(URI::from_chars(&u)),
            None => None,
        }
    }

    /// The path that the URI stands for, if it is a file URI.
    pub fn to_file_path(&self) -> (r: Option<String>)
        ensures
            match r {
                Some(p) => file_path_of(self@) == Some(p@),
                None => file_path_of(self@) is None,
            },
    {
        let chars = to_chars(self.0.as_str());
        match file_path_chars(&chars) {
            Some(p) => Some(string_from_chars(p.as_slice())),
            None => None,
        }
    }

    /// The path of the URI: what follows `file://`, or the whole text of a
    /// URI that does not begin so.
    pub fn to_path_buf(&self) -> (p: String)
        ensures
            p@ == path_of(self@),
    {
        match self.to_file_path() {
            Some(p) => p,
            None => self.0.clone(),
        }
    }

    pub fn as_str(&self) -> (s: &str)
        ensures
            s@ == self@,
    {
        self.0.as_str()
    }

    /// The characters of the URI.
    pub fn chars(&self) -> (v: Vec<char>)
        ensures
            v@ == self@,
    {
        to_chars(self.0.as_str())
    }

    /// Whether two URIs have the same text.
    pub fn same_as(&self, other: &URI) -> (r: bool)
        ensures
            r == (self@ == other@),
    {
        self.0 == other.0
    }

    /// A copy of the URI.
    pub fn duplicate(&self) -> (copy: URI)
        ensures
            copy == *self,
    {
        URI(self.0.clone())
    }
}

} // verus!
