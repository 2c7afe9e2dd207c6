//! Paths as texts: parents, file names, joining and normalizing, and the
//! relative path from one document to another.

use vstd::prelude::*;
use crate::error::LspError;
use crate::text::opt_text;
use crate::text::{concat, has_prefix, matches_at, string_from_chars, to_chars};
use crate::uri::{
    file_path_chars, file_path_of, path_of, uri_chars_of_path, uri_of_path, URI,
};

verus! {

/// The index of the last `c` in `s`, or -1 if there is none.
pub open spec fn last_index_of(s: Seq<char>, c: char) -> int
    decreases s.len(),
{
    if s.len() == 0 {
        -1
    } else if s.last() == c {
        s.len() - 1
    } else {
        last_index_of(s.drop_last(), c)
    }
}

/// What `last_index_of` boils down to.
pub proof fn lemma_last_index_of(s: Seq<char>, c: char)
    ensures
        -1 <= last_index_of(s, c) < s.len(),
        last_index_of(s, c) >= 0 ==> s[last_index_of(s, c)] == c,
        forall|k: int| last_index_of(s, c) < k < s.len() ==> s[k] != c,
    decreases s.len(),
{
    if s.len() > 0 && s.last() != c {
        lemma_last_index_of(s.drop_last(), c);
        assert forall|k: int| last_index_of(s, c) < k < s.len() implies s[k] != c by {
            if k < s.len() - 1 {
                assert(s.drop_last()[k] == s[k]);
            }
        }
    }
}

/// Finds the last `c` in `s`.
pub fn find_last(s: &Vec<char>, c: char) -> (r: Option<usize>)
    ensures
        match r {
            Some(k) => k == last_index_of(s@, c),
            None => last_index_of(s@, c) == -1,
        },
{
    let mut i: usize = s.len();
    proof {
        assert(s@.take(s.len() as int) == s@);
    }
    while i > 0
        invariant
            i <= s.len(),
            last_index_of(s@, c) == last_index_of(s@.take(i as int), c),
        decreases i,
    {
        proof {
            assert(s@.take(i as int).drop_last() == s@.take(i - 1));
            assert(s@.take(i as int).last() == s@[i - 1]);
        }
        if s[i - 1] == c {
            return Some(i - 1);
        }
        i -= 1;
    }
    None
}

/// The directory that a path lies in: what comes before its last slash,
/// and `/` for a path with no slash but a leading one, or with none at
/// all.
pub open spec fn parent_of(path: Seq<char>) -> Seq<char> {
    let k = last_index_of(path, '/');
    if k <= 0 {
        seq!['/']
    } else {
        path.subrange(0, k)
    }
}

/// The name of the file that a path ends in: what follows its last slash.
/// A path that ends in a slash or in `..` names no file.
pub open spec fn file_name_of(path: Seq<char>) -> Option<Seq<char>> {
    let name = path.subrange(last_index_of(path, '/') + 1, path.len() as int);
    if name.len() == 0 || name == seq!['.', '.'] {
        None
    } else {
        Some(name)
    }
}

/// The stem of a file name: what comes before its last dot. A name with
/// no dot, or with none but a leading one, is its own stem.
pub open spec fn stem_of(name: Seq<char>) -> Seq<char> {
    let d = last_index_of(name, '.');
    if d <= 0 {
        name
    } else {
        name.subrange(0, d)
    }
}

/// The extension of a file name: what follows its last dot. A name with
/// no dot, or with none but a leading one, has no extension.
pub open spec fn extension_of(name: Seq<char>) -> Option<Seq<char>> {
    let d = last_index_of(name, '.');
    if d <= 0 {
        None
    } else {
        Some(name.subrange(d + 1, name.len() as int))
    }
}

/// Whether a path names a note: a file with the extension `md`.
pub open spec fn names_note(path: Seq<char>) -> bool {
    match file_name_of(path) {
        Some(name) => extension_of(name) == Some(seq!['m', 'd']),
        None => false,
    }
}

/// The stem of the file that a path ends in.
pub open spec fn file_stem_of(path: Seq<char>) -> Option<Seq<char>> {
    match file_name_of(path) {
        Some(name) => Some(stem_of(name)),
        None => None,
    }
}

fn copy_range(s: &Vec<char>, from: usize, to: usize) -> (out: Vec<char>)
    requires
        from <= to <= s.len(),
    ensures
        out@ == s@.subrange(from as int, to as int),
{
    let mut out: Vec<char> = Vec::new();
    let mut i: usize = from;
    while i < to
        invariant
            from <= i <= to <= s.len(),
            out@ == s@.subrange(from as int, i as int),
        decreases to - i,
    {
        out.push(s[i]);
        i += 1;
    }
    out
}

/// The directory that a path lies in.
pub fn parent_chars(path: &Vec<char>) -> (out: Vec<char>)
    ensures
        out@ == parent_of(path@),
{
    match find_last(path, '/') {
        Some(k) => {
            if k == 0 {
                let mut out: Vec<char> = Vec::new();
                out.push('/');
                proof {
                    assert(out@ =~= seq!['/']);
                }
                out
            } else {
                proof {
                    lemma_last_index_of(path@, '/');
                }
                copy_range(path, 0, k)
            }
        },
        None => {
            let mut out: Vec<char> = Vec::new();
            out.push('/');
            proof {
                assert(out@ =~= seq!['/']);
            }
            out
        },
    }
}

/// The name of the file that a path ends in.
pub fn file_name_chars(path: &Vec<char>) -> (r: Option<Vec<char>>)
    ensures
        match r {
            Some(name) => file_name_of(path@) == Some(name@),
            None => file_name_of(path@) is None,
        },
{
    proof {
        lemma_last_index_of(path@, '/');
    }
    let len = path.len();
    let start = match find_last(path, '/') {
        Some(k) => {
            assert(k < len);
            k + 1
        },
        None => 0,
    };
    let name = copy_range(path, start, path.len());
    if name.len() == 0 {
        return None;
    }
    if name.len() == 2 && name[0] == '.' && name[1] == '.' {
        proof {
            assert(name@ =~= seq!['.', '.']);
        }
        return None;
    }
    proof {
        if name@ == seq!['.', '.'] {
            assert(name@.len() == 2);
            assert(name@[0] == '.');
            assert(name@[1] == '.');
        }
    }
    Some(name)
}

/// The stem of a file name.
pub fn stem_chars(name: &Vec<char>) -> (out: Vec<char>)
    ensures
        out@ == stem_of(name@),
{
    proof {
        lemma_last_index_of(name@, '.');
    }
    match find_last(name, '.') {
        Some(d) => {
            if d == 0 {
                let out = copy_range(name, 0, name.len());
                proof {
                    assert(out@ =~= name@);
                }
                out
            } else {
                copy_range(name, 0, d)
            }
        },
        None => {
            let out = copy_range(name, 0, name.len());
            proof {
                assert(out@ =~= name@);
            }
            out
        },
    }
}

/// Tells whether a path names a note, that is, a file with the extension
/// `md`. A workspace is made of such files.
pub fn is_markdown_path(path: &str) -> (r: bool)
    ensures
        r == names_note(path@),
{
    let chars = to_chars(path);
    let name = match file_name_chars(&chars) {
        Some(name) => name,
        None => {
            return false;
        },
    };
    proof {
        lemma_last_index_of(name@, '.');
    }
    let len = name.len();
    match find_last(&name, '.') {
        Some(d) => {
            if d == 0 {
                return false;
            }
            assert(d < len);
            let extension = copy_range(&name, d + 1, name.len());
            if extension.len() == 2 && extension[0] == 'm' && extension[1] == 'd' {
                proof {
                    assert(extension@ =~= seq!['m', 'd']);
                }
                true
            } else {
                proof {
                    if extension@ == seq!['m', 'd'] {
                        assert(extension@.len() == 2);
                        assert(extension@[0] == 'm');
                        assert(extension@[1] == 'd');
                    }
                }
                false
            }
        },
        None => false,
    }
}

/// The directory of a document: the parent of the path of its URI.
pub fn get_parent_path(uri: &URI) -> (r: Option<String>)
    ensures
        r is Some,
        r->0@ == parent_of(path_of(uri@)),
{
    let chars = uri.chars();
    let path = match file_path_chars(&chars) {
        Some(p) => p,
        None => chars,
    };
    let parent = parent_chars(&path);
    Some(string_from_chars(parent.as_slice()))
}

/// A path joined to a base: the path itself where it is absolute, and else
/// the base, a slash unless the base ends in one, and the path.
pub open spec fn joined(base: Seq<char>, rel: Seq<char>) -> Seq<char> {
    if rel.len() > 0 && rel[0] == '/' {
        rel
    } else if base.len() > 0 && base.last() == '/' {
        base + rel
    } else {
        base + seq!['/'] + rel
    }
}

/// Joins a path to a base.
pub fn join_chars(base: &Vec<char>, rel: &Vec<char>) -> (out: Vec<char>)
    ensures
        out@ == joined(base@, rel@),
{
    if rel.len() > 0 && rel[0] == '/' {
        let out = copy_range(rel, 0, rel.len());
        proof {
            assert(out@ =~= rel@);
        }
        out
    } else if base.len() > 0 && base[base.len() - 1] == '/' {
        concat(base, rel)
    } else {
        let mut with_slash = copy_range(base, 0, base.len());
        with_slash.push('/');
        proof {
            assert(with_slash@ =~= base@ + seq!['/']);
        }
        concat(&with_slash, rel)
    }
}

/// The components of a path: the texts between its slashes.
pub open spec fn components(p: Seq<char>) -> Seq<Seq<char>>
    decreases p.len(),
{
    if p.len() == 0 {
        seq![Seq::empty()]
    } else {
        let init = components(p.drop_last());
        if p.last() == '/' {
            init.push(Seq::empty())
        } else if init.len() > 0 {
            init.update(init.len() - 1, init.last().push(p.last()))
        } else {
            init
        }
    }
}

/// The components that are left once `.` and `..` have had their effect:
/// empty components and `.` go, and `..` takes the component before it
/// along, if there is one.
pub open spec fn resolve_dots(comps: Seq<Seq<char>>) -> Seq<Seq<char>>
    decreases comps.len(),
{
    if comps.len() == 0 {
        seq![]
    } else {
        let acc = resolve_dots(comps.drop_last());
        let c = comps.last();
        if c.len() == 0 || c == seq!['.'] {
            acc
        } else if c == seq!['.', '.'] {
            if acc.len() > 0 {
                acc.drop_last()
            } else {
                acc
            }
        } else {
            acc.push(c)
        }
    }
}

/// The components, each after a slash.
pub open spec fn slash_joined(comps: Seq<Seq<char>>) -> Seq<char>
    decreases comps.len(),
{
    if comps.len() == 0 {
        seq![]
    } else {
        slash_joined(comps.drop_last()) + seq!['/'] + comps.last()
    }
}

/// The absolute path without `.`, `..` and doubled slashes that a path
/// comes down to.
pub open spec fn normalized_path(p: Seq<char>) -> Seq<char> {
    let kept = resolve_dots(components(p));
    if kept.len() == 0 {
        seq!['/']
    } else {
        slash_joined(kept)
    }
}

/// The texts of a list of character vectors.
pub open spec fn texts(v: Seq<Vec<char>>) -> Seq<Seq<char>> {
    Seq::new(v.len(), |i: int| v[i]@)
}

fn split_components(p: &Vec<char>) -> (out: Vec<Vec<char>>)
    ensures
        texts(out@) == components(p@),
{
    let mut done: Vec<Vec<char>> = Vec::new();
    let mut cur: Vec<char> = Vec::new();
    let mut i: usize = 0;
    proof {
        assert(p@.take(0) =~= Seq::empty());
        assert(texts(done@).push(cur@) =~= seq![Seq::<char>::empty()]);
    }
    while i < p.len()
        invariant
            i <= p.len(),
            components(p@.take(i as int)) == texts(done@).push(cur@),
        decreases p.len() - i,
    {
        let c = p[i];
        let ghost before = texts(done@);
        let ghost cur_before = cur@;
        proof {
            let next = p@.take(i + 1);
            assert(next.drop_last() == p@.take(i as int));
            assert(next.last() == c);
        }
        if c == '/' {
            done.push(cur);
            cur = Vec::new();
            proof {
                assert(texts(done@) =~= before.push(cur_before));
            }
        } else {
            cur.push(c);
            proof {
                let init = before.push(cur_before);
                assert(init.update(init.len() - 1, init.last().push(c)) =~= before.push(cur@));
            }
        }
        i += 1;
    }
    let ghost before = texts(done@);
    done.push(cur);
    proof {
        assert(p@.take(p.len() as int) == p@);
        assert(texts(done@) =~= before.push(cur@));
    }
    done
}

/// The components that a list of indices picks.
pub open spec fn picked(comps: Seq<Seq<char>>, kept: Seq<usize>) -> Seq<Seq<char>> {
    Seq::new(kept.len(), |j: int| comps[kept[j] as int])
}

fn is_dot(c: &Vec<char>) -> (r: bool)
    ensures
        r == (c@ == seq!['.']),
{
    if c.len() == 1 && c[0] == '.' {
        proof {
            assert(c@ =~= seq!['.']);
        }
        true
    } else {
        proof {
            if c@ == seq!['.'] {
                assert(c@.len() == 1);
                assert(c@[0] == '.');
            }
        }
        false
    }
}

fn is_dot_dot(c: &Vec<char>) -> (r: bool)
    ensures
        r == (c@ == seq!['.', '.']),
{
    if c.len() == 2 && c[0] == '.' && c[1] == '.' {
        proof {
            assert(c@ =~= seq!['.', '.']);
        }
        true
    } else {
        proof {
            if c@ == seq!['.', '.'] {
                assert(c@.len() == 2);
                assert(c@[0] == '.');
                assert(c@[1] == '.');
            }
        }
        false
    }
}

/// Normalizes a path: makes of it an absolute path without `.`, `..` and
/// doubled slashes.
pub fn normalize_chars(p: &Vec<char>) -> (out: Vec<char>)
    ensures
        out@ == normalized_path(p@),
{
    let comps = split_components(p);
    let ghost all = texts(comps@);
    let mut kept: Vec<usize> = Vec::new();
    let mut i: usize = 0;
    proof {
        assert(all.take(0) =~= Seq::empty());
        assert(picked(all, kept@) =~= resolve_dots(all.take(0)));
    }
    while i < comps.len()
        invariant
            i <= comps.len(),
            all == texts(comps@),
            forall|j: int| 0 <= j < kept@.len() ==> #[trigger] kept@[j] < comps.len(),
            picked(all, kept@) == resolve_dots(all.take(i as int)),
        decreases comps.len() - i,
    {
        let ghost before = picked(all, kept@);
        proof {
            let next = all.take(i + 1);
            assert(next.drop_last() == all.take(i as int));
            assert(next.last() == comps@[i as int]@);
        }
        let c = &comps[i];
        if c.len() == 0 || is_dot(c) {
        } else if is_dot_dot(c) {
            if kept.len() > 0 {
                kept.pop();
                proof {
                    assert(picked(all, kept@) =~= before.drop_last());
                }
            }
        } else {
            kept.push(i);
            proof {
                assert(picked(all, kept@) =~= before.push(all[i as int]));
            }
        }
        i += 1;
    }
    proof {
        assert(all.take(comps.len() as int) == all);
    }
    let ghost resolved = picked(all, kept@);
    let mut out: Vec<char> = Vec::new();
    if kept.len() == 0 {
        out.push('/');
        proof {
            assert(out@ =~= seq!['/']);
        }
        return out;
    }
    let mut j: usize = 0;
    proof {
        assert(resolved.take(0) =~= Seq::empty());
    }
    while j < kept.len()
        invariant
            j <= kept.len(),
            all == texts(comps@),
            resolved == picked(all, kept@),
            forall|k: int| 0 <= k < kept@.len() ==> #[trigger] kept@[k] < comps.len(),
            out@ == slash_joined(resolved.take(j as int)),
        decreases kept.len() - j,
    {
        let c = &comps[kept[j]];
        let ghost so_far = out@;
        proof {
            let next = resolved.take(j + 1);
            assert(next.drop_last() == resolved.take(j as int));
            assert(next.last() == c@);
        }
        out.push('/');
        let mut k: usize = 0;
        while k < c.len()
            invariant
                k <= c.len(),
                out@ == so_far + seq!['/'] + c@.take(k as int),
            decreases c.len() - k,
        {
            out.push(c[k]);
            proof {
                assert(c@.take(k + 1) == c@.take(k as int).push(c@[k as int]));
            }
            k += 1;
        }
        proof {
            assert(c@.take(c.len() as int) == c@);
        }
        j += 1;
    }
    proof {
        assert(resolved.take(kept.len() as int) == resolved);
    }
    out
}

/// The URI that a target names when it is read as a path from the
/// directory of a source document: the target joined to the directory and
/// normalized. A source that is no file URI has no directory.
pub open spec fn combined(source: Seq<char>, target: Seq<char>) -> Result<Seq<char>, LspError> {
    match file_path_of(source) {
        Some(path) => match uri_of_path(normalized_path(joined(parent_of(path), target))) {
            Some(uri) => Ok(uri),
            None => Err(LspError::ResolutionFailed),
        },
        None => Err(LspError::ResolutionFailed),
    }
}

/// The texts of a result.
pub open spec fn uri_result(r: Result<URI, LspError>) -> Result<Seq<char>, LspError> {
    match r {
        Ok(uri) => Ok(uri@),
        Err(e) => Err(e),
    }
}

/// Reads `target` as a path from the directory of the document `source`
/// and gives the URI that it names, `.` and `..` resolved.
pub fn combine_and_normalize(source: &URI, target: &str) -> (r: Result<URI, LspError>)
    ensures
        uri_result(r) == combined(source@, target@),
{
    let source_chars = source.chars();
    let path = match file_path_chars(&source_chars) {
        Some(p) => p,
        None => {
            return Err(LspError::ResolutionFailed);
        },
    };
    let parent = parent_chars(&path);
    let target_chars = to_chars(target);
    let full = join_chars(&parent, &target_chars);
    let normal = normalize_chars(&full);
    match uri_chars_of_path(&normal) {
        Some(uri) => Ok(URI::from_chars(&uri)),
        None => Err(LspError::ResolutionFailed),
    }
}


/// The relative path that leads from the directory `base` to `path`, where
/// there is one.
pub uninterp spec fn relative_to(path: Seq<char>, base: Seq<char>) -> Option<Seq<char>>;

/// Trusted: `pathdiff::diff_paths`, with its result turned into text. The
/// result depends on the two paths alone; the contract names it and claims
/// nothing else about it.
#[verifier::external_body]
fn diff_paths(path: &str, base: &str) -> (r: Option<String>)
    ensures
        opt_text(r) == relative_to(path@, base@),
{
    match pathdiff::diff_paths(path, base) {
        Some(p) => Some(p.to_string_lossy().into_owned()),
        None => None,
    }
}

/// The directory that a path lies in. The root and the empty path lie in
/// none; a path without a slash lies in the empty directory.
pub open spec fn dir_of(path: Seq<char>) -> Option<Seq<char>> {
    let k = last_index_of(path, '/');
    if path.len() == 0 || path == seq!['/'] {
        None
    } else if k < 0 {
        Some(Seq::empty())
    } else if k == 0 {
        Some(seq!['/'])
    } else {
        Some(path.subrange(0, k))
    }
}

fn dir_chars(path: &Vec<char>) -> (r: Option<Vec<char>>)
    ensures
        match r {
            Some(d) => dir_of(path@) == Some(d@),
            None => dir_of(path@) is None,
        },
{
    if path.len() == 0 {
        return None;
    }
    if path.len() == 1 && path[0] == '/' {
        proof {
            assert(path@ =~= seq!['/']);
        }
        return None;
    }
    proof {
        lemma_last_index_of(path@, '/');
        if path@ == seq!['/'] {
            assert(path@.len() == 1);
            assert(path@[0] == '/');
        }
    }
    match find_last(path, '/') {
        Some(k) => {
            if k == 0 {
                let mut out: Vec<char> = Vec::new();
                out.push('/');
                proof {
                    assert(out@ =~= seq!['/']);
                }
                Some(out)
            } else {
                Some(copy_range(path, 0, k))
            }
        },
        None => Some(Vec::new()),
    }
}

/// A relative path as links write it: `./` for the empty path, and `./`
/// before a path that begins neither with a dot nor with a slash.
pub open spec fn dotted(rel: Seq<char>) -> Seq<char> {
    if rel.len() == 0 {
        seq!['.', '/']
    } else if rel[0] != '.' && rel[0] != '/' {
        seq!['.', '/'] + rel
    } else {
        rel
    }
}

/// Writes a relative path as links write it.
pub fn dotted_path(rel: &str) -> (out: String)
    ensures
        out@ == dotted(rel@),
{
    let chars = to_chars(rel);
    let mut prefix: Vec<char> = Vec::new();
    prefix.push('.');
    prefix.push('/');
    proof {
        assert(prefix@ =~= seq!['.', '/']);
    }
    if chars.len() == 0 {
        string_from_chars(prefix.as_slice())
    } else if chars[0] != '.' && chars[0] != '/' {
        let out = concat(&prefix, &chars);
        string_from_chars(out.as_slice())
    } else {
        string_from_chars(chars.as_slice())
    }
}

/// The relative path, as links write it, that leads from the directory of
/// the document `source` to the document `target`. There is none where one
/// of the two is no file URI, where the source lies in no directory, or
/// where no relative path leads from the one to the other.
pub open spec fn relative_link(source: Seq<char>, target: Seq<char>) -> Result<
    Seq<char>,
    LspError,
> {
    match (file_path_of(source), file_path_of(target)) {
        (Some(source_path), Some(target_path)) => match dir_of(source_path) {
            Some(base) => match relative_to(target_path, base) {
                Some(rel) => Ok(dotted(rel)),
                None => Err(LspError::ResolutionFailed),
            },
            None => Err(LspError::ResolutionFailed),
        },
        _ => Err(LspError::ResolutionFailed),
    }
}

/// The text of a result.
pub open spec fn text_result(r: Result<String, LspError>) -> Result<Seq<char>, LspError> {
    match r {
        Ok(s) => Ok(s@),
        Err(e) => Err(e),
    }
}

/// Finds the relative path that leads from the directory of one document
/// to another document.
pub fn find_relative_path(source: &URI, target: &URI) -> (r: Result<String, LspError>)
    ensures
        text_result(r) == relative_link(source@, target@),
{
    let source_path = match file_path_chars(&source.chars()) {
        Some(p) => p,
        None => {
            return Err(LspError::ResolutionFailed);
        },
    };
    let target_path = match file_path_chars(&target.chars()) {
        Some(p) => p,
        None => {
            return Err(LspError::ResolutionFailed);
        },
    };
    let base = match dir_chars(&source_path) {
        Some(d) => d,
        None => {
            return Err(LspError::ResolutionFailed);
        },
    };
    let target_text = string_from_chars(target_path.as_slice());
    let base_text = string_from_chars(base.as_slice());
    match diff_paths(target_text.as_str(), base_text.as_str()) {
        Some(rel) => Ok(dotted_path(rel.as_str())),
        None => Err(LspError::ResolutionFailed),
    }
}

/// What is left of a path once the directory it lies under is taken off
/// its front, and the slash after it. There is nothing left to speak of
/// where the path does not lie under the directory.
pub open spec fn under_dir(path: Seq<char>, dir: Seq<char>) -> Option<Seq<char>> {
    if !has_prefix(path, dir) {
        None
    } else if dir.len() > 0 && dir.last() == '/' {
        Some(path.subrange(dir.len() as int, path.len() as int))
    } else if path.len() == dir.len() {
        Some(Seq::empty())
    } else if path[dir.len() as int] == '/' {
        Some(path.subrange(dir.len() as int + 1, path.len() as int))
    } else {
        None
    }
}

/// Takes the directory that a path lies under off its front.
pub fn strip_dir(path: &Vec<char>, dir: &Vec<char>) -> (r: Option<Vec<char>>)
    ensures
        match r {
            Some(rest) => under_dir(path@, dir@) == Some(rest@),
            None => under_dir(path@, dir@) is None,
        },
{
    if !matches_at(path, 0, dir) {
        return None;
    }
    if dir.len() > 0 && dir[dir.len() - 1] == '/' {
        Some(copy_range(path, dir.len(), path.len()))
    } else if path.len() == dir.len() {
        Some(Vec::new())
    } else if path[dir.len()] == '/' {
        Some(copy_range(path, dir.len() + 1, path.len()))
    } else {
        None
    }
}

} // verus!
