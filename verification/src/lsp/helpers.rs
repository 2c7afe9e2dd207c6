//! What the features share: the normal form of header text, the rule by
//! which a link's fragment names a header, and the extent of a header's
//! section.

use vstd::prelude::*;
use crate::config::{LinkConfig, LinkGenerationStyle};
use crate::document::references::{reference_views, Reference, ReferenceKind, ReferenceKindView, ReferenceView};
use crate::text::{opt_str_text, opt_text};
use crate::document::Document;
use crate::error::LspError;
use crate::lsp::link_resolver::{
    extract_filename_stem, filename_stem, opt_uri, opt_uri_ref, resolve_link, resolved_link,
};
use crate::lsp::server::{index_of, Server};
use crate::lsp_types::{Position, Range};
use crate::path::{
    find_relative_path, relative_link, strip_dir, text_result, under_dir, uri_result,
};
use crate::scan::{
    in_class, lemma_run_end, lemma_run_start, run_end, run_start, scan, scan_back, CharClass,
};
use crate::text::{
    char_is_alphanumeric, chars_eq, concat, is_alphanumeric, lowercase, str_eq, str_to_lowercase, string_from_chars,
    substring, to_chars,
};
use crate::text_buffer_conversions::{
    byte_slice_of, line_count, sliceable, span_of_range, TextBuffer, TextBufferConversions,
};
use crate::uri::{file_path_chars, file_path_of, URI};

verus! {

/// A character of header text as the normal form has it: letters and digits
/// stay, anything else becomes a dash.
pub open spec fn dash_or_keep(c: char) -> char {
    if is_alphanumeric(c) {
        c
    } else {
        '-'
    }
}

/// The text with every character that is no letter or digit replaced by a
/// dash.
pub open spec fn dashed(s: Seq<char>) -> Seq<char> {
    Seq::new(s.len(), |i: int| dash_or_keep(s[i]))
}

/// The text with every run of dashes cut down to a single dash.
pub open spec fn collapse_dashes(s: Seq<char>) -> Seq<char>
    decreases s.len(),
{
    if s.len() == 0 {
        s
    } else if s.len() >= 2 && s[s.len() - 1] == '-' && s[s.len() - 2] == '-' {
        collapse_dashes(s.drop_last())
    } else {
        collapse_dashes(s.drop_last()).push(s.last())
    }
}

/// The text without the dashes at its two ends.
pub open spec fn trim_dashes(s: Seq<char>) -> Seq<char> {
    let lo = run_end(s, 0, CharClass::Dash);
    let hi = run_start(s, lo, s.len() as int, CharClass::Dash);
    s.subrange(lo, hi)
}

/// The normal form of header text, once it is in lowercase.
pub open spec fn slug(lower: Seq<char>) -> Seq<char> {
    trim_dashes(collapse_dashes(dashed(lower)))
}

/// The normal form of header text: in lowercase, every character that is no
/// letter or digit turned into a dash, runs of dashes collapsed, and no dash
/// at either end.
pub open spec fn normalized_header(s: Seq<char>) -> Seq<char> {
    slug(lowercase(s))
}

/// Every character is a letter, a digit or a dash.
pub open spec fn only_alphanumeric_or_dash(s: Seq<char>) -> bool {
    forall|i: int| 0 <= i < s.len() ==> is_alphanumeric(#[trigger] s[i]) || s[i] == '-'
}

/// No dash follows a dash.
pub open spec fn no_double_dash(s: Seq<char>) -> bool {
    forall|i: int| 0 <= i && i + 1 < s.len() ==> !(#[trigger] s[i] == '-' && s[i + 1] == '-')
}

/// The text neither begins nor ends with a dash.
pub open spec fn no_edge_dash(s: Seq<char>) -> bool {
    s.len() > 0 ==> s[0] != '-' && s[s.len() - 1] != '-'
}

proof fn lemma_collapse_props(s: Seq<char>)
    ensures
        collapse_dashes(s).len() <= s.len(),
        s.len() > 0 ==> collapse_dashes(s).len() > 0 && collapse_dashes(s).last() == s.last(),
        no_double_dash(collapse_dashes(s)),
        only_alphanumeric_or_dash(s) ==> only_alphanumeric_or_dash(collapse_dashes(s)),
    decreases s.len(),
{
    if s.len() > 0 {
        let init = s.drop_last();
        lemma_collapse_props(init);
        let c = collapse_dashes(init);
        if s.len() >= 2 && s[s.len() - 1] == '-' && s[s.len() - 2] == '-' {
            assert(init.last() == s[s.len() - 2]);
        } else {
            let out = c.push(s.last());
            assert(collapse_dashes(s) == out);
            if init.len() > 0 {
                assert(init.last() == s[s.len() - 2]);
            }
            assert forall|i: int| 0 <= i && i + 1 < out.len() implies !(#[trigger] out[i] == '-'
                && out[i + 1] == '-') by {
                if i + 1 < c.len() {
                    assert(out[i] == c[i] && out[i + 1] == c[i + 1]);
                }
            }
            if only_alphanumeric_or_dash(s) {
                assert(only_alphanumeric_or_dash(init)) by {
                    assert forall|i: int| 0 <= i < init.len() implies is_alphanumeric(
                        #[trigger] init[i],
                    ) || init[i] == '-' by {
                        assert(init[i] == s[i]);
                    }
                }
                assert forall|i: int| 0 <= i < out.len() implies is_alphanumeric(#[trigger] out[i])
                    || out[i] == '-' by {
                    if i < c.len() {
                        assert(out[i] == c[i]);
                    } else {
                        assert(out[i] == s[s.len() - 1]);
                    }
                }
            }
        }
    }
}

proof fn lemma_collapse_fixed(s: Seq<char>)
    requires
        no_double_dash(s),
    ensures
        collapse_dashes(s) == s,
    decreases s.len(),
{
    if s.len() > 0 {
        let init = s.drop_last();
        assert(no_double_dash(init)) by {
            assert forall|i: int| 0 <= i && i + 1 < init.len() implies !(#[trigger] init[i] == '-'
                && init[i + 1] == '-') by {
                assert(init[i] == s[i] && init[i + 1] == s[i + 1]);
            }
        }
        lemma_collapse_fixed(init);
        if s.len() >= 2 {
            assert(!(s[s.len() - 2] == '-' && s[s.len() - 2 + 1] == '-'));
        }
        assert(init.push(s.last()) == s);
    }
}

proof fn lemma_dashed_fixed(s: Seq<char>)
    requires
        only_alphanumeric_or_dash(s),
    ensures
        dashed(s) == s,
{
    assert(dashed(s) =~= s);
}

proof fn lemma_trim_props(s: Seq<char>)
    ensures
        no_edge_dash(trim_dashes(s)),
        no_double_dash(s) ==> no_double_dash(trim_dashes(s)),
        only_alphanumeric_or_dash(s) ==> only_alphanumeric_or_dash(trim_dashes(s)),
{
    let lo = run_end(s, 0, CharClass::Dash);
    lemma_run_end(s, 0, CharClass::Dash);
    let hi = run_start(s, lo, s.len() as int, CharClass::Dash);
    lemma_run_start(s, lo, s.len() as int, CharClass::Dash);
    let t = s.subrange(lo, hi);
    if t.len() > 0 {
        assert(t[0] == s[lo]);
        assert(t[t.len() - 1] == s[hi - 1]);
    }
    if no_double_dash(s) {
        assert forall|i: int| 0 <= i && i + 1 < t.len() implies !(#[trigger] t[i] == '-' && t[i
            + 1] == '-') by {
            assert(t[i] == s[lo + i] && t[i + 1] == s[lo + i + 1]);
        }
    }
    if only_alphanumeric_or_dash(s) {
        assert forall|i: int| 0 <= i < t.len() implies is_alphanumeric(#[trigger] t[i]) || t[i]
            == '-' by {
            assert(t[i] == s[lo + i]);
        }
    }
}

proof fn lemma_trim_fixed(s: Seq<char>)
    requires
        no_edge_dash(s),
    ensures
        trim_dashes(s) == s,
{
    let lo = run_end(s, 0, CharClass::Dash);
    lemma_run_end(s, 0, CharClass::Dash);
    if s.len() > 0 {
        assert(lo == 0) by {
            if lo > 0 {
                assert(in_class(CharClass::Dash, s[0]));
            }
        }
        let hi = run_start(s, lo, s.len() as int, CharClass::Dash);
        lemma_run_start(s, lo, s.len() as int, CharClass::Dash);
        assert(hi == s.len()) by {
            if hi < s.len() {
                assert(in_class(CharClass::Dash, s[s.len() - 1]));
            }
        }
    }
    assert(trim_dashes(s) =~= s);
}

/// What every normal form looks like: letters, digits and single dashes,
/// with no dash at either end.
pub proof fn lemma_slug_shape(lower: Seq<char>)
    ensures
        only_alphanumeric_or_dash(slug(lower)),
        no_double_dash(slug(lower)),
        no_edge_dash(slug(lower)),
{
    let d = dashed(lower);
    assert(only_alphanumeric_or_dash(d));
    lemma_collapse_props(d);
    lemma_trim_props(collapse_dashes(d));
}

/// A text that already has the shape of a normal form is its own normal
/// form, lowercasing aside.
pub proof fn lemma_slug_fixed(s: Seq<char>)
    requires
        only_alphanumeric_or_dash(s),
        no_double_dash(s),
        no_edge_dash(s),
    ensures
        slug(s) == s,
{
    lemma_dashed_fixed(s);
    lemma_collapse_fixed(s);
    lemma_trim_fixed(s);
}

/// Once a text is in lowercase, normalizing its normal form changes nothing.
pub proof fn lemma_slug_idempotent(lower: Seq<char>)
    ensures
        slug(slug(lower)) == slug(lower),
{
    lemma_slug_shape(lower);
    lemma_slug_fixed(slug(lower));
}

/// Normalizing header text twice gives what normalizing it once gives,
/// whenever lowercasing leaves the normal form as it is.
pub proof fn lemma_normalize_header_idempotent(s: Seq<char>)
    requires
        lowercase(normalized_header(s)) == normalized_header(s),
    ensures
        normalized_header(normalized_header(s)) == normalized_header(s),
{
    lemma_slug_shape(lowercase(s));
    lemma_slug_fixed(normalized_header(s));
}

fn dash_map(s: &Vec<char>) -> (out: Vec<char>)
    ensures
        out@ == dashed(s@),
{
    let mut out: Vec<char> = Vec::new();
    let mut i: usize = 0;
    while i < s.len()
        invariant
            i <= s.len(),
            out@.len() == i,
            forall|k: int| 0 <= k < i ==> out@[k] == dash_or_keep(s@[k]),
        decreases s.len() - i,
    {
        let c = s[i];
        if char_is_alphanumeric(c) {
            out.push(c);
        } else {
            out.push('-');
        }
        i += 1;
    }
    proof {
        assert(out@ =~= dashed(s@));
    }
    out
}

fn collapse(s: &Vec<char>) -> (out: Vec<char>)
    ensures
        out@ == collapse_dashes(s@),
{
    let mut out: Vec<char> = Vec::new();
    let mut i: usize = 0;
    while i < s.len()
        invariant
            i <= s.len(),
            out@ == collapse_dashes(s@.take(i as int)),
        decreases s.len() - i,
    {
        proof {
            let next = s@.take(i + 1);
            assert(next.drop_last() == s@.take(i as int));
            assert(next.last() == s@[i as int]);
            if i >= 1 {
                assert(next[next.len() - 2] == s@[i - 1]);
            }
        }
        if !(i >= 1 && s[i] == '-' && s[i - 1] == '-') {
            out.push(s[i]);
        }
        i += 1;
    }
    proof {
        assert(s@.take(s.len() as int) == s@);
    }
    out
}

/// The normal form of a text that is already in lowercase.
pub fn slug_of(lower: &Vec<char>) -> (out: Vec<char>)
    ensures
        out@ == slug(lower@),
{
    let mapped = dash_map(lower);
    let collapsed = collapse(&mapped);
    let lo = scan(&collapsed, 0, CharClass::Dash);
    let hi = scan_back(&collapsed, lo, collapsed.len(), CharClass::Dash);
    let mut out: Vec<char> = Vec::new();
    let mut i: usize = lo;
    while i < hi
        invariant
            lo <= i <= hi <= collapsed.len(),
            out@ == collapsed@.subrange(lo as int, i as int),
        decreases hi - i,
    {
        out.push(collapsed[i]);
        i += 1;
    }
    out
}

/// The normal form of header text, as characters.
pub fn normalize_header_chars(content: &str) -> (out: Vec<char>)
    ensures
        out@ == normalized_header(content@),
{
    let lower = str_to_lowercase(content);
    let chars = to_chars(lower.as_str());
    slug_of(&chars)
}

/// Normalizes header content to the form that links use to name a header:
/// lowercase, with every run of characters that are no letters or digits
/// turned into one dash, and no dash at either end.
pub fn normalize_header_content(content: &str) -> (out: String)
    ensures
        out@ == normalized_header(content@),
{
    let chars = normalize_header_chars(content);
    string_from_chars(chars.as_slice())
}


/// Resolves a target path to a URI using configured link resolution strategy.
///
/// This supports:
/// - Filename-based resolution: "note" finds note.md anywhere in workspace
/// - Relative paths: "./folder/note.md"
/// - Absolute paths: "/docs/note.md" (from workspace root)
pub fn resolve_target_uri(lsp: &Server, document: &Document, target: &str) -> (r: Result<
    URI,
    LspError,
>)
    ensures
        uri_result(r) == resolved_target(lsp, document.uri@, target@),
{
    resolve_link(target, document, &lsp.config.links, &lsp.documents, lsp.root())
}

/// The document that a target names when it stands in the document
/// `source`, by the settings and the documents of the server.
pub open spec fn resolved_target(lsp: &Server, source: Seq<char>, target: Seq<char>) -> Result<
    Seq<char>,
    LspError,
> {
    resolved_link(
        target,
        source,
        lsp.config.links.enable_filename_resolution,
        lsp.documents.docs(),
        opt_uri(lsp.root),
    )
}

/// A fragment without the hash that it may begin with.
pub open spec fn strip_hash(fragment: Seq<char>) -> Seq<char> {
    if fragment.len() > 0 && fragment[0] == '#' {
        fragment.subrange(1, fragment.len() as int)
    } else {
        fragment
    }
}

/// Whether header text is what a target asks for: the two are equal, or
/// the target is the normal form of the header text, or the two have the
/// same normal form.
pub open spec fn header_matches(content: Seq<char>, target: Seq<char>) -> bool {
    content == target || normalized_header(content) == target || normalized_header(content)
        == normalized_header(target)
}

/// Whether a fragment names a header with the given text.
pub open spec fn fragment_names(content: Seq<char>, fragment: Seq<char>) -> bool {
    header_matches(content, strip_hash(fragment))
}

/// Takes the hash that a fragment may begin with off it.
pub fn strip_hash_prefix(fragment: &str) -> (out: String)
    ensures
        out@ == strip_hash(fragment@),
{
    let chars = to_chars(fragment);
    if chars.len() > 0 && chars[0] == '#' {
        substring(&chars, 1, chars.len())
    } else {
        string_from_chars(chars.as_slice())
    }
}

/// Whether header text is what a target asks for.
pub fn header_matches_target(content: &str, target: &str) -> (r: bool)
    ensures
        r == header_matches(content@, target@),
{
    if str_eq(content, target) {
        return true;
    }
    let normal = normalize_header_chars(content);
    let target_chars = to_chars(target);
    if chars_eq(&normal, &target_chars) {
        return true;
    }
    let normal_target = normalize_header_chars(target);
    chars_eq(&normal, &normal_target)
}

/// Whether a reference is a header with text that the target asks for.
pub open spec fn is_header_for(r: ReferenceView, target: Seq<char>) -> bool {
    match r.kind {
        ReferenceKindView::Header { content, .. } => header_matches(content, target),
        _ => false,
    }
}

/// The index of the first header, at or after `from`, with text that the
/// target asks for.
pub open spec fn first_header_for(refs: Seq<ReferenceView>, target: Seq<char>, from: int) -> Option<
    int,
>
    decreases refs.len() - from,
{
    if from < 0 || from >= refs.len() {
        None
    } else if is_header_for(refs[from], target) {
        Some(from)
    } else {
        first_header_for(refs, target, from + 1)
    }
}

/// Whether a reference is a header that closes a section of the given
/// level: a header of that level or of one above it.
pub open spec fn closes_section(r: ReferenceView, level: usize) -> bool {
    match r.kind {
        ReferenceKindView::Header { level: l, .. } => l <= level,
        _ => false,
    }
}

/// The index of the first header, at or after `from`, that closes a
/// section of the given level.
pub open spec fn section_close(refs: Seq<ReferenceView>, level: usize, from: int) -> Option<int>
    decreases refs.len() - from,
{
    if from < 0 || from >= refs.len() {
        None
    } else if closes_section(refs[from], level) {
        Some(from)
    } else {
        section_close(refs, level, from + 1)
    }
}

/// What `first_header_for` boils down to.
pub proof fn lemma_first_header_for(refs: Seq<ReferenceView>, target: Seq<char>, from: int)
    requires
        0 <= from,
    ensures
        match first_header_for(refs, target, from) {
            Some(i) => from <= i < refs.len() && is_header_for(refs[i], target) && forall|j: int|
                from <= j < i ==> !is_header_for(#[trigger] refs[j], target),
            None => forall|j: int|
                from <= j < refs.len() ==> !is_header_for(#[trigger] refs[j], target),
        },
    decreases refs.len() - from,
{
    if from < refs.len() && !is_header_for(refs[from], target) {
        lemma_first_header_for(refs, target, from + 1);
    }
}

/// The range of the section of the first header with text that the target
/// asks for. It begins where that header begins. It ends where the next
/// header of the same level or of one above it begins, and where no such
/// header follows, at the beginning of the line after the last.
pub open spec fn section_range(refs: Seq<ReferenceView>, target: Seq<char>, text: Seq<char>)
    -> Option<Range> {
    match first_header_for(refs, target, 0) {
        Some(i) => {
            let level = refs[i].kind->Header_level;
            Some(
                Range {
                    start: refs[i].range.start,
                    end: match section_close(refs, level, i + 1) {
                        Some(e) => refs[e].range.start,
                        None => Position { line: line_count(text) as usize, character: 0 },
                    },
                },
            )
        },
        None => None,
    }
}

/// The text that a range covers, where both its ends name a byte and the
/// bytes between them can be cut out of the text.
pub open spec fn text_in_range(text: Seq<char>, range: Range) -> Option<Seq<char>> {
    match span_of_range(text, range) {
        Some(span) => if sliceable(text, span.start as int, span.end as int) {
            Some(byte_slice_of(text, span.start as int, span.end as int))
        } else {
            None
        },
        None => None,
    }
}

/// The range that stands for "no range".
pub open spec fn empty_range() -> Range {
    Range { start: Position { line: 0, character: 0 }, end: Position { line: 0, character: 0 } }
}

/// The section of the header that `header` names, which may begin with a
/// hash: its text and its range. There is no text, and the range is empty,
/// where no header is so named or the range does not lie in the text.
pub open spec fn header_section(header: Seq<char>, refs: Seq<ReferenceView>, text: Seq<char>) -> (
    Option<Seq<char>>,
    Range,
) {
    match section_range(refs, strip_hash(header), text) {
        Some(range) => match text_in_range(text, range) {
            Some(t) => (Some(t), range),
            None => (None, empty_range()),
        },
        None => (None, empty_range()),
    }
}

/// Finds the first header, at or after `from`, with text that the target
/// asks for.
pub fn find_header(refs: &Vec<Reference>, target: &str, from: usize) -> (r: Option<usize>)
    ensures
        match r {
            Some(i) => first_header_for(reference_views(refs@), target@, from as int) == Some(
                i as int,
            ) && from <= i < refs.len() && refs@[i as int].kind is Header,
            None => first_header_for(reference_views(refs@), target@, from as int) is None,
        },
{
    let ghost views = reference_views(refs@);
    let mut i: usize = from;
    while i < refs.len()
        invariant
            from <= i,
            views == reference_views(refs@),
            first_header_for(views, target@, from as int) == first_header_for(
                views,
                target@,
                i as int,
            ),
        decreases refs.len() - i,
    {
        proof {
            assert(views[i as int] == refs@[i as int]@);
        }
        match &refs[i].kind {
            ReferenceKind::Header { content, .. } => {
                if header_matches_target(content.as_str(), target) {
                    return Some(i);
                }
            },
            _ => {},
        }
        i += 1;
    }
    None
}

fn find_section_close(refs: &Vec<Reference>, level: usize, from: usize) -> (r: Option<usize>)
    ensures
        match r {
            Some(i) => section_close(reference_views(refs@), level, from as int) == Some(i as int)
                && from <= i < refs.len(),
            None => section_close(reference_views(refs@), level, from as int) is None,
        },
{
    let ghost views = reference_views(refs@);
    let mut i: usize = from;
    while i < refs.len()
        invariant
            from <= i,
            views == reference_views(refs@),
            section_close(views, level, from as int) == section_close(views, level, i as int),
        decreases refs.len() - i,
    {
        proof {
            assert(views[i as int] == refs@[i as int]@);
        }
        match &refs[i].kind {
            ReferenceKind::Header { level: l, .. } => {
                if *l <= level {
                    return Some(i);
                }
            },
            _ => {},
        }
        i += 1;
    }
    None
}

/// Extracts the content of a header section from the provided references.
///
/// A header section includes all content from the target header until:
/// - The next header of the same or higher level (lower number)
/// - The end of the document
///
/// Examples:
/// - H1 section continues until the next H1 or end of file
/// - H2 section continues until the next H1 or H2
/// - H3 section continues until the next H1, H2, or H3
pub fn extract_header_section(header: &str, links: &Vec<Reference>, content: &TextBuffer) -> (r: (
    Option<String>,
    Range,
))
    ensures
        (opt_text(r.0), r.1) == header_section(header@, reference_views(links@), content@),
{
    let ghost views = reference_views(links@);
    let target = strip_hash_prefix(header);
    let start_index = match find_header(links, target.as_str(), 0) {
        Some(i) => i,
        None => {
            return (None, Range::default());
        },
    };
    proof {
        assert(views[start_index as int] == links@[start_index as int]@);
    }
    let level = match &links[start_index].kind {
        ReferenceKind::Header { level, .. } => *level,
        _ => 0,
    };
    let start = links[start_index].range.start;
    let end = match find_section_close(links, level, start_index + 1) {
        Some(e) => {
            proof {
                assert(views[e as int] == links@[e as int]@);
            }
            links[e].range.start
        },
        None => Position { line: content.len_lines(), character: 0 },
    };
    let range = Range { start, end };
    let span = match content.lsp_range_to_byte_range(&range) {
        Some(span) => span,
        None => {
            return (None, Range::default());
        },
    };
    match content.byte_slice(span.start, span.end) {
        Some(text) => (Some(text), range),
        None => (None, Range::default()),
    }
}

/// What a link shows of the document it points at: the section of the
/// header that the link names, if it names one and the document has it,
/// and else the whole text of the document.
pub open spec fn linked_content(lsp: &Server, source: Seq<char>, target: Seq<char>, header: Option<
    Seq<char>,
>) -> Result<Seq<char>, LspError> {
    match resolved_target(lsp, source, target) {
        Ok(uri) => match index_of(lsp.documents.docs(), uri) {
            Some(i) => {
                let doc = lsp.documents.docs()[i];
                match header {
                    Some(h) => match header_section(h, doc.reference_list(), doc.text()).0 {
                        Some(section) => Ok(section),
                        None => Ok(doc.text()),
                    },
                    None => Ok(doc.text()),
                }
            },
            None => Err(LspError::DocumentNotFound),
        },
        Err(e) => Err(e),
    }
}

/// Retrieves the content from a linked document based on the provided link data.
pub fn get_content(lsp: &Server, document: &Document, target: &str, header: Option<&str>) -> (r:
    Result<String, LspError>)
    ensures
        text_result(r) == linked_content(lsp, document.uri@, target@, opt_str_text(header)),
{
    let file_path = match resolve_target_uri(lsp, document, target) {
        Ok(uri) => uri,
        Err(e) => {
            return Err(e);
        },
    };
    let linked = match lsp.documents.get_document(&file_path) {
        Some(d) => d,
        None => {
            return Err(LspError::DocumentNotFound);
        },
    };
    let header_target = match header {
        Some(h) => h,
        None => {
            return Ok(linked.content.to_string());
        },
    };
    let (extracted, _range) = extract_header_section(
        header_target,
        &linked.references,
        &linked.content,
    );
    match extracted {
        Some(content) => Ok(content),
        None => Ok(linked.content.to_string()),
    }
}

/// The path of a document as seen from the root of the workspace: a
/// slash, and what is left of the document's path once the root's path is
/// taken off its front. There is none where one of the two is no file URI
/// or the document does not lie under the root.
pub open spec fn absolute_link(root: Seq<char>, target: Seq<char>) -> Result<Seq<char>, LspError> {
    match (file_path_of(root), file_path_of(target)) {
        (Some(root_path), Some(target_path)) => match under_dir(target_path, root_path) {
            Some(rest) => Ok(seq!['/'] + rest),
            None => Err(LspError::ResolutionFailed),
        },
        _ => Err(LspError::ResolutionFailed),
    }
}

/// Generate absolute path from workspace root
pub fn generate_absolute_path(root: &URI, target: &URI) -> (r: Result<String, LspError>)
    ensures
        text_result(r) == absolute_link(root@, target@),
{
    let root_path = match file_path_chars(&root.chars()) {
        Some(p) => p,
        None => {
            return Err(LspError::ResolutionFailed);
        },
    };
    let target_path = match file_path_chars(&target.chars()) {
        Some(p) => p,
        None => {
            return Err(LspError::ResolutionFailed);
        },
    };
    match strip_dir(&target_path, &root_path) {
        Some(rest) => {
            let mut slash: Vec<char> = Vec::new();
            slash.push('/');
            proof {
                assert(slash@ =~= seq!['/']);
            }
            let out = concat(&slash, &rest);
            Ok(string_from_chars(out.as_slice()))
        },
        None => Err(LspError::ResolutionFailed),
    }
}

/// The text by which a link in the document `source` names the document
/// `target`, in the given style: the stem of the target's file name, the
/// relative path to it, or its path from the root of the workspace. Where
/// there is no root, the relative path stands in for the path from the
/// root.
pub open spec fn link_text(
    style: LinkGenerationStyle,
    source: Seq<char>,
    target: Seq<char>,
    root: Option<Seq<char>>,
) -> Result<Seq<char>, LspError> {
    match style {
        LinkGenerationStyle::Filename => match filename_stem(target) {
            Some(stem) => Ok(stem),
            None => Err(LspError::ResolutionFailed),
        },
        LinkGenerationStyle::Relative => relative_link(source, target),
        LinkGenerationStyle::Absolute => match root {
            Some(r) => absolute_link(r, target),
            None => relative_link(source, target),
        },
    }
}

/// Generate link text for a target document based on configuration
pub fn generate_link_text(
    config: &LinkConfig,
    source_uri: &URI,
    target_uri: &URI,
    workspace_root: Option<&URI>,
) -> (r: Result<String, LspError>)
    ensures
        text_result(r) == link_text(
            config.generation_style,
            source_uri@,
            target_uri@,
            opt_uri_ref(workspace_root),
        ),
{
    match config.generation_style {
        LinkGenerationStyle::Filename => match extract_filename_stem(target_uri) {
            Some(stem) => Ok(stem),
            None => Err(LspError::ResolutionFailed),
        },
        LinkGenerationStyle::Relative => find_relative_path(source_uri, target_uri),
        LinkGenerationStyle::Absolute => match workspace_root {
            Some(root) => generate_absolute_path(root, target_uri),
            None => find_relative_path(source_uri, target_uri),
        },
    }
}

} // verus!
