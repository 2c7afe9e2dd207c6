//! Completions: documents to link to, after `[[` and `](`, and headers to
//! name, after the `#` of a link.

use vstd::prelude::*;
use crate::document::references::{
    reference_views, Reference, ReferenceKind, ReferenceKindView, ReferenceView,
};
use crate::document::Document;
use crate::error::LspError;
use crate::lsp::helpers::{
    generate_link_text, link_text, normalize_header_chars, normalized_header, resolve_target_uri,
    resolved_target,
};
use crate::lsp::link_resolver::opt_uri;
use crate::lsp::server::{index_of, Server};
use crate::lsp_types::{
    completion_views, CompletionItem, CompletionItemKind, CompletionItemLabelDetails,
    CompletionItemView, CompletionParams, CompletionTriggerKind, LabelDetailsView, Position,
};
use crate::parser::markdown::{char_at, pair_at};
use crate::parser::Source;
use crate::text::{
    byte_len, char_of_byte, decimal, decimal_chars, find_first, first_index_of, push_chars,
    is_boundary, opt_text, push_str, replace_char, replaced, str_to_uppercase, string_from_chars,
    substring, to_chars, uppercase,
};
use crate::text_buffer_conversions::{byte_of_position, TextBufferConversions};

verus! {

/// What stands before the cursor and asks for completions.
#[derive(Debug, Clone, Copy, PartialEq, Eq, Structural)]
pub enum Trigger {
    /// `[[`: the target of a wiki link is to follow.
    WikiLink,
    /// `](`: the address of a link is to follow.
    InlineLink,
    /// `#`: the fragment of a link is to follow.
    Fragment,
    /// Anything else.
    Nothing,
}

/// What stands before the character with index `c` and asks for
/// completions.
pub open spec fn trigger_before(text: Seq<char>, c: int) -> Trigger {
    if pair_at(text, c - 2, '[', '[') {
        Trigger::WikiLink
    } else if pair_at(text, c - 2, ']', '(') {
        Trigger::InlineLink
    } else if char_at(text, c - 1, '#') {
        Trigger::Fragment
    } else {
        Trigger::Nothing
    }
}

fn find_trigger(chars: &Vec<char>, c: usize) -> (t: Trigger)
    requires
        c <= chars.len(),
    ensures
        t == trigger_before(chars@, c as int),
{
    if c >= 2 && chars[c - 2] == '[' && chars[c - 1] == '[' {
        Trigger::WikiLink
    } else if c >= 2 && chars[c - 2] == ']' && chars[c - 1] == '(' {
        Trigger::InlineLink
    } else if c >= 1 && chars[c - 1] == '#' {
        Trigger::Fragment
    } else {
        Trigger::Nothing
    }
}

/// Where the first lines of a text end, `lines` of them at most, looking
/// from index `from`: before the line feed that ends the last of them, or
/// at the end of the text, before the line feed that the text may end in.
pub open spec fn lines_end(text: Seq<char>, from: int, lines: nat) -> int
    decreases text.len() - from,
{
    if from < 0 || from >= text.len() {
        if text.len() > 0 && text.last() == '\n' {
            text.len() - 1
        } else {
            text.len() as int
        }
    } else if text[from] == '\n' && lines <= 1 {
        from
    } else if text[from] == '\n' {
        lines_end(text, from + 1, (lines - 1) as nat)
    } else {
        lines_end(text, from + 1, lines)
    }
}

/// The first ten lines of a text.
pub open spec fn preview(text: Seq<char>) -> Seq<char> {
    text.subrange(0, lines_end(text, 0, 10))
}

fn preview_chars(text: &Vec<char>) -> (out: Vec<char>)
    ensures
        out@ == preview(text@),
{
    let mut i: usize = 0;
    let mut lines: usize = 10;
    let mut end: usize = text.len();
    let mut found = false;
    while i < text.len()
        invariant_except_break
            1 <= lines <= 10,
            !found,
            lines_end(text@, 0, 10) == lines_end(text@, i as int, lines as nat),
        invariant
            i <= text.len(),
        ensures
            found ==> end == lines_end(text@, 0, 10) && end <= text.len(),
            !found ==> i == text.len() && lines_end(text@, 0, 10) == lines_end(
                text@,
                i as int,
                lines as nat,
            ),
        decreases text.len() - i,
    {
        if text[i] == '\n' {
            if lines <= 1 {
                end = i;
                found = true;
                break ;
            }
            lines -= 1;
        }
        i += 1;
    }
    if !found {
        end = if text.len() > 0 && text[text.len() - 1] == '\n' {
            text.len() - 1
        } else {
            text.len()
        };
    }
    let mut out: Vec<char> = Vec::new();
    let mut k: usize = 0;
    while k < end
        invariant
            k <= end <= text.len(),
            out@ == text@.subrange(0, k as int),
        decreases end - k,
    {
        out.push(text[k]);
        k += 1;
    }
    out
}

/// What is shown of a document that a completion stands for: its name and
/// its first lines.
pub open spec fn file_documentation(name: Seq<char>, text: Seq<char>) -> Seq<char> {
    "Preview of "@ + name + ":\n\n```markdown\n"@ + preview(text) + "\n```"@
}

/// What a completion puts in for a document. In a wiki link, the name and
/// the brackets that close the link. In a link, the name with `%20` for
/// every space, and the bracket that closes the link if the cursor is at
/// the end of the text.
pub open spec fn file_insert_text(name: Seq<char>, wiki: bool, at_end: bool) -> Seq<char> {
    if wiki {
        name + seq![']', ']']
    } else if at_end {
        replaced(name, ' ', seq!['%', '2', '0']).push(')')
    } else {
        replaced(name, ' ', seq!['%', '2', '0'])
    }
}

/// The completion that stands for a document named `name`.
pub open spec fn file_item(name: Seq<char>, text: Seq<char>, wiki: bool, at_end: bool)
    -> CompletionItemView {
    CompletionItemView {
        label: name,
        label_details: None,
        kind: Some(CompletionItemKind::File),
        detail: Some("Document"@),
        documentation: Some(file_documentation(name, text)),
        insert_text: Some(file_insert_text(name, wiki, at_end)),
    }
}

/// The completions that stand for the documents `docs`: one for each
/// document that a link in the document `source` can name, in order.
pub open spec fn file_items(
    lsp: &Server,
    source: Seq<char>,
    wiki: bool,
    at_end: bool,
    docs: Seq<Document>,
) -> Seq<CompletionItemView>
    decreases docs.len(),
{
    if docs.len() == 0 {
        seq![]
    } else {
        let init = file_items(lsp, source, wiki, at_end, docs.drop_last());
        match link_text(
            lsp.config.links.generation_style,
            source,
            docs.last().uri@,
            opt_uri(lsp.root),
        ) {
            Ok(name) => init.push(file_item(name, docs.last().text(), wiki, at_end)),
            Err(_) => init,
        }
    }
}

fn make_file_item(name: String, doc: &Document, wiki: bool, at_end: bool) -> (item: CompletionItem)
    ensures
        item@ == file_item(name@, doc.text(), wiki, at_end),
{
    let name_chars = to_chars(name.as_str());
    let mut insert: Vec<char> = Vec::new();
    if wiki {
        push_chars(&mut insert, &name_chars);
        insert.push(']');
        insert.push(']');
        proof {
            assert(insert@ =~= name@ + seq![']', ']']);
        }
    } else {
        let mut escape: Vec<char> = Vec::new();
        escape.push('%');
        escape.push('2');
        escape.push('0');
        proof {
            assert(escape@ =~= seq!['%', '2', '0']);
        }
        let escaped = replace_char(&name_chars, ' ', &escape);
        push_chars(&mut insert, &escaped);
        if at_end {
            insert.push(')');
        }
        proof {
            assert(insert@ =~= file_insert_text(name@, wiki, at_end));
        }
    }
    let text = doc.content.to_string();
    let first_lines = preview_chars(&to_chars(text.as_str()));
    let mut documentation: Vec<char> = Vec::new();
    push_str(&mut documentation, "Preview of ");
    push_chars(&mut documentation, &name_chars);
    push_str(&mut documentation, ":\n\n```markdown\n");
    push_chars(&mut documentation, &first_lines);
    push_str(&mut documentation, "\n```");
    proof {
        assert(documentation@ =~= file_documentation(name@, doc.text()));
    }
    CompletionItem {
        label: name,
        label_details: None,
        kind: Some(CompletionItemKind::File),
        detail: Some(String::from_str("Document")),
        documentation: Some(string_from_chars(documentation.as_slice())),
        insert_text: Some(string_from_chars(insert.as_slice())),
    }
}

fn collect_file_items(lsp: &Server, source: &Document, wiki: bool, at_end: bool) -> (items: Vec<
    CompletionItem,
>)
    ensures
        completion_views(items@) == file_items(
            lsp,
            source.uri@,
            wiki,
            at_end,
            lsp.documents.docs(),
        ),
{
    let docs = lsp.documents.get_documents();
    let mut items: Vec<CompletionItem> = Vec::new();
    let mut i: usize = 0;
    proof {
        assert(docs@.take(0) =~= Seq::empty());
        assert(completion_views(items@) =~= file_items(
            lsp,
            source.uri@,
            wiki,
            at_end,
            docs@.take(0),
        ));
    }
    while i < docs.len()
        invariant
            i <= docs.len(),
            docs@ == lsp.documents.docs(),
            completion_views(items@) == file_items(
                lsp,
                source.uri@,
                wiki,
                at_end,
                docs@.take(i as int),
            ),
        decreases docs.len() - i,
    {
        let doc = &docs[i];
        let ghost views = completion_views(items@);
        proof {
            let next = docs@.take(i + 1);
            assert(next.drop_last() == docs@.take(i as int));
            assert(next.last() == docs@[i as int]);
        }
        match generate_link_text(&lsp.config.links, &source.uri, &doc.uri, lsp.root()) {
            Ok(name) => {
                let item = make_file_item(name, doc, wiki, at_end);
                items.push(item);
                proof {
                    assert(completion_views(items@) =~= views.push(item@));
                }
            },
            Err(_) => {},
        }
        i += 1;
    }
    proof {
        assert(docs@.take(docs.len() as int) == docs@);
    }
    items
}

/// Whether the pair of characters at index `i` opens the target of a
/// link.
pub open spec fn opens_link(text: Seq<char>, i: int) -> bool {
    pair_at(text, i, '[', '[') || pair_at(text, i, ']', '(')
}

/// The index of the last pair of characters that opens the target of a
/// link and lies wholly between `lo` and `hi`.
pub open spec fn last_opening(text: Seq<char>, lo: int, hi: int) -> Option<int>
    decreases hi - lo,
{
    if hi - lo < 2 {
        None
    } else if opens_link(text, hi - 2) {
        Some(hi - 2)
    } else {
        last_opening(text, lo, hi - 1)
    }
}

/// The link that the cursor stands in: its target, and whether it is a
/// wiki link. The link is the one that opens last in the two hundred
/// bytes before the cursor; its target runs from there to the next hash.
/// There is none where no link opens there, or no hash follows.
pub open spec fn link_context(text: Seq<char>, byte_pos: int) -> Option<(Seq<char>, bool)> {
    let back = if byte_pos < 200 {
        0
    } else {
        byte_pos - 200
    };
    let lo = char_of_byte(text, back);
    let hi = char_of_byte(text, byte_pos);
    match last_opening(text, lo, hi) {
        Some(i) => {
            let from = i + 2;
            let hash = first_index_of(text, '#', from);
            if from <= hash < text.len() {
                Some((text.subrange(from, hash), text[i] == '['))
            } else {
                None
            }
        },
        None => None,
    }
}

/// The target and the kind of an optional link context.
pub open spec fn context_view(r: Option<(String, bool)>) -> Option<(Seq<char>, bool)> {
    match r {
        Some((s, w)) => Some((s@, w)),
        None => None,
    }
}

fn find_link_context(src: &Source, byte_pos: usize) -> (r: Option<(String, bool)>)
    ensures
        context_view(r) == link_context(src.text(), byte_pos as int),
{
    let chars = src.chars();
    let back = if byte_pos < 200 {
        0
    } else {
        byte_pos - 200
    };
    let lo = src.char_at_byte(back);
    let hi = src.char_at_byte(byte_pos);
    let mut at: usize = hi;
    let mut found: Option<usize> = None;
    while at >= 2 && at - 2 >= lo
        invariant_except_break
            found is None,
            last_opening(chars@, lo as int, hi as int) == last_opening(
                chars@,
                lo as int,
                at as int,
            ),
        invariant
            at <= hi <= chars.len(),
        ensures
            match found {
                Some(i) => last_opening(chars@, lo as int, hi as int) == Some(i as int) && i + 2
                    <= chars.len(),
                None => last_opening(chars@, lo as int, hi as int) is None,
            },
        decreases at,
    {
        let a = chars[at - 2];
        let b = chars[at - 1];
        if (a == '[' && b == '[') || (a == ']' && b == '(') {
            found = Some(at - 2);
            break ;
        }
        at -= 1;
    }
    let i = match found {
        Some(i) => i,
        None => {
            return None;
        },
    };
    let from = i + 2;
    let hash = find_first(chars, '#', from);
    if hash < chars.len() {
        Some((substring(chars, from, hash), chars[i] == '['))
    } else {
        None
    }
}

/// Finds the link that the cursor stands in, and tells its target and
/// whether it is a wiki link.
pub fn extract_file_and_link_type_from_context(document: &Document, byte_pos: usize) -> (r: Option<
    (String, bool),
>)
    ensures
        context_view(r) == link_context(document.text(), byte_pos as int),
{
    let text = document.content.to_string();
    let src = Source::new(text.as_str());
    find_link_context(&src, byte_pos)
}

/// The target of an optional link context.
pub open spec fn context_target(r: Option<(Seq<char>, bool)>) -> Option<Seq<char>> {
    match r {
        Some((s, _)) => Some(s),
        None => None,
    }
}

/// Finds the link that the cursor stands in, and tells its target.
pub fn extract_file_from_context(document: &Document, byte_pos: usize) -> (r: Option<String>)
    ensures
        opt_text(r) == context_target(
            link_context(document.text(), byte_pos as int),
        ),
{
    match extract_file_and_link_type_from_context(document, byte_pos) {
        Some((file, _)) => Some(file),
        None => None,
    }
}

/// What a completion puts in for a header: its normal form, and what
/// closes the link unless that stands after the cursor already.
pub open spec fn header_insert_text(id: Seq<char>, wiki: bool, has_closing: bool) -> Seq<char> {
    if has_closing {
        id
    } else if wiki {
        id + seq![']', ']']
    } else {
        id.push(')')
    }
}

/// What is shown of a header that a completion stands for.
pub open spec fn header_documentation(content: Seq<char>, level: usize, id: Seq<char>) -> Seq<
    char,
> {
    "# "@ + content + "\n\nHeading level "@ + decimal(level as nat) + "\n\nLink: `"@ + id + "`"@
}

/// The completion that stands for a header.
pub open spec fn header_item(content: Seq<char>, level: usize, wiki: bool, has_closing: bool)
    -> CompletionItemView {
    CompletionItemView {
        label: uppercase(content),
        label_details: Some(
            LabelDetailsView { detail: None, description: Some(seq!['H'] + decimal(level as nat)) },
        ),
        kind: Some(CompletionItemKind::Reference),
        detail: None,
        documentation: Some(header_documentation(content, level, normalized_header(content))),
        insert_text: Some(header_insert_text(normalized_header(content), wiki, has_closing)),
    }
}

/// The completions that stand for the headers among `refs`, in order.
pub open spec fn header_items(refs: Seq<ReferenceView>, wiki: bool, has_closing: bool) -> Seq<
    CompletionItemView,
>
    decreases refs.len(),
{
    if refs.len() == 0 {
        seq![]
    } else {
        let init = header_items(refs.drop_last(), wiki, has_closing);
        match refs.last().kind {
            ReferenceKindView::Header { level, content } => init.push(
                header_item(content, level, wiki, has_closing),
            ),
            _ => init,
        }
    }
}

fn make_header_item(content: &str, level: usize, wiki: bool, has_closing: bool) -> (item:
    CompletionItem)
    ensures
        item@ == header_item(content@, level, wiki, has_closing),
{
    let id = normalize_header_chars(content);
    let digits = decimal_chars(level as u64);
    let mut insert: Vec<char> = Vec::new();
    push_chars(&mut insert, &id);
    if !has_closing {
        if wiki {
            insert.push(']');
            insert.push(']');
        } else {
            insert.push(')');
        }
    }
    proof {
        assert(insert@ =~= header_insert_text(normalized_header(content@), wiki, has_closing));
    }
    let mut documentation: Vec<char> = Vec::new();
    push_str(&mut documentation, "# ");
    push_str(&mut documentation, content);
    push_str(&mut documentation, "\n\nHeading level ");
    push_chars(&mut documentation, &digits);
    push_str(&mut documentation, "\n\nLink: `");
    push_chars(&mut documentation, &id);
    push_str(&mut documentation, "`");
    proof {
        assert(documentation@ =~= header_documentation(
            content@,
            level,
            normalized_header(content@),
        ));
    }
    let mut description: Vec<char> = Vec::new();
    description.push('H');
    push_chars(&mut description, &digits);
    proof {
        assert(description@ =~= seq!['H'] + decimal(level as nat));
    }
    CompletionItem {
        label: str_to_uppercase(content),
        label_details: Some(
            CompletionItemLabelDetails {
                detail: None,
                description: Some(string_from_chars(description.as_slice())),
            },
        ),
        kind: Some(CompletionItemKind::Reference),
        detail: None,
        documentation: Some(string_from_chars(documentation.as_slice())),
        insert_text: Some(string_from_chars(insert.as_slice())),
    }
}

fn collect_header_items(refs: &Vec<Reference>, wiki: bool, has_closing: bool) -> (items: Vec<
    CompletionItem,
>)
    ensures
        completion_views(items@) == header_items(reference_views(refs@), wiki, has_closing),
{
    let ghost views = reference_views(refs@);
    let mut items: Vec<CompletionItem> = Vec::new();
    let mut i: usize = 0;
    proof {
        assert(views.take(0) =~= Seq::empty());
        assert(completion_views(items@) =~= header_items(views.take(0), wiki, has_closing));
    }
    while i < refs.len()
        invariant
            i <= refs.len(),
            views == reference_views(refs@),
            completion_views(items@) == header_items(views.take(i as int), wiki, has_closing),
        decreases refs.len() - i,
    {
        let ghost before = completion_views(items@);
        proof {
            let next = views.take(i + 1);
            assert(next.drop_last() == views.take(i as int));
            assert(next.last() == refs@[i as int]@);
        }
        match &refs[i].kind {
            ReferenceKind::Header { level, content } => {
                let item = make_header_item(content.as_str(), *level, wiki, has_closing);
                items.push(item);
                proof {
                    assert(completion_views(items@) =~= before.push(item@));
                }
            },
            _ => {},
        }
        i += 1;
    }
    proof {
        assert(views.take(refs.len() as int) == views);
    }
    items
}

/// Whether what closes a link stands at the character with index `c`:
/// `]]` for a wiki link, `)` for a link.
pub open spec fn closing_at(text: Seq<char>, c: int, wiki: bool) -> bool {
    if wiki {
        pair_at(text, c, ']', ']')
    } else {
        char_at(text, c, ')')
    }
}

/// The completions for the fragment of the link that the cursor stands
/// in: the headers of the document that the link names. There are none to
/// speak of where the cursor stands in no link, or the link names no
/// document of the store.
pub open spec fn fragment_items(lsp: &Server, source: Seq<char>, text: Seq<char>, byte_pos: int)
    -> Option<Seq<CompletionItemView>> {
    match link_context(text, byte_pos) {
        Some((file, wiki)) => match resolved_target(lsp, source, file) {
            Ok(uri) => match index_of(lsp.documents.docs(), uri) {
                Some(i) => Some(
                    header_items(
                        lsp.documents.docs()[i].reference_list(),
                        wiki,
                        closing_at(text, char_of_byte(text, byte_pos), wiki),
                    ),
                ),
                None => None,
            },
            Err(_) => None,
        },
        None => None,
    }
}

/// The completions at a position of a document with the given text.
/// After `[[` and `](`, the documents of the store. After `#`, the
/// headers of the document that the link names. Elsewhere, none. There
/// is no answer where the position names no byte of the text.
pub open spec fn completions_at(lsp: &Server, source: Seq<char>, text: Seq<char>, position: Position)
    -> Option<Seq<CompletionItemView>> {
    match byte_of_position(text, position) {
        Some(b) => if b <= byte_len(text) && is_boundary(text, b as int) {
            let c = char_of_byte(text, b as int);
            match trigger_before(text, c) {
                Trigger::WikiLink => Some(
                    file_items(lsp, source, true, b == byte_len(text), lsp.documents.docs()),
                ),
                Trigger::InlineLink => Some(
                    file_items(lsp, source, false, b == byte_len(text), lsp.documents.docs()),
                ),
                Trigger::Fragment => fragment_items(lsp, source, text, b as int),
                Trigger::Nothing => Some(seq![]),
            }
        } else {
            Some(seq![])
        },
        None => None,
    }
}

/// The completions of an optional list.
pub open spec fn items_view(r: Option<Vec<CompletionItem>>) -> Option<Seq<CompletionItemView>> {
    match r {
        Some(v) => Some(completion_views(v@)),
        None => None,
    }
}

/// Finds the completions that what stands before a position of a document
/// asks for.
pub fn handle_trigger_completion(lsp: &Server, document: &Document, position: Position) -> (r:
    Option<Vec<CompletionItem>>)
    ensures
        items_view(r) == completions_at(lsp, document.uri@, document.text(), position),
{
    let byte_pos = match document.content.lsp_position_to_byte(position) {
        Some(b) => b,
        None => {
            return None;
        },
    };
    let text = document.content.to_string();
    let src = Source::new(text.as_str());
    let total = src.byte_len();
    let chars = src.chars();
    if byte_pos > total {
        return Some(Vec::new());
    }
    let c = src.char_at_byte(byte_pos);
    if src.byte_at(c) != byte_pos {
        return Some(Vec::new());
    }
    match find_trigger(chars, c) {
        Trigger::WikiLink => Some(collect_file_items(lsp, document, true, byte_pos == total)),
        Trigger::InlineLink => Some(collect_file_items(lsp, document, false, byte_pos == total)),
        Trigger::Fragment => {
            let (file, wiki) = match find_link_context(&src, byte_pos) {
                Some(context) => context,
                None => {
                    return None;
                },
            };
            let file_uri = match resolve_target_uri(lsp, document, file.as_str()) {
                Ok(uri) => uri,
                Err(_) => {
                    return None;
                },
            };
            let linked = match lsp.documents.get_document(&file_uri) {
                Some(d) => d,
                None => {
                    return None;
                },
            };
            let has_closing = if wiki {
                c < chars.len() && chars[c] == ']' && c + 1 < chars.len() && chars[c + 1] == ']'
            } else {
                c < chars.len() && chars[c] == ')'
            };
            Some(collect_header_items(&linked.references, wiki, has_closing))
        },
        Trigger::Nothing => Some(Vec::new()),
    }
}

/// Finds the completions when the editor asks for them unprompted: none.
pub fn handle_invoked_completion(lsp: &Server, document: &Document, position: Position) -> (r:
    Option<Vec<CompletionItem>>)
    ensures
        r is None,
{
    None
}

/// What a request for completions is answered with. Only a request that a
/// character set off has an answer.
pub open spec fn completion_answer(
    lsp: &Server,
    uri: Seq<char>,
    position: Position,
    trigger: Option<CompletionTriggerKind>,
) -> Result<Option<Seq<CompletionItemView>>, LspError> {
    match index_of(lsp.documents.docs(), uri) {
        Some(i) => match trigger {
            Some(CompletionTriggerKind::TriggerCharacter) => Ok(
                completions_at(
                    lsp,
                    lsp.documents.docs()[i].uri@,
                    lsp.documents.docs()[i].text(),
                    position,
                ),
            ),
            _ => Ok(None),
        },
        None => Err(LspError::DocumentNotFound),
    }
}

/// The trigger of a request.
pub open spec fn trigger_of(params: &CompletionParams) -> Option<CompletionTriggerKind> {
    match params.context {
        Some(context) => Some(context.trigger_kind),
        None => None,
    }
}

/// The completions of a result.
pub open spec fn items_result(r: Result<Option<Vec<CompletionItem>>, LspError>) -> Result<
    Option<Seq<CompletionItemView>>,
    LspError,
> {
    match r {
        Ok(items) => Ok(items_view(items)),
        Err(e) => Err(e),
    }
}

/// Answers a request for the completions at a position.
pub fn process_completion(lsp: &Server, params: &CompletionParams) -> (r: Result<
    Option<Vec<CompletionItem>>,
    LspError,
>)
    ensures
        items_result(r) == completion_answer(
            lsp,
            params.text_document_position.text_document.uri@,
            params.text_document_position.position,
            trigger_of(params),
        ),
{
    let position = params.text_document_position.position;
    let document = match lsp.documents.get_document(
        &params.text_document_position.text_document.uri,
    ) {
        Some(d) => d,
        None => {
            return Err(LspError::DocumentNotFound);
        },
    };
    match &params.context {
        Some(context) => match context.trigger_kind {
            CompletionTriggerKind::Invoked => Ok(handle_invoked_completion(lsp, document, position)),
            CompletionTriggerKind::TriggerCharacter => Ok(
                handle_trigger_completion(lsp, document, position),
            ),
            CompletionTriggerKind::TriggerForIncompleteCompletions => Ok(None),
        },
        None => Ok(None),
    }
}

/// Answers a request to fill in a completion: the completion with its
/// label and nothing else.
pub fn process_completion_resolve(lsp: &Server, item: CompletionItem) -> (r: Result<
    CompletionItem,
    LspError,
>)
    ensures
        r is Ok,
        r->Ok_0.label == item.label,
        r->Ok_0.label_details is None,
        r->Ok_0.kind is None,
        r->Ok_0.detail is None,
        r->Ok_0.documentation is None,
        r->Ok_0.insert_text is None,
{
    Ok(
        CompletionItem {
            label: item.label,
            label_details: None,
            kind: None,
            detail: None,
            documentation: None,
            insert_text: None,
        },
    )
}

} // verus!
