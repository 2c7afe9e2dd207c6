//! The grammar of front matter: a list of keys and values between two lines
//! of three dashes, at the top of a note.

use vstd::prelude::*;
use crate::parser::markdown::{char_at, pair_at};
use crate::parser::{slice, span_of, ParseError, ParseErrorKind, ParseOutput, Slice, Source};
use crate::text::is_line_break;
use crate::scan::{class_holds, in_class, lemma_run_end, run_end, scan, CharClass};

verus! {

/// A value of front matter: one text, or a list of texts.
#[derive(Debug, Clone, PartialEq)]
pub enum Yaml {
    String(Slice),
    List(Vec<Slice>),
}

/// A value with its list as a sequence.
pub enum YamlView {
    String(Slice),
    List(Seq<Slice>),
}

impl View for Yaml {
    type V = YamlView;

    open spec fn view(&self) -> YamlView {
        match *self {
            Yaml::String(v) => YamlView::String(v),
            Yaml::List(items) => YamlView::List(items@),
        }
    }
}

/// The front matter of a note: its keys with their values, in the order in
/// which they stand.
#[derive(Debug, Clone, PartialEq)]
pub struct Frontmatter(pub Vec<(Slice, Yaml)>);

/// The entries of front matter with their lists as sequences.
pub open spec fn entry_views(entries: Seq<(Slice, Yaml)>) -> Seq<(Slice, YamlView)> {
    Seq::new(entries.len(), |k: int| (entries[k].0, entries[k].1@))
}

impl View for Frontmatter {
    type V = Seq<(Slice, YamlView)>;

    open spec fn view(&self) -> Seq<(Slice, YamlView)> {
        entry_views(self.0@)
    }
}

/// A line break at index `i`, and where it ends. A carriage return and the
/// line feed after it are one line break.
pub open spec fn newline_at(s: Seq<char>, i: int) -> Option<int> {
    if pair_at(s, i, '\r', '\n') {
        Some(i + 2)
    } else if 0 <= i < s.len() && is_line_break(s[i]) {
        Some(i + 1)
    } else {
        None
    }
}

/// Matches a line break at index `i`.
pub fn match_newline(s: &Vec<char>, i: usize) -> (r: Option<usize>)
    requires
        i <= s.len(),
    ensures
        match r {
            Some(e) => newline_at(s@, i as int) == Some(e as int) && i < e <= s.len(),
            None => newline_at(s@, i as int) is None,
        },
{
    if i >= s.len() {
        return None;
    }
    let c = s[i];
    if c == '\r' && i + 1 < s.len() && s[i + 1] == '\n' {
        Some(i + 2)
    } else if c == '\n' || c == '\r' || c == '\x0B' || c == '\x0C' || c == '\u{85}' || c
        == '\u{2028}' || c == '\u{2029}' {
        Some(i + 1)
    } else {
        None
    }
}

/// Where the line of three dashes that begins at or after index `i` ends:
/// whitespace may come before the dashes, and what whitespace follows them
/// belongs to the line.
pub open spec fn delimiter_at(s: Seq<char>, i: int) -> Option<int> {
    let w = run_end(s, i, CharClass::Whitespace);
    if char_at(s, w, '-') && char_at(s, w + 1, '-') && char_at(s, w + 2, '-') {
        Some(run_end(s, w + 3, CharClass::Whitespace))
    } else {
        None
    }
}

fn match_delimiter(s: &Vec<char>, i: usize) -> (r: Option<usize>)
    requires
        i <= s.len(),
    ensures
        match r {
            Some(e) => delimiter_at(s@, i as int) == Some(e as int) && i < e <= s.len(),
            None => delimiter_at(s@, i as int) is None,
        },
{
    let w = scan(s, i, CharClass::Whitespace);
    if w < s.len() && s[w] == '-' && w + 1 < s.len() && s[w + 1] == '-' && w + 2 < s.len() && s[w
        + 2] == '-' {
        Some(scan(s, w + 3, CharClass::Whitespace))
    } else {
        None
    }
}

/// A text value at index `i` and where it ends: what stands between two
/// double quotes, or else a run, not empty, of characters that an unquoted
/// value may hold.
pub open spec fn string_value_at(s: Seq<char>, i: int) -> Option<(Slice, int)> {
    let q1 = run_end(s, i + 1, CharClass::Quoted);
    let u1 = run_end(s, i, CharClass::Unquoted);
    if char_at(s, i, '"') && char_at(s, q1, '"') {
        Some((slice(i + 1, q1), q1 + 1))
    } else if 0 <= i && u1 > i {
        Some((slice(i, u1), u1))
    } else {
        None
    }
}

fn match_string_value(s: &Vec<char>, i: usize) -> (r: Option<(Slice, usize)>)
    requires
        i <= s.len(),
    ensures
        match r {
            Some((v, e)) => string_value_at(s@, i as int) == Some((v, e as int)) && i < e
                <= s.len(),
            None => string_value_at(s@, i as int) is None,
        },
{
    if i < s.len() && s[i] == '"' {
        let q1 = scan(s, i + 1, CharClass::Quoted);
        if q1 < s.len() && s[q1] == '"' {
            return Some((Slice { start: i + 1, end: q1 }, q1 + 1));
        }
    }
    let u1 = scan(s, i, CharClass::Unquoted);
    if u1 > i {
        Some((Slice { start: i, end: u1 }, u1))
    } else {
        None
    }
}

/// An item of a list at index `i` and where it ends: whitespace, of which
/// there is some, a dash, whitespace, and a text value.
pub open spec fn list_item_at(s: Seq<char>, i: int) -> Option<(Slice, int)> {
    let w = run_end(s, i, CharClass::Whitespace);
    let v0 = run_end(s, w + 1, CharClass::Whitespace);
    if 0 <= i && w > i && char_at(s, w, '-') {
        string_value_at(s, v0)
    } else {
        None
    }
}

fn match_list_item(s: &Vec<char>, i: usize) -> (r: Option<(Slice, usize)>)
    requires
        i <= s.len(),
    ensures
        match r {
            Some((v, e)) => list_item_at(s@, i as int) == Some((v, e as int)) && i < e <= s.len(),
            None => list_item_at(s@, i as int) is None,
        },
{
    let w = scan(s, i, CharClass::Whitespace);
    if w > i && w < s.len() && s[w] == '-' {
        let v0 = scan(s, w + 1, CharClass::Whitespace);
        match_string_value(s, v0)
    } else {
        None
    }
}

/// Items of a list and where the list ends.
pub struct ItemRun {
    pub items: Seq<Slice>,
    pub end: int,
}

/// The items that follow an item that ends at index `i`, each after a line
/// break.
pub open spec fn more_items_from(s: Seq<char>, i: int) -> ItemRun
    decreases s.len() - i,
{
    match newline_at(s, i) {
        Some(n) => match list_item_at(s, n) {
            Some((v, e)) => if i < e <= s.len() {
                let rest = more_items_from(s, e);
                ItemRun { items: seq![v] + rest.items, end: rest.end }
            } else {
                ItemRun { items: seq![], end: i }
            },
            None => ItemRun { items: seq![], end: i },
        },
        None => ItemRun { items: seq![], end: i },
    }
}

/// A list at index `i`: one item or more, a line break between each two.
pub open spec fn list_at(s: Seq<char>, i: int) -> Option<ItemRun> {
    match list_item_at(s, i) {
        Some((v, e)) => {
            let rest = more_items_from(s, e);
            Some(ItemRun { items: seq![v] + rest.items, end: rest.end })
        },
        None => None,
    }
}

fn match_list(s: &Vec<char>, i: usize) -> (r: Option<(Vec<Slice>, usize)>)
    requires
        i <= s.len(),
    ensures
        match r {
            Some((items, e)) => list_at(s@, i as int) == Some(
                ItemRun { items: items@, end: e as int },
            ) && i < e <= s.len(),
            None => list_at(s@, i as int) is None,
        },
{
    let (first, first_end) = match match_list_item(s, i) {
        Some(m) => m,
        None => {
            return None;
        },
    };
    let mut items: Vec<Slice> = Vec::new();
    items.push(first);
    let mut at: usize = first_end;
    let ghost total = more_items_from(s@, first_end as int);
    loop
        invariant
            i < at <= s.len(),
            total.items == items@.drop_first() + more_items_from(s@, at as int).items,
            total.end == more_items_from(s@, at as int).end,
            items@.len() >= 1,
            items@[0] == first,
        ensures
            i < at <= s.len(),
            total.items == items@.drop_first(),
            total.end == at,
            items@.len() >= 1,
            items@[0] == first,
        decreases s.len() - at,
    {
        let n = match match_newline(s, at) {
            Some(n) => n,
            None => {
                proof {
                    assert(items@.drop_first() + Seq::<Slice>::empty() =~= items@.drop_first());
                }
                break ;
            },
        };
        match match_list_item(s, n) {
            Some((v, e)) => {
                proof {
                    let rest = more_items_from(s@, e as int);
                    assert(items@.drop_first() + (seq![v] + rest.items) =~= items@.push(
                        v,
                    ).drop_first() + rest.items);
                }
                items.push(v);
                at = e;
            },
            None => {
                proof {
                    assert(items@.drop_first() + Seq::<Slice>::empty() =~= items@.drop_first());
                }
                break ;
            },
        }
    }
    proof {
        assert(items@ =~= seq![first] + total.items);
    }
    Some((items, at))
}

/// The value that follows the colon of an entry, and where it ends: a list
/// that begins on the next line, or else a text value after whitespace.
pub open spec fn value_at(s: Seq<char>, p: int) -> Option<(YamlView, int)> {
    let listed = match newline_at(s, p) {
        Some(n) => list_at(s, n),
        None => None,
    };
    match listed {
        Some(run) => Some((YamlView::List(run.items), run.end)),
        None => match string_value_at(s, run_end(s, p, CharClass::Whitespace)) {
            Some((v, e)) => Some((YamlView::String(v), e)),
            None => None,
        },
    }
}

/// The value of an optional match.
pub open spec fn value_view(r: Option<(Yaml, usize)>) -> Option<(YamlView, int)> {
    match r {
        Some((v, e)) => Some((v@, e as int)),
        None => None,
    }
}

fn match_value(s: &Vec<char>, p: usize) -> (r: Option<(Yaml, usize)>)
    requires
        p <= s.len(),
    ensures
        value_view(r) == value_at(s@, p as int),
        r is Some ==> p < (r->0).1 <= s.len(),
{
    match match_newline(s, p) {
        Some(n) => match match_list(s, n) {
            Some((items, e)) => {
                return Some((Yaml::List(items), e));
            },
            None => {},
        },
        None => {},
    }
    let v0 = scan(s, p, CharClass::Whitespace);
    match match_string_value(s, v0) {
        Some((v, e)) => Some((Yaml::String(v), e)),
        None => None,
    }
}

/// An entry at index `i` and where it ends: a key, a colon and a value. A
/// key begins with a letter or an underscore and goes on with letters,
/// digits and underscores.
pub open spec fn entry_at(s: Seq<char>, i: int) -> Option<((Slice, YamlView), int)> {
    let k1 = run_end(s, i + 1, CharClass::KeyRest);
    if 0 <= i < s.len() && in_class(CharClass::KeyStart, s[i]) && char_at(s, k1, ':') {
        match value_at(s, k1 + 1) {
            Some((v, e)) => Some(((slice(i, k1), v), e)),
            None => None,
        }
    } else {
        None
    }
}

/// The entry of an optional match.
pub open spec fn entry_view(r: Option<((Slice, Yaml), usize)>) -> Option<((Slice, YamlView), int)> {
    match r {
        Some(((k, v), e)) => Some(((k, v@), e as int)),
        None => None,
    }
}

fn match_entry(s: &Vec<char>, i: usize) -> (r: Option<((Slice, Yaml), usize)>)
    requires
        i <= s.len(),
    ensures
        entry_view(r) == entry_at(s@, i as int),
        r is Some ==> i < (r->0).1 <= s.len(),
{
    if !(i < s.len() && class_holds(CharClass::KeyStart, s[i])) {
        return None;
    }
    let k1 = scan(s, i + 1, CharClass::KeyRest);
    if !(k1 < s.len() && s[k1] == ':') {
        return None;
    }
    match match_value(s, k1 + 1) {
        Some((v, e)) => Some(((Slice { start: i, end: k1 }, v), e)),
        None => None,
    }
}

/// Entries and where they end.
pub struct EntryRun {
    pub entries: Seq<(Slice, YamlView)>,
    pub end: int,
}

/// The entries that follow an entry that ends at index `i`, each after a
/// line break.
pub open spec fn more_entries_from(s: Seq<char>, i: int) -> EntryRun
    decreases s.len() - i,
{
    match newline_at(s, i) {
        Some(n) => match entry_at(s, n) {
            Some((entry, e)) => if i < e <= s.len() {
                let rest = more_entries_from(s, e);
                EntryRun { entries: seq![entry] + rest.entries, end: rest.end }
            } else {
                EntryRun { entries: seq![], end: i }
            },
            None => EntryRun { entries: seq![], end: i },
        },
        None => EntryRun { entries: seq![], end: i },
    }
}

/// Front matter at index `i` and where it ends: a line of three dashes,
/// one entry or more with a line break between each two, and a line of
/// three dashes.
pub open spec fn frontmatter_at(s: Seq<char>, i: int) -> Option<EntryRun> {
    match delimiter_at(s, i) {
        Some(d) => match entry_at(s, d) {
            Some((entry, e)) => {
                let rest = more_entries_from(s, e);
                let p = match newline_at(s, rest.end) {
                    Some(n) => n,
                    None => rest.end,
                };
                match delimiter_at(s, p) {
                    Some(end) => Some(EntryRun { entries: seq![entry] + rest.entries, end }),
                    None => None,
                }
            },
            None => None,
        },
        None => None,
    }
}

/// Front matter ends within the text.
pub proof fn lemma_frontmatter_end(s: Seq<char>, i: int)
    requires
        frontmatter_at(s, i) is Some,
    ensures
        0 <= frontmatter_at(s, i)->0.end <= s.len(),
{
    let d = delimiter_at(s, i)->0;
    let e = (entry_at(s, d)->0).1;
    let rest = more_entries_from(s, e);
    let p = match newline_at(s, rest.end) {
        Some(n) => n,
        None => rest.end,
    };
    lemma_delimiter_order(s, p);
}

proof fn lemma_delimiter_order(s: Seq<char>, p: int)
    requires
        delimiter_at(s, p) is Some,
    ensures
        0 <= delimiter_at(s, p)->0 <= s.len(),
{
    let w = run_end(s, p, CharClass::Whitespace);
    assert(char_at(s, w + 2, '-'));
    lemma_run_end(s, w + 3, CharClass::Whitespace);
}

/// Matches front matter at index `i`; gives it and where it ends.
pub fn match_frontmatter(src: &Source, i: usize) -> (r: Option<(Frontmatter, usize)>)
    requires
        i <= src.text().len(),
    ensures
        match r {
            Some((fm, e)) => frontmatter_at(src.text(), i as int) == Some(
                EntryRun { entries: fm@, end: e as int },
            ) && i < e <= src.text().len(),
            None => frontmatter_at(src.text(), i as int) is None,
        },
{
    let s = src.chars();
    let d = match match_delimiter(s, i) {
        Some(d) => d,
        None => {
            return None;
        },
    };
    let (first, first_end) = match match_entry(s, d) {
        Some(m) => m,
        None => {
            return None;
        },
    };
    let ghost first_view = (first.0, first.1@);
    let mut entries: Vec<(Slice, Yaml)> = Vec::new();
    entries.push(first);
    let mut at: usize = first_end;
    let ghost total = more_entries_from(s@, first_end as int);
    loop
        invariant
            i < at <= s.len(),
            total.entries == entry_views(entries@).drop_first() + more_entries_from(
                s@,
                at as int,
            ).entries,
            total.end == more_entries_from(s@, at as int).end,
            entries@.len() >= 1,
            entry_views(entries@)[0] == first_view,
        ensures
            i < at <= s.len(),
            total.entries == entry_views(entries@).drop_first(),
            total.end == at,
            entries@.len() >= 1,
            entry_views(entries@)[0] == first_view,
        decreases s.len() - at,
    {
        let ghost before = entry_views(entries@);
        let n = match match_newline(s, at) {
            Some(n) => n,
            None => {
                proof {
                    assert(before.drop_first() + Seq::<(Slice, YamlView)>::empty()
                        =~= before.drop_first());
                }
                break ;
            },
        };
        match match_entry(s, n) {
            Some((entry, e)) => {
                let ghost entry_v = (entry.0, entry.1@);
                proof {
                    let rest = more_entries_from(s@, e as int);
                    assert(before.drop_first() + (seq![entry_v] + rest.entries) =~= before.push(
                        entry_v,
                    ).drop_first() + rest.entries);
                }
                entries.push(entry);
                proof {
                    assert(entry_views(entries@) =~= before.push(entry_v));
                }
                at = e;
            },
            None => {
                proof {
                    assert(before.drop_first() + Seq::<(Slice, YamlView)>::empty()
                        =~= before.drop_first());
                }
                break ;
            },
        }
    }
    let p = match match_newline(s, at) {
        Some(n) => n,
        None => at,
    };
    match match_delimiter(s, p) {
        Some(end) => {
            proof {
                assert(entry_views(entries@) =~= seq![first_view] + total.entries);
            }
            Some((Frontmatter(entries), end))
        },
        None => None,
    }
}

/// What a parse of a whole text as front matter gives: the entries, if the
/// text is front matter from its first character to its last, and else one
/// error that covers what is no front matter.
pub open spec fn whole_frontmatter(s: Seq<char>) -> (Option<Seq<(Slice, YamlView)>>, Seq<
    ParseError,
>) {
    match frontmatter_at(s, 0) {
        Some(run) => if run.end == s.len() {
            (Some(run.entries), seq![])
        } else {
            (
                None,
                seq![
                    ParseError {
                        span: span_of(s, run.end, s.len() as int),
                        kind: ParseErrorKind::TrailingInput,
                    },
                ],
            )
        },
        None => (
            None,
            seq![
                ParseError { span: span_of(s, 0, s.len() as int), kind: ParseErrorKind::Unexpected },
            ],
        ),
    }
}

/// The entries of an optional front matter.
pub open spec fn frontmatter_view(fm: Option<Frontmatter>) -> Option<Seq<(Slice, YamlView)>> {
    match fm {
        Some(f) => Some(f@),
        None => None,
    }
}

/// Parses a whole text as front matter.
pub fn yaml_parser(src: &Source) -> (out: ParseOutput<Frontmatter>)
    ensures
        (frontmatter_view(out.output), out.errors@) == whole_frontmatter(src.text()),
{
    let len = src.len();
    let mut errors: Vec<ParseError> = Vec::new();
    match match_frontmatter(src, 0) {
        Some((fm, end)) => {
            if end == len {
                ParseOutput { output: Some(fm), errors }
            } else {
                errors.push(
                    ParseError { span: src.span(end, len), kind: ParseErrorKind::TrailingInput },
                );
                ParseOutput { output: None, errors }
            }
        },
        None => {
            errors.push(ParseError { span: src.span(0, len), kind: ParseErrorKind::Unexpected });
            ParseOutput { output: None, errors }
        },
    }
}

/// Reads the front matter that a note begins with, if it begins with any,
/// and tells at which character the body begins.
pub fn frontmatter_parser(src: &Source) -> (r: Option<(Frontmatter, usize)>)
    ensures
        match r {
            Some((fm, e)) => frontmatter_at(src.text(), 0) == Some(
                EntryRun { entries: fm@, end: e as int },
            ) && e <= src.text().len(),
            None => frontmatter_at(src.text(), 0) is None,
        },
{
    match_frontmatter(src, 0)
}

} // verus!
