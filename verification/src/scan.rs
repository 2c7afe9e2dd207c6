//! Runs of characters. Most of what the grammar and the normal forms do comes
//! down to finding where a run of characters of one class ends or begins.

use vstd::prelude::*;
use crate::text::{
    char_is_alphabetic, char_is_alphanumeric, char_is_control, char_is_whitespace, is_alphabetic,
    is_alphanumeric, is_control, is_whitespace,
};

verus! {

/// The classes of characters that the grammar tells apart.
#[derive(Debug, PartialEq, Eq, Clone, Copy, Structural)]
pub enum CharClass {
    /// Letters and digits, in Unicode's sense.
    Alphanumeric,
    /// Whitespace, in Unicode's sense; line breaks are whitespace.
    Whitespace,
    /// A space or a tab.
    Blank,
    /// `#`
    Hash,
    /// `-`
    Dash,
    /// Anything but a line feed or a carriage return.
    LineText,
    /// Anything but `]` or a line feed.
    BracketText,
    /// Anything but `)` or a line feed.
    ParenText,
    /// Anything but `#`, `]`, `|` or a line feed.
    WikiTarget,
    /// Anything but `|`, `]` or a line feed.
    WikiHeader,
    /// Anything but `#`, `)` or a line feed.
    LinkUri,
    /// What an unquoted front-matter value may hold: no control character,
    /// no `:` and no `#`.
    Unquoted,
    /// Anything but a double quote.
    Quoted,
    /// What a front-matter key may begin with: a letter or `_`.
    KeyStart,
    /// What a front-matter key may go on with: a letter, a digit or `_`.
    KeyRest,
}

/// Whether `c` belongs to `class`.
pub open spec fn in_class(class: CharClass, c: char) -> bool {
    match class {
        CharClass::Alphanumeric => is_alphanumeric(c),
        CharClass::Whitespace => is_whitespace(c),
        CharClass::Blank => c == ' ' || c == '\t',
        CharClass::Hash => c == '#',
        CharClass::Dash => c == '-',
        CharClass::LineText => c != '\n' && c != '\r',
        CharClass::BracketText => c != ']' && c != '\n',
        CharClass::ParenText => c != ')' && c != '\n',
        CharClass::WikiTarget => c != '#' && c != ']' && c != '|' && c != '\n',
        CharClass::WikiHeader => c != '|' && c != ']' && c != '\n',
        CharClass::LinkUri => c != '#' && c != ')' && c != '\n',
        CharClass::Unquoted => !is_control(c) && c != '\n' && c != ':' && c != '#',
        CharClass::Quoted => c != '"',
        CharClass::KeyStart => is_alphabetic(c) || c == '_',
        CharClass::KeyRest => is_alphanumeric(c) || c == '_',
    }
}

/// Whether `c` belongs to `class`.
pub fn class_holds(class: CharClass, c: char) -> (r: bool)
    ensures
        r == in_class(class, c),
{
    match class {
        CharClass::Alphanumeric => char_is_alphanumeric(c),
        CharClass::Whitespace => char_is_whitespace(c),
        CharClass::Blank => c == ' ' || c == '\t',
        CharClass::Hash => c == '#',
        CharClass::Dash => c == '-',
        CharClass::LineText => c != '\n' && c != '\r',
        CharClass::BracketText => c != ']' && c != '\n',
        CharClass::ParenText => c != ')' && c != '\n',
        CharClass::WikiTarget => c != '#' && c != ']' && c != '|' && c != '\n',
        CharClass::WikiHeader => c != '|' && c != ']' && c != '\n',
        CharClass::LinkUri => c != '#' && c != ')' && c != '\n',
        CharClass::Unquoted => !char_is_control(c) && c != '\n' && c != ':' && c != '#',
        CharClass::Quoted => c != '"',
        CharClass::KeyStart => char_is_alphabetic(c) || c == '_',
        CharClass::KeyRest => char_is_alphanumeric(c) || c == '_',
    }
}

/// Where the run of `class` characters that begins at `from` ends: the first
/// index at or after `from` whose character is not in `class`, or the end of
/// the text.
pub open spec fn run_end(s: Seq<char>, from: int, class: CharClass) -> int
    decreases s.len() - from,
{
    if 0 <= from < s.len() && in_class(class, s[from]) {
        run_end(s, from + 1, class)
    } else {
        from
    }
}

/// Where the run of `class` characters that ends at `to` begins, looking no
/// further back than `floor`.
pub open spec fn run_start(s: Seq<char>, floor: int, to: int, class: CharClass) -> int
    decreases to - floor,
{
    if floor < to <= s.len() && 0 < to && in_class(class, s[to - 1]) {
        run_start(s, floor, to - 1, class)
    } else {
        to
    }
}

/// What `run_end` boils down to: every character of the run is in the
/// class, and the run stops at the end of the text or at a character that
/// is not.
pub proof fn lemma_run_end(s: Seq<char>, from: int, class: CharClass)
    requires
        0 <= from <= s.len(),
    ensures
        from <= run_end(s, from, class) <= s.len(),
        forall|k: int| from <= k < run_end(s, from, class) ==> in_class(class, #[trigger] s[k]),
        run_end(s, from, class) < s.len() ==> !in_class(class, s[run_end(s, from, class)]),
    decreases s.len() - from,
{
    if from < s.len() && in_class(class, s[from]) {
        lemma_run_end(s, from + 1, class);
    }
}

/// What `run_start` boils down to.
pub proof fn lemma_run_start(s: Seq<char>, floor: int, to: int, class: CharClass)
    requires
        0 <= floor <= to <= s.len(),
    ensures
        floor <= run_start(s, floor, to, class) <= to,
        forall|k: int|
            run_start(s, floor, to, class) <= k < to ==> in_class(class, #[trigger] s[k]),
        floor < run_start(s, floor, to, class) ==> !in_class(
            class,
            s[run_start(s, floor, to, class) - 1],
        ),
    decreases to - floor,
{
    if floor < to && in_class(class, s[to - 1]) {
        lemma_run_start(s, floor, to - 1, class);
    }
}

/// Finds where the run of `class` characters that begins at `from` ends.
pub fn scan(s: &Vec<char>, from: usize, class: CharClass) -> (end: usize)
    requires
        from <= s.len(),
    ensures
        end == run_end(s@, from as int, class),
        from <= end <= s.len(),
{
    let mut i: usize = from;
    while i < s.len() && class_holds(class, s[i])
        invariant
            from <= i <= s.len(),
            run_end(s@, from as int, class) == run_end(s@, i as int, class),
        decreases s.len() - i,
    {
        i += 1;
    }
    i
}

/// Finds where the run of `class` characters that ends at `to` begins,
/// looking no further back than `floor`.
pub fn scan_back(s: &Vec<char>, floor: usize, to: usize, class: CharClass) -> (start: usize)
    requires
        floor <= to <= s.len(),
    ensures
        start == run_start(s@, floor as int, to as int, class),
        floor <= start <= to,
{
    let mut i: usize = to;
    while floor < i && class_holds(class, s[i - 1])
        invariant
            floor <= i <= to <= s.len(),
            run_start(s@, floor as int, to as int, class) == run_start(
                s@,
                floor as int,
                i as int,
                class,
            ),
        decreases i,
    {
        i -= 1;
    }
    i
}

/// Where the text `s[from..to]` begins once leading whitespace is taken off.
pub open spec fn trim_lo(s: Seq<char>, from: int, to: int) -> int {
    let e = run_end(s, from, CharClass::Whitespace);
    if e < to {
        e
    } else {
        to
    }
}

/// Where the text `s[from..to]` ends once whitespace is taken off both ends.
pub open spec fn trim_hi(s: Seq<char>, from: int, to: int) -> int {
    run_start(s, trim_lo(s, from, to), to, CharClass::Whitespace)
}

/// Takes whitespace off both ends of `s[from..to]` and returns where what is
/// left begins and ends.
pub fn trim_bounds(s: &Vec<char>, from: usize, to: usize) -> (r: (usize, usize))
    requires
        from <= to <= s.len(),
    ensures
        r.0 == trim_lo(s@, from as int, to as int),
        r.1 == trim_hi(s@, from as int, to as int),
        from <= r.0 <= r.1 <= to,
{
    let e = scan(s, from, CharClass::Whitespace);
    let lo = if e < to {
        e
    } else {
        to
    };
    let hi = scan_back(s, lo, to, CharClass::Whitespace);
    (lo, hi)
}

} // verus!
