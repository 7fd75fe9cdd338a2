//! Character classes, maximal runs of them, and line/column tracking.

use vstd::prelude::*;

verus! {

/// The classes of characters that the lexical rules are built from.
#[derive(Debug, Clone, Copy, PartialEq, Eq)]
pub enum CharClass {
    /// `0`-`9`.
    Digit,
    /// `0`-`9`, `a`-`f`, `A`-`F`.
    HexDigit,
    /// `_`, `a`-`z`, `A`-`Z`.
    WordStart,
    /// `_`, `a`-`z`, `A`-`Z`, `0`-`9`.
    Word,
    /// The characters with the Unicode White_Space property: U+0009 to U+000D,
    /// U+0020, U+0085, U+00A0, U+1680, U+2000 to U+200A, U+2028, U+2029,
    /// U+202F, U+205F, U+3000.
    Space,
}

pub open spec fn is_digit(c: char) -> bool {
    '0' <= c && c <= '9'
}

pub open spec fn is_letter(c: char) -> bool {
    ('a' <= c && c <= 'z') || ('A' <= c && c <= 'Z')
}

/// Unicode's White_Space property.
pub open spec fn is_white_space(c: char) -> bool {
    c == ' ' || ('\t' <= c && c <= '\r') || c == '\u{85}' || c == '\u{A0}' || c == '\u{1680}' || (
    '\u{2000}' <= c && c <= '\u{200A}') || c == '\u{2028}' || c == '\u{2029}' || c == '\u{202F}'
        || c == '\u{205F}' || c == '\u{3000}'
}

pub open spec fn in_class(c: char, cls: CharClass) -> bool {
    match cls {
        CharClass::Digit => is_digit(c),
        CharClass::HexDigit => is_digit(c) || ('a' <= c && c <= 'f') || ('A' <= c && c <= 'F'),
        CharClass::WordStart => c == '_' || is_letter(c),
        CharClass::Word => c == '_' || is_letter(c) || is_digit(c),
        CharClass::Space => is_white_space(c),
    }
}

pub fn char_in(c: char, cls: CharClass) -> (r: bool)
    ensures
        r == in_class(c, cls),
{
    match cls {
        CharClass::Digit => '0' <= c && c <= '9',
        CharClass::HexDigit => ('0' <= c && c <= '9') || ('a' <= c && c <= 'f') || ('A' <= c
            && c <= 'F'),
        CharClass::WordStart => c == '_' || ('a' <= c && c <= 'z') || ('A' <= c && c <= 'Z'),
        CharClass::Word => c == '_' || ('a' <= c && c <= 'z') || ('A' <= c && c <= 'Z') || (
        '0' <= c && c <= '9'),
        CharClass::Space => c == ' ' || ('\t' <= c && c <= '\r') || c == '\u{85}' || c == '\u{A0}'
            || c == '\u{1680}' || ('\u{2000}' <= c && c <= '\u{200A}') || c == '\u{2028}' || c
            == '\u{2029}' || c == '\u{202F}' || c == '\u{205F}' || c == '\u{3000}',
    }
}

/// The length of the longest run of `cls` characters in `s` that starts at `i`.
pub open spec fn run_len(s: Seq<char>, i: int, cls: CharClass) -> nat
    decreases s.len() - i,
{
    if 0 <= i < s.len() && in_class(s[i], cls) {
        1 + run_len(s, i + 1, cls)
    } else {
        0
    }
}

pub proof fn lemma_run_bounds(s: Seq<char>, i: int, cls: CharClass)
    requires
        0 <= i,
    ensures
        run_len(s, i, cls) > 0 ==> i + run_len(s, i, cls) <= s.len(),
        i <= s.len() ==> i + run_len(s, i, cls) <= s.len(),
        forall|k: int| i <= k < i + run_len(s, i, cls) ==> in_class(#[trigger] s[k], cls),
        i + run_len(s, i, cls) < s.len() ==> !in_class(s[i + run_len(s, i, cls)], cls),
    decreases s.len() - i,
{
    if i < s.len() && in_class(s[i], cls) {
        lemma_run_bounds(s, i + 1, cls);
    }
}

/// The end of the longest run of `cls` characters in `s` from `i`.
pub fn run_end(s: &Vec<char>, i: usize, cls: CharClass) -> (r: usize)
    requires
        i <= s.len(),
    ensures
        r == i + run_len(s@, i as int, cls),
        r <= s.len(),
{
    let mut j: usize = i;
    proof {
        lemma_run_bounds(s@, i as int, cls);
    }
    while j < s.len() && char_in(s[j], cls)
        invariant
            i <= j <= s.len(),
            i + run_len(s@, i as int, cls) == j + run_len(s@, j as int, cls),
        decreases s.len() - j,
    {
        j = j + 1;
    }
    j
}

/// The number of line feeds in `t`.
pub open spec fn newline_count(t: Seq<char>) -> nat
    decreases t.len(),
{
    if t.len() == 0 {
        0
    } else {
        newline_count(t.drop_last()) + if t.last() == '\n' {
            1nat
        } else {
            0nat
        }
    }
}

/// The number of characters in `t` after its last line feed (all of `t` if it has none).
pub open spec fn after_last_newline(t: Seq<char>) -> nat
    decreases t.len(),
{
    if t.len() == 0 || t.last() == '\n' {
        0
    } else {
        after_last_newline(t.drop_last()) + 1
    }
}

/// Where line and column stand after reading `t` from (`line`, `column`): each
/// line feed moves one line down; the column then counts from 1 the characters
/// after the last line feed, or, with no line feed, moves on by the length of `t`.
pub open spec fn position_after(t: Seq<char>, line: int, column: int) -> (int, int) {
    if newline_count(t) > 0 {
        (line + newline_count(t), after_last_newline(t) + 1int)
    } else {
        (line, column + t.len())
    }
}

pub proof fn lemma_newline_count_bound(t: Seq<char>)
    ensures
        newline_count(t) <= t.len(),
        after_last_newline(t) <= t.len(),
    decreases t.len(),
{
    if t.len() > 0 {
        lemma_newline_count_bound(t.drop_last());
    }
}

/// Moves (`line`, `column`) over the characters `s[from..to]`.
pub fn advance_position(s: &Vec<char>, from: usize, to: usize, line: usize, column: usize) -> (r: (
    usize,
    usize,
))
    requires
        from <= to <= s.len(),
        column >= 1,
        line + (to - from) <= usize::MAX,
        column + (to - from) <= usize::MAX,
    ensures
        (r.0 as int, r.1 as int) == position_after(s@.subrange(from as int, to as int), line as int, column as int),
{
    let mut l: usize = line;
    let mut c: usize = column;
    let mut k: usize = from;
    while k < to
        invariant
            from <= k <= to <= s.len(),
            column >= 1,
            line + (to - from) <= usize::MAX,
            column + (to - from) <= usize::MAX,
            (l as int, c as int) == position_after(s@.subrange(from as int, k as int), line as int, column as int),
        decreases to - k,
    {
        let ghost prev = s@.subrange(from as int, k as int);
        let ghost next = s@.subrange(from as int, k + 1);
        proof {
            assert(next.drop_last() =~= prev);
            lemma_newline_count_bound(prev);
        }
        if s[k] == '\n' {
            l = l + 1;
            c = 1;
        } else {
            c = c + 1;
        }
        k = k + 1;
    }
    (l, c)
}

} // verus!
