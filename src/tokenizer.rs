//! The lexer: source text to a sequence of tokens, or the place where no token
//! rule applies.

use vstd::prelude::*;
use vstd::std_specs::iter::IteratorSpec;
use crate::position::{
    CharClass, advance_position, char_in, in_class, lemma_newline_count_bound, lemma_run_bounds,
    position_after, run_end, run_len,
};

verus! {

/// The kind of a token, with the text it was read from where that text is
/// not fixed by the kind.
#[derive(Debug, Clone, PartialEq, Eq)]
pub enum TokenKind {
    /// A reserved word.
    Keyword(String),
    /// An operator or separator such as `+`, `..`, `,` or `{`.
    Operator(String),
    /// A name that is not a reserved word.
    Identifier(String),
    /// A number literal, exactly as it appears in the source.
    NumberLiteral(String),
    /// `true` or `false`.
    BoolLiteral(bool),
    /// `nil`.
    NilLiteral,
    /// `(`.
    OpenParen,
    /// `)`.
    CloseParen,
}

/// A token of the source.
#[derive(Debug, Clone, PartialEq, Eq)]
pub struct Token {
    /// What the token is.
    pub kind: TokenKind,
    /// The whitespace that came before the token.
    pub whitespace: String,
    /// The line the token starts on, counted from 1.
    pub line: usize,
    /// The column the token starts at, counted from 1.
    pub column: usize,
}

/// Why the source could not be read as tokens.
#[derive(Debug, Clone, PartialEq, Eq)]
pub enum TokenizeError {
    /// No token rule applies at this place.
    UnknownSequence {
        /// The source from the place where no rule applies to its end.
        remainder: String,
        /// The line of that place, counted from 1.
        line: usize,
        /// The column of that place, counted from 1.
        column: usize,
    },
}

/// [`TokenKind`] with its text as a sequence of characters.
pub enum TokenKindModel {
    Keyword(Seq<char>),
    Operator(Seq<char>),
    Identifier(Seq<char>),
    NumberLiteral(Seq<char>),
    BoolLiteral(bool),
    NilLiteral,
    OpenParen,
    CloseParen,
}

/// [`Token`] over sequences of characters and integers.
pub struct TokenModel {
    pub kind: TokenKindModel,
    pub whitespace: Seq<char>,
    pub line: int,
    pub column: int,
}

/// [`TokenizeError`] over sequences of characters and integers.
pub struct UnknownSequenceModel {
    pub remainder: Seq<char>,
    pub line: int,
    pub column: int,
}

impl View for TokenKind {
    type V = TokenKindModel;

    open spec fn view(&self) -> TokenKindModel {
        match self {
            TokenKind::Keyword(t) => TokenKindModel::Keyword(t@),
            TokenKind::Operator(t) => TokenKindModel::Operator(t@),
            TokenKind::Identifier(t) => TokenKindModel::Identifier(t@),
            TokenKind::NumberLiteral(t) => TokenKindModel::NumberLiteral(t@),
            TokenKind::BoolLiteral(b) => TokenKindModel::BoolLiteral(*b),
            TokenKind::NilLiteral => TokenKindModel::NilLiteral,
            TokenKind::OpenParen => TokenKindModel::OpenParen,
            TokenKind::CloseParen => TokenKindModel::CloseParen,
        }
    }
}

impl View for Token {
    type V = TokenModel;

    open spec fn view(&self) -> TokenModel {
        TokenModel {
            kind: self.kind@,
            whitespace: self.whitespace@,
            line: self.line as int,
            column: self.column as int,
        }
    }
}

impl View for TokenizeError {
    type V = UnknownSequenceModel;

    open spec fn view(&self) -> UnknownSequenceModel {
        match self {
            TokenizeError::UnknownSequence { remainder, line, column } => UnknownSequenceModel {
                remainder: remainder@,
                line: *line as int,
                column: *column as int,
            },
        }
    }
}

pub open spec fn tokens_view(v: Seq<Token>) -> Seq<TokenModel> {
    v.map_values(|t: Token| t@)
}

pub open spec fn tokenize_view(r: Result<Vec<Token>, TokenizeError>) -> Result<
    Seq<TokenModel>,
    UnknownSequenceModel,
> {
    match r {
        Ok(v) => Ok(tokens_view(v@)),
        Err(e) => Err(e@),
    }
}

pub open spec fn char_at(s: Seq<char>, i: int, c: char) -> bool {
    0 <= i < s.len() && s[i] == c
}

/// The reserved words.
pub open spec fn is_reserved(t: Seq<char>) -> bool {
    t == "and"@ || t == "break"@ || t == "do"@ || t == "else"@ || t == "elseif"@ || t == "end"@
        || t == "for"@ || t == "function"@ || t == "goto"@ || t == "if"@ || t == "in"@ || t
        == "local"@ || t == "not"@ || t == "or"@ || t == "repeat"@ || t == "return"@ || t
        == "then"@ || t == "until"@ || t == "while"@
}

/// The kind of a token read by the word rule.
pub open spec fn classify_word(t: Seq<char>) -> TokenKindModel {
    if is_reserved(t) {
        TokenKindModel::Keyword(t)
    } else if t == "true"@ {
        TokenKindModel::BoolLiteral(true)
    } else if t == "false"@ {
        TokenKindModel::BoolLiteral(false)
    } else if t == "nil"@ {
        TokenKindModel::NilLiteral
    } else {
        TokenKindModel::Identifier(t)
    }
}

/// The end of the word (`[_a-zA-Z][_a-zA-Z0-9]*`) at `i`, or `i` if there is none.
pub open spec fn word_end(s: Seq<char>, i: int) -> int {
    if 0 <= i < s.len() && in_class(s[i], CharClass::WordStart) {
        i + 1 + run_len(s, i + 1, CharClass::Word)
    } else {
        i
    }
}

pub open spec fn is_operator_char(c: char) -> bool {
    c == '=' || c == '+' || c == '*' || c == '/' || c == '^' || c == '%' || c == '#' || c == ','
        || c == ';' || c == '{' || c == '}' || c == '[' || c == ']'
}

/// The end of the operator at `i` (`..` or one operator character), or `i`.
pub open spec fn operator_end(s: Seq<char>, i: int) -> int {
    if char_at(s, i, '.') && char_at(s, i + 1, '.') {
        i + 2
    } else if 0 <= i < s.len() && is_operator_char(s[i]) {
        i + 1
    } else {
        i
    }
}

/// The end of an exponent suffix (`[eE]-?[0-9]+`) at `m`, or `m`.
pub open spec fn exponent_end(s: Seq<char>, m: int) -> int {
    let k = if char_at(s, m + 1, '-') {
        m + 2
    } else {
        m + 1
    };
    if (char_at(s, m, 'e') || char_at(s, m, 'E')) && run_len(s, k, CharClass::Digit) > 0 {
        k + run_len(s, k, CharClass::Digit)
    } else {
        m
    }
}

/// The end of the number literal at `i`, or `i` if there is none. With an
/// optional leading `-`, the first of these that applies: `0x` and hex digits;
/// digits, `.` and at least one digit; at least one digit. The last two take an
/// optional exponent suffix.
pub open spec fn number_end(s: Seq<char>, i: int) -> int {
    let j = if char_at(s, i, '-') {
        i + 1
    } else {
        i
    };
    let d = run_len(s, j, CharClass::Digit);
    if char_at(s, j, '0') && char_at(s, j + 1, 'x') && run_len(s, j + 2, CharClass::HexDigit) > 0 {
        j + 2 + run_len(s, j + 2, CharClass::HexDigit)
    } else if char_at(s, j + d, '.') && run_len(s, j + d + 1, CharClass::Digit) > 0 {
        exponent_end(s, j + d + 1 + run_len(s, j + d + 1, CharClass::Digit))
    } else if d > 0 {
        exponent_end(s, j + d)
    } else {
        i
    }
}

/// The token that starts at `i`, with its end: the rules are tried in a fixed
/// order (word, operator, number, `(`, `)`, `-`) and the first that applies wins.
pub open spec fn lex_at(s: Seq<char>, i: int) -> Option<(int, TokenKindModel)> {
    if word_end(s, i) > i {
        Some((word_end(s, i), classify_word(s.subrange(i, word_end(s, i)))))
    } else if operator_end(s, i) > i {
        Some((operator_end(s, i), TokenKindModel::Operator(s.subrange(i, operator_end(s, i)))))
    } else if number_end(s, i) > i {
        Some((number_end(s, i), TokenKindModel::NumberLiteral(s.subrange(i, number_end(s, i)))))
    } else if char_at(s, i, '(') {
        Some((i + 1, TokenKindModel::OpenParen))
    } else if char_at(s, i, ')') {
        Some((i + 1, TokenKindModel::CloseParen))
    } else if char_at(s, i, '-') {
        Some((i + 1, TokenKindModel::Operator(s.subrange(i, i + 1))))
    } else {
        None
    }
}

/// Reads `s` from `i` on, with `line` and `column` the position of `i`: skip
/// whitespace, read one token, and go on; stop at the end of `s`, or with an
/// error where no token rule applies.
pub open spec fn lex_from(s: Seq<char>, i: int, line: int, column: int) -> Result<
    Seq<TokenModel>,
    UnknownSequenceModel,
>
    decreases s.len() - i,
    via lex_from_decreases
{
    if !(0 <= i <= s.len()) {
        Ok(seq![])
    } else {
        let w = i + run_len(s, i, CharClass::Space);
        let p = position_after(s.subrange(i, w), line, column);
        match lex_at(s, w) {
            None => if w == s.len() {
                Ok(seq![])
            } else {
                Err(UnknownSequenceModel { remainder: s.subrange(w, s.len() as int), line: p.0, column: p.1 })
            },
            Some((e, kind)) => {
                let q = position_after(s.subrange(w, e), p.0, p.1);
                let tok = TokenModel { kind, whitespace: s.subrange(i, w), line: p.0, column: p.1 };
                match lex_from(s, e, q.0, q.1) {
                    Ok(rest) => Ok(seq![tok] + rest),
                    Err(err) => Err(err),
                }
            },
        }
    }
}

#[via_fn]
proof fn lex_from_decreases(s: Seq<char>, i: int, line: int, column: int) {
    if 0 <= i <= s.len() {
        let w = i + run_len(s, i, CharClass::Space);
        lemma_run_bounds(s, i, CharClass::Space);
        lemma_lex_at_bounds(s, w);
    }
}

/// A token found by [`lex_at`] is not empty and lies within `s`.
pub proof fn lemma_lex_at_bounds(s: Seq<char>, i: int)
    requires
        0 <= i <= s.len(),
    ensures
        lex_at(s, i) matches Some((e, _)) ==> i < e <= s.len(),
        word_end(s, i) >= i,
        word_end(s, i) <= s.len(),
        operator_end(s, i) <= s.len(),
        number_end(s, i) <= s.len(),
{
    lemma_run_bounds(s, i + 1, CharClass::Word);
    let j = if char_at(s, i, '-') {
        i + 1
    } else {
        i
    };
    let d = run_len(s, j, CharClass::Digit);
    lemma_run_bounds(s, j, CharClass::Digit);
    lemma_run_bounds(s, j + 2, CharClass::HexDigit);
    lemma_run_bounds(s, j + d + 1, CharClass::Digit);
    let m1 = j + d + 1 + run_len(s, j + d + 1, CharClass::Digit);
    lemma_exponent_end_bounds(s, m1);
    lemma_exponent_end_bounds(s, j + d);
}

proof fn lemma_exponent_end_bounds(s: Seq<char>, m: int)
    requires
        0 <= m,
    ensures
        m <= exponent_end(s, m),
        m <= s.len() ==> exponent_end(s, m) <= s.len(),
{
    lemma_run_bounds(s, m + 1, CharClass::Digit);
    lemma_run_bounds(s, m + 2, CharClass::Digit);
}

/// The characters of `s`, in order.
pub fn chars_of(s: &str) -> (r: Vec<char>)
    ensures
        r@ == s@,
{
    broadcast use vstd::string::group_string_axioms;

    let mut out: Vec<char> = Vec::new();
    let mut it = s.chars();
    loop
        invariant
            out@ + it.remaining() == s@,
            it.obeys_prophetic_iter_laws(),
            it.decrease() is Some,
        ensures
            out@ == s@,
        decreases it.decrease()->0,
    {
        match it.next() {
            Some(c) => {
                out.push(c);
            },
            None => {
                break;
            },
        }
    }
    out
}

/// Whether `s[from..to]` is the text `w`.
fn text_is(s: &Vec<char>, from: usize, to: usize, w: &str) -> (r: bool)
    requires
        from <= to <= s.len(),
    ensures
        r == (s@.subrange(from as int, to as int) == w@),
{
    let n = w.unicode_len();
    if n != to - from {
        return false;
    }
    let mut k: usize = 0;
    while k < n
        invariant
            n == w@.len(),
            n == to - from,
            from <= to <= s.len(),
            k <= n,
            forall|t: int| 0 <= t < k ==> s@[from + t] == w@[t],
        decreases n - k,
    {
        if s[from + k] != w.get_char(k) {
            assert(s@.subrange(from as int, to as int)[k as int] != w@[k as int]);
            return false;
        }
        k = k + 1;
    }
    assert(s@.subrange(from as int, to as int) =~= w@);
    true
}

fn reserved(s: &Vec<char>, from: usize, to: usize) -> (r: bool)
    requires
        from <= to <= s.len(),
    ensures
        r == is_reserved(s@.subrange(from as int, to as int)),
{
    text_is(s, from, to, "and") || text_is(s, from, to, "break") || text_is(s, from, to, "do")
        || text_is(s, from, to, "else") || text_is(s, from, to, "elseif") || text_is(s, from, to, "end")
        || text_is(s, from, to, "for") || text_is(s, from, to, "function") || text_is(s, from, to, "goto")
        || text_is(s, from, to, "if") || text_is(s, from, to, "in") || text_is(s, from, to, "local")
        || text_is(s, from, to, "not") || text_is(s, from, to, "or") || text_is(s, from, to, "repeat")
        || text_is(s, from, to, "return") || text_is(s, from, to, "then") || text_is(s, from, to, "until")
        || text_is(s, from, to, "while")
}

/// `source[from..to]` as a `String`.
fn slice_text(source: &str, from: usize, to: usize) -> (r: String)
    requires
        from <= to <= source@.len(),
    ensures
        r@ == source@.subrange(from as int, to as int),
{
    source.substring_char(from, to).to_owned()
}

fn classify(source: &str, s: &Vec<char>, from: usize, to: usize) -> (r: TokenKind)
    requires
        s@ == source@,
        from <= to <= s.len(),
    ensures
        r@ == classify_word(s@.subrange(from as int, to as int)),
{
    if reserved(s, from, to) {
        TokenKind::Keyword(slice_text(source, from, to))
    } else if text_is(s, from, to, "true") {
        TokenKind::BoolLiteral(true)
    } else if text_is(s, from, to, "false") {
        TokenKind::BoolLiteral(false)
    } else if text_is(s, from, to, "nil") {
        TokenKind::NilLiteral
    } else {
        TokenKind::Identifier(slice_text(source, from, to))
    }
}

fn is_at(s: &Vec<char>, i: usize, c: char) -> (r: bool)
    ensures
        r == char_at(s@, i as int, c),
{
    i < s.len() && s[i] == c
}

fn find_word_end(s: &Vec<char>, i: usize) -> (r: usize)
    requires
        i <= s.len(),
    ensures
        r == word_end(s@, i as int),
{
    if i < s.len() && char_in(s[i], CharClass::WordStart) {
        run_end(s, i + 1, CharClass::Word)
    } else {
        i
    }
}

fn find_operator_end(s: &Vec<char>, i: usize) -> (r: usize)
    requires
        i <= s.len(),
    ensures
        r == operator_end(s@, i as int),
{
    if is_at(s, i, '.') && is_at(s, i + 1, '.') {
        i + 2
    } else if i < s.len() {
        let c = s[i];
        if c == '=' || c == '+' || c == '*' || c == '/' || c == '^' || c == '%' || c == '#' || c
            == ',' || c == ';' || c == '{' || c == '}' || c == '[' || c == ']' {
            i + 1
        } else {
            i
        }
    } else {
        i
    }
}

fn find_exponent_end(s: &Vec<char>, m: usize) -> (r: usize)
    requires
        m <= s.len(),
    ensures
        r == exponent_end(s@, m as int),
{
    if is_at(s, m, 'e') || is_at(s, m, 'E') {
        let k = if is_at(s, m + 1, '-') {
            m + 2
        } else {
            m + 1
        };
        let e = run_end(s, k, CharClass::Digit);
        if e > k {
            e
        } else {
            m
        }
    } else {
        m
    }
}

fn find_number_end(s: &Vec<char>, i: usize) -> (r: usize)
    requires
        i <= s.len(),
    ensures
        r == number_end(s@, i as int),
{
    proof {
        lemma_lex_at_bounds(s@, i as int);
    }
    let j = if is_at(s, i, '-') {
        i + 1
    } else {
        i
    };
    let dend = run_end(s, j, CharClass::Digit);
    if is_at(s, j, '0') && is_at(s, j + 1, 'x') {
        let h = run_end(s, j + 2, CharClass::HexDigit);
        if h > j + 2 {
            return h;
        }
    }
    if is_at(s, dend, '.') {
        let f = run_end(s, dend + 1, CharClass::Digit);
        if f > dend + 1 {
            return find_exponent_end(s, f);
        }
    }
    if dend > j {
        find_exponent_end(s, dend)
    } else {
        i
    }
}

/// The token at `i` and its end, by the rules of [`lex_at`].
fn lex_token(source: &str, s: &Vec<char>, i: usize) -> (r: Option<(usize, TokenKind)>)
    requires
        s@ == source@,
        i <= s.len(),
    ensures
        match r {
            None => lex_at(s@, i as int) is None,
            Some((e, k)) => lex_at(s@, i as int) == Some((e as int, k@)),
        },
{
    proof {
        lemma_lex_at_bounds(s@, i as int);
    }
    let w = find_word_end(s, i);
    if w > i {
        return Some((w, classify(source, s, i, w)));
    }
    let o = find_operator_end(s, i);
    if o > i {
        return Some((o, TokenKind::Operator(slice_text(source, i, o))));
    }
    let n = find_number_end(s, i);
    if n > i {
        return Some((n, TokenKind::NumberLiteral(slice_text(source, i, n))));
    }
    if is_at(s, i, '(') {
        Some((i + 1, TokenKind::OpenParen))
    } else if is_at(s, i, ')') {
        Some((i + 1, TokenKind::CloseParen))
    } else if is_at(s, i, '-') {
        Some((i + 1, TokenKind::Operator(slice_text(source, i, i + 1))))
    } else {
        None
    }
}

/// Where line and column stand after `eaten`, read from `current_line` and
/// `current_column`.
pub fn get_new_position(eaten: &str, current_line: usize, current_column: usize) -> (r: (
    usize,
    usize,
))
    requires
        current_column >= 1,
        current_line + eaten@.len() <= usize::MAX,
        current_column + eaten@.len() <= usize::MAX,
    ensures
        (r.0 as int, r.1 as int) == position_after(eaten@, current_line as int, current_column as int),
{
    let s = chars_of(eaten);
    let r = advance_position(&s, 0, s.len(), current_line, current_column);
    assert(s@.subrange(0, s@.len() as int) =~= eaten@);
    r
}

pub open spec fn prepend_tokens(
    done: Seq<TokenModel>,
    r: Result<Seq<TokenModel>, UnknownSequenceModel>,
) -> Result<Seq<TokenModel>, UnknownSequenceModel> {
    match r {
        Ok(rest) => Ok(done + rest),
        Err(e) => Err(e),
    }
}

/// Reads all of `source` as tokens. Fails with the remaining text and its
/// position where no token rule applies; no tokens are returned then.
pub fn tokenize(source: &str) -> (r: Result<Vec<Token>, TokenizeError>)
    requires
        source@.len() < usize::MAX,
    ensures
        tokenize_view(r) == lex_from(source@, 0, 1, 1),
{
    let s = chars_of(source);
    let mut tokens: Vec<Token> = Vec::new();
    let mut i: usize = 0;
    let mut line: usize = 1;
    let mut column: usize = 1;
    loop
        invariant
            s@ == source@,
            s.len() < usize::MAX,
            i <= s.len(),
            1 <= line <= i + 1,
            1 <= column <= i + 1,
            lex_from(s@, 0, 1, 1) == prepend_tokens(
                tokens_view(tokens@),
                lex_from(s@, i as int, line as int, column as int),
            ),
        decreases s.len() - i,
    {
        let w = run_end(&s, i, CharClass::Space);
        proof {
            lemma_newline_count_bound(s@.subrange(i as int, w as int));
        }
        let (l1, c1) = advance_position(&s, i, w, line, column);
        match lex_token(source, &s, w) {
            None => {
                if w == s.len() {
                    proof {
                        assert(tokens_view(tokens@) + seq![] =~= tokens_view(tokens@));
                    }
                    return Ok(tokens);
                } else {
                    return Err(
                        TokenizeError::UnknownSequence {
                            remainder: slice_text(source, w, s.len()),
                            line: l1,
                            column: c1,
                        },
                    );
                }
            },
            Some((e, kind)) => {
                proof {
                    lemma_lex_at_bounds(s@, w as int);
                    lemma_newline_count_bound(s@.subrange(w as int, e as int));
                }
                let tok = Token { kind, whitespace: slice_text(source, i, w), line: l1, column: c1 };
                let ghost before = tokens_view(tokens@);
                let ghost t = tok@;
                tokens.push(tok);
                let (l2, c2) = advance_position(&s, w, e, l1, c1);
                proof {
                    assert(tokens_view(tokens@) =~= before + seq![t]);
                    match lex_from(s@, e as int, l2 as int, c2 as int) {
                        Ok(rest) => {
                            assert(before + (seq![t] + rest) =~= (before + seq![t]) + rest);
                        },
                        Err(_) => {},
                    }
                }
                i = e;
                line = l2;
                column = c2;
            },
        }
    }
}

/// The text a token of kind `k` was read from.
pub open spec fn kind_text(k: TokenKindModel) -> Seq<char> {
    match k {
        TokenKindModel::Keyword(t) => t,
        TokenKindModel::Operator(t) => t,
        TokenKindModel::Identifier(t) => t,
        TokenKindModel::NumberLiteral(t) => t,
        TokenKindModel::BoolLiteral(b) => if b {
            "true"@
        } else {
            "false"@
        },
        TokenKindModel::NilLiteral => "nil"@,
        TokenKindModel::OpenParen => "("@,
        TokenKindModel::CloseParen => ")"@,
    }
}

/// Each token's leading whitespace followed by its text, in order.
pub open spec fn rebuild(ts: Seq<TokenModel>) -> Seq<char>
    decreases ts.len(),
{
    if ts.len() == 0 {
        seq![]
    } else {
        ts[0].whitespace + kind_text(ts[0].kind) + rebuild(ts.drop_first())
    }
}

/// The kind of a token found by [`lex_at`] gives back the text it was read from.
pub proof fn lemma_lex_at_text(s: Seq<char>, i: int)
    requires
        0 <= i <= s.len(),
    ensures
        lex_at(s, i) matches Some((e, k)) ==> kind_text(k) == s.subrange(i, e),
{
    reveal_strlit("(");
    reveal_strlit(")");
    lemma_lex_at_bounds(s, i);
    if word_end(s, i) <= i && operator_end(s, i) <= i && number_end(s, i) <= i {
        if char_at(s, i, '(') {
            assert(s.subrange(i, i + 1) =~= "("@);
        } else if char_at(s, i, ')') {
            assert(s.subrange(i, i + 1) =~= ")"@);
        }
    }
}

proof fn lemma_rebuild_from(s: Seq<char>, i: int, line: int, column: int)
    requires
        0 <= i <= s.len(),
        lex_from(s, i, line, column) is Ok,
    ensures
        ({
            let n = rebuild(lex_from(s, i, line, column)->Ok_0).len() as int;
            &&& i + n <= s.len()
            &&& s.subrange(i, i + n) == rebuild(lex_from(s, i, line, column)->Ok_0)
            &&& forall|k: int| i + n <= k < s.len() ==> in_class(#[trigger] s[k], CharClass::Space)
        }),
    decreases s.len() - i,
{
    let w = i + run_len(s, i, CharClass::Space);
    lemma_run_bounds(s, i, CharClass::Space);
    lemma_lex_at_bounds(s, w);
    lemma_lex_at_text(s, w);
    let p = position_after(s.subrange(i, w), line, column);
    match lex_at(s, w) {
        None => {
            assert(rebuild(seq![]) =~= seq![]);
        },
        Some((e, kind)) => {
            let q = position_after(s.subrange(w, e), p.0, p.1);
            let tok = TokenModel { kind, whitespace: s.subrange(i, w), line: p.0, column: p.1 };
            lemma_rebuild_from(s, e, q.0, q.1);
            let rest = lex_from(s, e, q.0, q.1)->Ok_0;
            let ts = seq![tok] + rest;
            assert(ts.drop_first() =~= rest);
            assert(ts[0] == tok);
            let n = rebuild(rest).len() as int;
            assert(s.subrange(i, e + n) =~= s.subrange(i, w) + s.subrange(w, e) + s.subrange(e, e + n));
        },
    }
}

/// Reading a source as tokens loses nothing but the whitespace at its end: the
/// leading whitespace and text of each token, in order, give the source up to
/// that whitespace, and give the whole source where it does not end in
/// whitespace.
pub proof fn lemma_tokens_rebuild_source(source: Seq<char>)
    requires
        lex_from(source, 0, 1, 1) is Ok,
    ensures
        ({
            let text = rebuild(lex_from(source, 0, 1, 1)->Ok_0);
            &&& text.len() <= source.len()
            &&& source == text + source.subrange(text.len() as int, source.len() as int)
            &&& forall|k: int|
                text.len() <= k < source.len() ==> in_class(#[trigger] source[k], CharClass::Space)
            &&& (source.len() == 0 || !in_class(source.last(), CharClass::Space)) ==> text == source
        }),
{
    lemma_rebuild_from(source, 0, 1, 1);
    let text = rebuild(lex_from(source, 0, 1, 1)->Ok_0);
    assert(source =~= source.subrange(0, text.len() as int) + source.subrange(text.len() as int, source.len() as int));
    if text.len() < source.len() {
        assert(in_class(source[source.len() - 1], CharClass::Space));
    }
}

} // verus!
