//! The C1 lexer: a specification of how source text splits into tokens, and
//! the lexer that computes it.
use vstd::prelude::*;

use crate::token::{C1Token, TokenData};

verus! {

broadcast use vstd::string::group_string_axioms;

/// White space between tokens: blank, tab, line feed, carriage return, form feed.
pub open spec fn is_space(c: char) -> bool {
    c == ' ' || c == '\t' || c == '\n' || c == '\r' || c == '\x0C'
}

pub open spec fn is_alpha(c: char) -> bool {
    ('a' <= c && c <= 'z') || ('A' <= c && c <= 'Z')
}

pub open spec fn is_digit(c: char) -> bool {
    '0' <= c && c <= '9'
}

/// The classes of character over which the lexer scans runs.
#[derive(Clone, Copy, PartialEq, Eq, Structural)]
pub enum CharClass {
    /// `0`..`9`
    Digit,
    /// letters and digits
    Alnum,
    /// anything but a line feed
    LineBody,
    /// anything but a line feed or a double quote
    StringBody,
}

pub open spec fn in_class(c: char, k: CharClass) -> bool {
    match k {
        CharClass::Digit => is_digit(c),
        CharClass::Alnum => is_alpha(c) || is_digit(c),
        CharClass::LineBody => c != '\n',
        CharClass::StringBody => c != '\n' && c != '"',
    }
}

/// The end of the longest run of characters of class `k` that starts at `i`.
pub open spec fn span_end(s: Seq<char>, i: int, k: CharClass) -> int
    decreases s.len() - i,
{
    if 0 <= i < s.len() && in_class(s[i], k) {
        span_end(s, i + 1, k)
    } else {
        i
    }
}

/// Where a block comment whose body starts at `i` ends: just after the first
/// `*/` at or after `i`, if there is one.
pub open spec fn comment_close(s: Seq<char>, i: int) -> Option<int>
    decreases s.len() - i,
{
    if i < 0 || i + 1 >= s.len() {
        None
    } else if s[i] == '*' && s[i + 1] == '/' {
        Some(i + 2)
    } else {
        comment_close(s, i + 1)
    }
}

pub proof fn lemma_span_end_bounds(s: Seq<char>, i: int, k: CharClass)
    requires
        0 <= i <= s.len(),
    ensures
        i <= span_end(s, i, k) <= s.len(),
    decreases s.len() - i,
{
    if i < s.len() && in_class(s[i], k) {
        lemma_span_end_bounds(s, i + 1, k);
    }
}

pub proof fn lemma_comment_close_bounds(s: Seq<char>, i: int)
    ensures
        comment_close(s, i) matches Some(e) ==> i + 2 <= e <= s.len(),
    decreases s.len() - i,
{
    if !(i < 0 || i + 1 >= s.len()) && !(s[i] == '*' && s[i + 1] == '/') {
        lemma_comment_close_bounds(s, i + 1);
    }
}

/// The position of the first token at or after `i`: white space, `//` line
/// comments and `/* */` block comments are passed over.
pub open spec fn skip_trivia(s: Seq<char>, i: int) -> int
    decreases s.len() - i,
{
    if i < 0 || i >= s.len() {
        i
    } else if is_space(s[i]) {
        skip_trivia(s, i + 1)
    } else if s[i] == '/' && i + 1 < s.len() && s[i + 1] == '/' {
        proof {
            lemma_span_end_bounds(s, i + 2, CharClass::LineBody);
        }
        skip_trivia(s, span_end(s, i + 2, CharClass::LineBody))
    } else if s[i] == '/' && i + 1 < s.len() && s[i + 1] == '*' && comment_close(s, i + 2) is Some {
        proof {
            lemma_comment_close_bounds(s, i + 2);
        }
        skip_trivia(s, comment_close(s, i + 2)->0)
    } else {
        i
    }
}

/// The kind of a word made of letters and digits: a keyword, a boolean
/// constant, or an identifier.
pub open spec fn word_kind(w: Seq<char>) -> C1Token {
    if w == seq!['b', 'o', 'o', 'l'] {
        C1Token::KwBoolean
    } else if w == seq!['d', 'o'] {
        C1Token::KwDo
    } else if w == seq!['e', 'l', 's', 'e'] {
        C1Token::KwElse
    } else if w == seq!['f', 'l', 'o', 'a', 't'] {
        C1Token::KwFloat
    } else if w == seq!['f', 'o', 'r'] {
        C1Token::KwFor
    } else if w == seq!['i', 'f'] {
        C1Token::KwIf
    } else if w == seq!['i', 'n', 't'] {
        C1Token::KwInt
    } else if w == seq!['p', 'r', 'i', 'n', 't', 'f'] {
        C1Token::KwPrintf
    } else if w == seq!['r', 'e', 't', 'u', 'r', 'n'] {
        C1Token::KwReturn
    } else if w == seq!['v', 'o', 'i', 'd'] {
        C1Token::KwVoid
    } else if w == seq!['w', 'h', 'i', 'l', 'e'] {
        C1Token::KwWhile
    } else if w == seq!['t', 'r', 'u', 'e'] || w == seq!['f', 'a', 'l', 's', 'e'] {
        C1Token::ConstBoolean
    } else {
        C1Token::Identifier
    }
}

/// The end of an exponent (`e` or `E`, an optional sign, digits) that
/// starts at `j`, if one does.
pub open spec fn exponent_end(s: Seq<char>, j: int) -> Option<int> {
    if 0 <= j < s.len() && (s[j] == 'e' || s[j] == 'E') {
        let k = if j + 1 < s.len() && (s[j + 1] == '+' || s[j + 1] == '-') {
            j + 2
        } else {
            j + 1
        };
        if k < s.len() && is_digit(s[k]) {
            Some(span_end(s, k + 1, CharClass::Digit))
        } else {
            None
        }
    } else {
        None
    }
}

/// A number that starts with the digit at `i`: `digits.digits` and
/// `digits` followed by an exponent are floats, plain `digits` an integer.
pub open spec fn scan_number(s: Seq<char>, i: int) -> (C1Token, int) {
    let d = span_end(s, i + 1, CharClass::Digit);
    if d + 1 < s.len() && s[d] == '.' && is_digit(s[d + 1]) {
        (C1Token::ConstFloat, span_end(s, d + 2, CharClass::Digit))
    } else {
        match exponent_end(s, d) {
            Some(e) => (C1Token::ConstFloat, e),
            None => (C1Token::ConstInt, d),
        }
    }
}

/// The kind of a token made of the single character `c`.
pub open spec fn single_kind(c: char) -> C1Token {
    if c == '+' {
        C1Token::Plus
    } else if c == '-' {
        C1Token::Minus
    } else if c == '*' {
        C1Token::Asterisk
    } else if c == '/' {
        C1Token::Slash
    } else if c == '=' {
        C1Token::Assign
    } else if c == '<' {
        C1Token::Less
    } else if c == '>' {
        C1Token::Greater
    } else if c == ',' {
        C1Token::Comma
    } else if c == ';' {
        C1Token::Semicolon
    } else if c == '(' {
        C1Token::LeftParenthesis
    } else if c == ')' {
        C1Token::RightParenthesis
    } else if c == '{' {
        C1Token::LeftBrace
    } else if c == '}' {
        C1Token::RightBrace
    } else {
        C1Token::Error
    }
}

/// The kind of a token made of `c` followed by `=`, `&` or `|`, if there is one.
pub open spec fn double_kind(c: char, n: char) -> Option<C1Token> {
    if c == '=' && n == '=' {
        Some(C1Token::Equal)
    } else if c == '!' && n == '=' {
        Some(C1Token::NotEqual)
    } else if c == '<' && n == '=' {
        Some(C1Token::LessEqual)
    } else if c == '>' && n == '=' {
        Some(C1Token::GreaterEqual)
    } else if c == '&' && n == '&' {
        Some(C1Token::And)
    } else if c == '|' && n == '|' {
        Some(C1Token::Or)
    } else {
        None
    }
}

/// The longest token that starts at `i` (which holds no white space and no
/// comment), as its kind and its end. A character that starts no token is
/// an `Error` token of its own.
pub open spec fn scan_token(s: Seq<char>, i: int) -> (C1Token, int) {
    let c = s[i];
    if is_alpha(c) {
        let e = span_end(s, i + 1, CharClass::Alnum);
        (word_kind(s.subrange(i, e)), e)
    } else if is_digit(c) {
        scan_number(s, i)
    } else if c == '.' && i + 1 < s.len() && is_digit(s[i + 1]) {
        let d = span_end(s, i + 2, CharClass::Digit);
        match exponent_end(s, d) {
            Some(e) => (C1Token::ConstFloat, e),
            None => (C1Token::ConstFloat, d),
        }
    } else if c == '"' {
        let e = span_end(s, i + 1, CharClass::StringBody);
        if e < s.len() && s[e] == '"' {
            (C1Token::ConstString, e + 1)
        } else {
            (C1Token::Error, i + 1)
        }
    } else if i + 1 < s.len() && double_kind(c, s[i + 1]) is Some {
        (double_kind(c, s[i + 1])->0, i + 2)
    } else {
        (single_kind(c), i + 1)
    }
}

pub proof fn lemma_scan_token_bounds(s: Seq<char>, i: int)
    requires
        0 <= i < s.len(),
    ensures
        i < scan_token(s, i).1 <= s.len(),
{
    let c = s[i];
    lemma_span_end_bounds(s, i + 1, CharClass::Alnum);
    lemma_span_end_bounds(s, i + 1, CharClass::Digit);
    lemma_span_end_bounds(s, i + 1, CharClass::StringBody);
    if i + 2 <= s.len() {
        lemma_span_end_bounds(s, i + 2, CharClass::Digit);
    }
    let d = span_end(s, i + 1, CharClass::Digit);
    if d + 2 <= s.len() {
        lemma_span_end_bounds(s, d + 2, CharClass::Digit);
    }
    lemma_exponent_end_bounds(s, d);
    if i + 2 <= s.len() {
        let d2 = span_end(s, i + 2, CharClass::Digit);
        lemma_exponent_end_bounds(s, d2);
    }
}

pub proof fn lemma_exponent_end_bounds(s: Seq<char>, j: int)
    ensures
        exponent_end(s, j) matches Some(e) ==> j < e <= s.len(),
{
    if 0 <= j < s.len() && (s[j] == 'e' || s[j] == 'E') {
        let k = if j + 1 < s.len() && (s[j + 1] == '+' || s[j + 1] == '-') {
            j + 2
        } else {
            j + 1
        };
        if k < s.len() {
            lemma_span_end_bounds(s, k + 1, CharClass::Digit);
        }
    }
}

pub proof fn lemma_skip_trivia_bounds(s: Seq<char>, i: int)
    requires
        0 <= i <= s.len(),
    ensures
        i <= skip_trivia(s, i) <= s.len(),
    decreases s.len() - i,
{
    if i < s.len() {
        if is_space(s[i]) {
            lemma_skip_trivia_bounds(s, i + 1);
        } else if s[i] == '/' && i + 1 < s.len() && s[i + 1] == '/' {
            lemma_span_end_bounds(s, i + 2, CharClass::LineBody);
            lemma_skip_trivia_bounds(s, span_end(s, i + 2, CharClass::LineBody));
        } else if s[i] == '/' && i + 1 < s.len() && s[i + 1] == '*' && comment_close(s, i + 2) is Some {
            lemma_comment_close_bounds(s, i + 2);
            lemma_skip_trivia_bounds(s, comment_close(s, i + 2)->0);
        }
    }
}

/// The number of line feeds in `s`.
pub open spec fn newlines(s: Seq<char>) -> nat
    decreases s.len(),
{
    if s.len() == 0 {
        0
    } else {
        newlines(s.drop_last()) + if s.last() == '\n' { 1nat } else { 0nat }
    }
}

/// The line (counted from 1) on which position `i` lies.
pub open spec fn line_of(s: Seq<char>, i: int) -> nat {
    1 + newlines(s.take(i))
}

/// The tokens of `s` from position `i` on.
pub open spec fn lex_from(s: Seq<char>, i: int) -> Seq<TokenData>
    decreases s.len() - i,
{
    if i < 0 || i > s.len() {
        seq![]
    } else {
        let j = skip_trivia(s, i);
        proof {
            lemma_skip_trivia_bounds(s, i);
        }
        if j >= s.len() {
            seq![]
        } else {
            let (k, e) = scan_token(s, j);
            proof {
                lemma_scan_token_bounds(s, j);
            }
            seq![TokenData { token: k, start: j as usize, end: e as usize, line: line_of(s, j) as usize }]
                + lex_from(s, e)
        }
    }
}

/// The tokens of the source text `s`.
pub open spec fn lex(s: Seq<char>) -> Seq<TokenData> {
    lex_from(s, 0)
}

/// The kinds of a sequence of tokens.
pub open spec fn token_kinds(ts: Seq<TokenData>) -> Seq<C1Token> {
    ts.map_values(|t: TokenData| t.token)
}

/// The characters of `text`, in order.
pub fn text_chars(text: &str) -> (v: Vec<char>)
    ensures
        v@ == text@,
{
    let mut v: Vec<char> = Vec::new();
    for c in it: text.chars()
        invariant
            v@ == it.seq().take(it.index()),
            it.seq() == text@,
    {
        v.push(c);
    }
    v
}


pub proof fn lemma_newlines_bound(s: Seq<char>)
    ensures
        newlines(s) <= s.len(),
    decreases s.len(),
{
    if s.len() > 0 {
        lemma_newlines_bound(s.drop_last());
    }
}

pub proof fn lemma_line_of_step(s: Seq<char>, k: int)
    requires
        0 <= k < s.len(),
    ensures
        line_of(s, k + 1) == line_of(s, k) + if s[k] == '\n' { 1int } else { 0int },
        line_of(s, k) <= k + 1,
{
    assert(s.take(k + 1).drop_last() =~= s.take(k));
    lemma_newlines_bound(s.take(k));
}

fn char_in_class(c: char, k: CharClass) -> (b: bool)
    ensures
        b == in_class(c, k),
{
    match k {
        CharClass::Digit => '0' <= c && c <= '9',
        CharClass::Alnum => ('a' <= c && c <= 'z') || ('A' <= c && c <= 'Z') || ('0' <= c && c
            <= '9'),
        CharClass::LineBody => c != '\n',
        CharClass::StringBody => c != '\n' && c != '"',
    }
}

/// The end of the run of class `k` that starts at `i`.
fn span(s: &Vec<char>, i: usize, k: CharClass) -> (e: usize)
    requires
        i <= s.len(),
    ensures
        e == span_end(s@, i as int, k),
        i <= e <= s.len(),
{
    let mut j: usize = i;
    while j < s.len() && char_in_class(s[j], k)
        invariant
            i <= j <= s.len(),
            span_end(s@, j as int, k) == span_end(s@, i as int, k),
        decreases s.len() - j,
    {
        j = j + 1;
    }
    j
}

/// Where the block comment whose body starts at `i` is closed.
fn find_comment_close(s: &Vec<char>, i: usize) -> (r: Option<usize>)
    requires
        i <= s.len(),
    ensures
        match r {
            Some(e) => comment_close(s@, i as int) == Some(e as int),
            None => comment_close(s@, i as int) is None,
        },
{
    let mut j: usize = i;
    while s.len() - j >= 2
        invariant
            i <= j <= s.len(),
            comment_close(s@, j as int) == comment_close(s@, i as int),
        decreases s.len() - j,
    {
        if s[j] == '*' && s[j + 1] == '/' {
            return Some(j + 2);
        }
        j = j + 1;
    }
    None
}

/// The position of the first token at or after `i`.
fn skip(s: &Vec<char>, i: usize) -> (j: usize)
    requires
        i <= s.len(),
    ensures
        j == skip_trivia(s@, i as int),
{
    let mut j: usize = i;
    loop
        invariant
            i <= j <= s.len(),
            skip_trivia(s@, j as int) == skip_trivia(s@, i as int),
        decreases s.len() - j,
    {
        if j >= s.len() {
            return j;
        }
        let c: char = s[j];
        if c == ' ' || c == '\t' || c == '\n' || c == '\r' || c == '\x0C' {
            j = j + 1;
        } else if c == '/' && s.len() - j >= 2 && s[j + 1] == '/' {
            j = span(s, j + 2, CharClass::LineBody);
        } else if c == '/' && s.len() - j >= 2 && s[j + 1] == '*' {
            proof {
                lemma_comment_close_bounds(s@, j + 2);
            }
            match find_comment_close(s, j + 2) {
                Some(e) => {
                    j = e;
                },
                None => {
                    return j;
                },
            }
        } else {
            return j;
        }
    }
}

/// Whether the characters of `s` in `start..end` spell `w`.
fn word_is(s: &Vec<char>, start: usize, end: usize, w: &[char]) -> (b: bool)
    requires
        start <= end <= s.len(),
    ensures
        b == (s@.subrange(start as int, end as int) == w@),
{
    if end - start != w.len() {
        return false;
    }
    let mut k: usize = 0;
    while k < w.len()
        invariant
            start <= end <= s.len(),
            end - start == w.len(),
            k <= w.len(),
            forall|m: int| 0 <= m < k ==> s@[start + m] == w@[m],
        decreases w.len() - k,
    {
        if s[start + k] != w[k] {
            assert(s@.subrange(start as int, end as int)[k as int] != w@[k as int]);
            return false;
        }
        k = k + 1;
    }
    assert(s@.subrange(start as int, end as int) =~= w@);
    true
}

/// The kind of the word in `start..end`.
fn keyword_kind(s: &Vec<char>, start: usize, end: usize) -> (t: C1Token)
    requires
        start <= end <= s.len(),
    ensures
        t == word_kind(s@.subrange(start as int, end as int)),
{
    let ghost w = s@.subrange(start as int, end as int);
    if word_is(s, start, end, &['b', 'o', 'o', 'l']) {
        C1Token::KwBoolean
    } else if word_is(s, start, end, &['d', 'o']) {
        C1Token::KwDo
    } else if word_is(s, start, end, &['e', 'l', 's', 'e']) {
        C1Token::KwElse
    } else if word_is(s, start, end, &['f', 'l', 'o', 'a', 't']) {
        C1Token::KwFloat
    } else if word_is(s, start, end, &['f', 'o', 'r']) {
        C1Token::KwFor
    } else if word_is(s, start, end, &['i', 'f']) {
        C1Token::KwIf
    } else if word_is(s, start, end, &['i', 'n', 't']) {
        C1Token::KwInt
    } else if word_is(s, start, end, &['p', 'r', 'i', 'n', 't', 'f']) {
        C1Token::KwPrintf
    } else if word_is(s, start, end, &['r', 'e', 't', 'u', 'r', 'n']) {
        C1Token::KwReturn
    } else if word_is(s, start, end, &['v', 'o', 'i', 'd']) {
        C1Token::KwVoid
    } else if word_is(s, start, end, &['w', 'h', 'i', 'l', 'e']) {
        C1Token::KwWhile
    } else if word_is(s, start, end, &['t', 'r', 'u', 'e']) || word_is(
        s,
        start,
        end,
        &['f', 'a', 'l', 's', 'e'],
    ) {
        C1Token::ConstBoolean
    } else {
        C1Token::Identifier
    }
}


/// The end of the exponent that starts at `j`, if one does.
fn exponent(s: &Vec<char>, j: usize) -> (r: Option<usize>)
    requires
        j <= s.len(),
    ensures
        match r {
            Some(e) => exponent_end(s@, j as int) == Some(e as int),
            None => exponent_end(s@, j as int) is None,
        },
{
    if j < s.len() && (s[j] == 'e' || s[j] == 'E') {
        let k: usize = if j + 1 < s.len() && (s[j + 1] == '+' || s[j + 1] == '-') {
            j + 2
        } else {
            j + 1
        };
        if k < s.len() && '0' <= s[k] && s[k] <= '9' {
            Some(span(s, k + 1, CharClass::Digit))
        } else {
            None
        }
    } else {
        None
    }
}

fn double_token(c: char, n: char) -> (r: Option<C1Token>)
    ensures
        r == double_kind(c, n),
{
    if c == '=' && n == '=' {
        Some(C1Token::Equal)
    } else if c == '!' && n == '=' {
        Some(C1Token::NotEqual)
    } else if c == '<' && n == '=' {
        Some(C1Token::LessEqual)
    } else if c == '>' && n == '=' {
        Some(C1Token::GreaterEqual)
    } else if c == '&' && n == '&' {
        Some(C1Token::And)
    } else if c == '|' && n == '|' {
        Some(C1Token::Or)
    } else {
        None
    }
}

fn single_token(c: char) -> (r: C1Token)
    ensures
        r == single_kind(c),
{
    if c == '+' {
        C1Token::Plus
    } else if c == '-' {
        C1Token::Minus
    } else if c == '*' {
        C1Token::Asterisk
    } else if c == '/' {
        C1Token::Slash
    } else if c == '=' {
        C1Token::Assign
    } else if c == '<' {
        C1Token::Less
    } else if c == '>' {
        C1Token::Greater
    } else if c == ',' {
        C1Token::Comma
    } else if c == ';' {
        C1Token::Semicolon
    } else if c == '(' {
        C1Token::LeftParenthesis
    } else if c == ')' {
        C1Token::RightParenthesis
    } else if c == '{' {
        C1Token::LeftBrace
    } else if c == '}' {
        C1Token::RightBrace
    } else {
        C1Token::Error
    }
}

/// The token that starts at `i`, as its kind and its end.
fn scan(s: &Vec<char>, i: usize) -> (r: (C1Token, usize))
    requires
        i < s.len(),
    ensures
        r.0 == scan_token(s@, i as int).0,
        r.1 == scan_token(s@, i as int).1,
{
    proof {
        lemma_scan_token_bounds(s@, i as int);
    }
    let c: char = s[i];
    if ('a' <= c && c <= 'z') || ('A' <= c && c <= 'Z') {
        let e: usize = span(s, i + 1, CharClass::Alnum);
        (keyword_kind(s, i, e), e)
    } else if '0' <= c && c <= '9' {
        let d: usize = span(s, i + 1, CharClass::Digit);
        if d < s.len() && d + 1 < s.len() && s[d] == '.' && '0' <= s[d + 1] && s[d + 1] <= '9' {
            (C1Token::ConstFloat, span(s, d + 2, CharClass::Digit))
        } else {
            match exponent(s, d) {
                Some(e) => (C1Token::ConstFloat, e),
                None => (C1Token::ConstInt, d),
            }
        }
    } else if c == '.' && i + 1 < s.len() && '0' <= s[i + 1] && s[i + 1] <= '9' {
        let d: usize = span(s, i + 2, CharClass::Digit);
        match exponent(s, d) {
            Some(e) => (C1Token::ConstFloat, e),
            None => (C1Token::ConstFloat, d),
        }
    } else if c == '"' {
        let e: usize = span(s, i + 1, CharClass::StringBody);
        if e < s.len() && s[e] == '"' {
            (C1Token::ConstString, e + 1)
        } else {
            (C1Token::Error, i + 1)
        }
    } else {
        let two: Option<C1Token> = if i + 1 < s.len() {
            double_token(c, s[i + 1])
        } else {
            None
        };
        match two {
            Some(t) => (t, i + 2),
            None => (single_token(c), i + 1),
        }
    }
}

/// The tokens of the source text `s`.
pub fn tokenize(s: &Vec<char>) -> (ts: Vec<TokenData>)
    ensures
        ts@ == lex(s@),
{
    let mut ts: Vec<TokenData> = Vec::new();
    let mut i: usize = 0;
    let mut line: usize = 1;
    let mut lpos: usize = 0;
    assert(s@.take(0) =~= Seq::<char>::empty());
    loop
        invariant
            i <= s.len(),
            lpos <= i,
            line == line_of(s@, lpos as int),
            ts@ + lex_from(s@, i as int) == lex(s@),
        decreases s.len() - i,
    {
        let j: usize = skip(s, i);
        proof {
            lemma_skip_trivia_bounds(s@, i as int);
        }
        if j >= s.len() {
            assert(lex_from(s@, i as int) =~= Seq::<TokenData>::empty());
            assert(ts@ =~= ts@ + lex_from(s@, i as int));
            return ts;
        }
        while lpos < j
            invariant
                lpos <= j < s.len(),
                line == line_of(s@, lpos as int),
            decreases j - lpos,
        {
            proof {
                lemma_line_of_step(s@, lpos as int);
            }
            if s[lpos] == '\n' {
                line = line + 1;
            }
            lpos = lpos + 1;
        }
        proof {
            lemma_line_of_step(s@, j as int);
        }
        let (k, e): (C1Token, usize) = scan(s, j);
        let td = TokenData { token: k, start: j, end: e, line };
        proof {
            lemma_scan_token_bounds(s@, j as int);
            assert(lex_from(s@, i as int) == seq![td] + lex_from(s@, e as int));
            assert(ts@.push(td) + lex_from(s@, e as int) =~= ts@ + (seq![td] + lex_from(
                s@,
                e as int,
            )));
        }
        ts.push(td);
        i = e;
    }
}


/// Every token of `lex_from(s, i)` covers a nonempty range of `s` and starts
/// on a line no later than its start position allows.
pub proof fn lemma_lex_from_ranges(s: Seq<char>, i: int)
    requires
        s.len() <= usize::MAX,
    ensures
        forall|n: int|
            0 <= n < lex_from(s, i).len() ==> {
                let t = #[trigger] lex_from(s, i)[n];
                &&& t.start < t.end <= s.len()
                &&& t.line == line_of(s, t.start as int)
            },
    decreases s.len() - i,
{
    if !(i < 0 || i > s.len()) {
        let j = skip_trivia(s, i);
        lemma_skip_trivia_bounds(s, i);
        if j < s.len() {
            let (k, e) = scan_token(s, j);
            lemma_scan_token_bounds(s, j);
            lemma_lex_from_ranges(s, e);
            lemma_newlines_bound(s.take(j));
            let tail = lex_from(s, e);
            assert forall|n: int| 0 <= n < lex_from(s, i).len() implies {
                let t = #[trigger] lex_from(s, i)[n];
                &&& t.start < t.end <= s.len()
                &&& t.line == line_of(s, t.start as int)
            } by {
                if n > 0 {
                    assert(lex_from(s, i)[n] == tail[n - 1]);
                } else {
                    assert(lex_from(s, i)[0].start == j);
                }
            }
        }
    }
}

pub proof fn lemma_line_of_mono(s: Seq<char>, a: int, b: int)
    requires
        0 <= a <= b <= s.len(),
    ensures
        line_of(s, a) <= line_of(s, b),
    decreases b - a,
{
    if a < b {
        lemma_line_of_step(s, b - 1);
        lemma_line_of_mono(s, a, b - 1);
    }
}

/// The tokens of `lex_from(s, i)` lie at or after `i`, each ending no later
/// than the next begins.
pub proof fn lemma_lex_from_order(s: Seq<char>, i: int)
    requires
        s.len() <= usize::MAX,
        0 <= i,
    ensures
        forall|n: int| 0 <= n < lex_from(s, i).len() ==> i <= #[trigger] lex_from(s, i)[n].start,
        forall|a: int, b: int|
            0 <= a < b < lex_from(s, i).len() ==> #[trigger] lex_from(s, i)[a].end
                <= #[trigger] lex_from(s, i)[b].start,
    decreases s.len() - i,
{
    if i <= s.len() {
        let j = skip_trivia(s, i);
        lemma_skip_trivia_bounds(s, i);
        if j < s.len() {
            let (k, e) = scan_token(s, j);
            lemma_scan_token_bounds(s, j);
            lemma_lex_from_order(s, e);
            let whole = lex_from(s, i);
            let tail = lex_from(s, e);
            assert(whole == seq![whole[0]] + tail);
            assert forall|n: int| 0 <= n < whole.len() implies i <= #[trigger] whole[n].start by {
                if n > 0 {
                    assert(whole[n] == tail[n - 1]);
                }
            }
            assert forall|a: int, b: int| 0 <= a < b < whole.len() implies #[trigger] whole[a].end
                <= #[trigger] whole[b].start by {
                assert(whole[b] == tail[b - 1]);
                if a > 0 {
                    assert(whole[a] == tail[a - 1]);
                }
            }
        }
    }
}

/// The tokens of a text stand in order: each ends where or before the next
/// begins, and the lines on which they start never decrease.
pub proof fn law_tokens_in_order(s: Seq<char>)
    requires
        s.len() <= usize::MAX,
    ensures
        forall|a: int, b: int|
            0 <= a < b < lex(s).len() ==> {
                &&& #[trigger] lex(s)[a].end <= #[trigger] lex(s)[b].start
                &&& lex(s)[a].line <= lex(s)[b].line
            },
{
    lemma_lex_from_order(s, 0);
    lemma_lex_from_ranges(s, 0);
    assert forall|a: int, b: int| 0 <= a < b < lex(s).len() implies {
        &&& #[trigger] lex(s)[a].end <= #[trigger] lex(s)[b].start
        &&& lex(s)[a].line <= lex(s)[b].line
    } by {
        let ta = lex(s)[a];
        let tb = lex(s)[b];
        assert(ta.end <= tb.start);
        assert(ta.start < ta.end);
        assert(tb.start < tb.end <= s.len());
        lemma_line_of_mono(s, ta.start as int, tb.start as int);
    }
}

/// The token at position `p` of a sequence of kinds, if there is one.
pub open spec fn token_at(ks: Seq<C1Token>, p: int) -> Option<C1Token> {
    if 0 <= p < ks.len() {
        Some(ks[p])
    } else {
        None
    }
}

/// A lexer over a source text: its tokens, and a position among them (the
/// current token).
pub struct C1Lexer {
    chars: Vec<char>,
    tokens: Vec<TokenData>,
    pos: usize,
}

impl C1Lexer {
    /// The source text.
    pub closed spec fn source(&self) -> Seq<char> {
        self.chars@
    }

    /// The tokens of the source text.
    pub closed spec fn tokens(&self) -> Seq<TokenData> {
        self.tokens@
    }

    /// The index of the current token; it equals the number of tokens once
    /// all are eaten.
    pub closed spec fn pos(&self) -> int {
        self.pos as int
    }

    /// The tokens are those of the source, and the position lies among them.
    pub open spec fn wf(&self) -> bool {
        &&& self.tokens() == lex(self.source())
        &&& 0 <= self.pos() <= self.tokens().len()
    }

    /// The kinds of the tokens.
    pub open spec fn kinds(&self) -> Seq<C1Token> {
        token_kinds(self.tokens())
    }

    /// The source text of token `p`.
    pub open spec fn text_of(&self, p: int) -> Seq<char> {
        self.source().subrange(self.tokens()[p].start as int, self.tokens()[p].end as int)
    }

    /// A lexer over `text`, positioned at its first token.
    pub fn new(text: &str) -> (l: Self)
        ensures
            l.wf(),
            l.source() == text@,
            l.pos() == 0,
    {
        let chars = text_chars(text);
        let tokens = tokenize(&chars);
        C1Lexer { chars, tokens, pos: 0 }
    }

    /// The kind of the current token; `None` at the end of the input.
    pub fn current_token(&self) -> (r: Option<C1Token>)
        requires
            self.wf(),
        ensures
            r == token_at(self.kinds(), self.pos()),
    {
        if self.pos < self.tokens.len() {
            Some(self.tokens[self.pos].token)
        } else {
            None
        }
    }

    /// The kind of the token after the current one, if there is one.
    pub fn peek_token(&self) -> (r: Option<C1Token>)
        requires
            self.wf(),
        ensures
            r == token_at(self.kinds(), self.pos() + 1),
    {
        if self.tokens.len() - self.pos >= 2 {
            Some(self.tokens[self.pos + 1].token)
        } else {
            None
        }
    }

    /// The line on which the current token starts, if there is one.
    pub fn current_line_number(&self) -> (r: Option<usize>)
        requires
            self.wf(),
        ensures
            r == if 0 <= self.pos() < self.tokens().len() {
                Some(self.tokens()[self.pos()].line)
            } else {
                None::<usize>
            },
    {
        if self.pos < self.tokens.len() {
            Some(self.tokens[self.pos].line)
        } else {
            None
        }
    }

    /// The source text of the current token, if there is one.
    pub fn current_text(&self) -> (r: Option<String>)
        requires
            self.wf(),
        ensures
            match r {
                Some(t) => 0 <= self.pos() < self.tokens().len() && t@ == self.text_of(self.pos()),
                None => self.pos() == self.tokens().len(),
            },
    {
        if self.pos < self.tokens.len() {
            let mut t = String::new();
            self.push_current_text(&mut t);
            Some(t)
        } else {
            None
        }
    }

    /// Appends the source text of the current token to `s`.
    pub fn push_current_text(&self, s: &mut String)
        requires
            self.wf(),
            0 <= self.pos() < self.tokens().len(),
        ensures
            final(s)@ == old(s)@ + self.text_of(self.pos()),
    {
        let len: usize = self.chars.len();
        assert(self.chars@.len() == len);
        proof {
            lemma_lex_from_ranges(self.chars@, 0);
            assert(self.tokens@[self.pos as int] == lex_from(self.chars@, 0)[self.pos as int]);
        }
        let t = self.tokens[self.pos];
        crate::text::push_chars(s, &self.chars, t.start, t.end);
    }

    /// Moves to the next token; at the end of the input nothing changes.
    pub fn eat(&mut self)
        requires
            old(self).wf(),
        ensures
            final(self).wf(),
            final(self).source() == old(self).source(),
            final(self).tokens() == old(self).tokens(),
            final(self).pos() == if old(self).pos() < old(self).tokens().len() {
                old(self).pos() + 1
            } else {
                old(self).pos()
            },
    {
        if self.pos < self.tokens.len() {
            self.pos = self.pos + 1;
        }
    }
}

} // verus!
