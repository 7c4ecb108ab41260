//! Laws of the lexer: what token a word, a number or an operator becomes,
//! and what is passed over between tokens.
use vstd::prelude::*;

use crate::lexer::{in_class, is_alpha, is_digit, scan_token, skip_trivia, span_end, CharClass};
use crate::token::C1Token;

verus! {

/// A run of class `k` from `i` to `e` that nothing of class `k` follows ends at `e`.
pub proof fn lemma_span_run(s: Seq<char>, i: int, e: int, k: CharClass)
    requires
        0 <= i <= e <= s.len(),
        forall|m: int| i <= m < e ==> in_class(#[trigger] s[m], k),
        e == s.len() || !in_class(s[e], k),
    ensures
        span_end(s, i, k) == e,
    decreases e - i,
{
    if i < e {
        lemma_span_run(s, i + 1, e, k);
    }
}

/// A word (a letter, then letters and digits, as long as it goes) is one
/// token: a keyword when it spells one, `true` and `false` boolean
/// constants, and an identifier otherwise.
pub proof fn law_word_token(s: Seq<char>, j: int, e: int)
    requires
        0 <= j < e <= s.len(),
        is_alpha(s[j]),
        forall|m: int| j < m < e ==> is_alpha(#[trigger] s[m]) || is_digit(s[m]),
        e == s.len() || !(is_alpha(s[e]) || is_digit(s[e])),
    ensures
        scan_token(s, j).1 == e,
        ({
            let w = s.subrange(j, e);
            let k = scan_token(s, j).0;
            &&& w == seq!['b', 'o', 'o', 'l'] ==> k == C1Token::KwBoolean
            &&& w == seq!['d', 'o'] ==> k == C1Token::KwDo
            &&& w == seq!['e', 'l', 's', 'e'] ==> k == C1Token::KwElse
            &&& w == seq!['f', 'l', 'o', 'a', 't'] ==> k == C1Token::KwFloat
            &&& w == seq!['f', 'o', 'r'] ==> k == C1Token::KwFor
            &&& w == seq!['i', 'f'] ==> k == C1Token::KwIf
            &&& w == seq!['i', 'n', 't'] ==> k == C1Token::KwInt
            &&& w == seq!['p', 'r', 'i', 'n', 't', 'f'] ==> k == C1Token::KwPrintf
            &&& w == seq!['r', 'e', 't', 'u', 'r', 'n'] ==> k == C1Token::KwReturn
            &&& w == seq!['v', 'o', 'i', 'd'] ==> k == C1Token::KwVoid
            &&& w == seq!['w', 'h', 'i', 'l', 'e'] ==> k == C1Token::KwWhile
            &&& w == seq!['t', 'r', 'u', 'e'] ==> k == C1Token::ConstBoolean
            &&& w == seq!['f', 'a', 'l', 's', 'e'] ==> k == C1Token::ConstBoolean
            &&& !(w == seq!['b', 'o', 'o', 'l'] || w == seq!['d', 'o'] || w == seq!['e', 'l', 's', 'e']
                || w == seq!['f', 'l', 'o', 'a', 't'] || w == seq!['f', 'o', 'r'] || w == seq![
                'i',
                'f',
            ] || w == seq!['i', 'n', 't'] || w == seq!['p', 'r', 'i', 'n', 't', 'f'] || w == seq![
                'r',
                'e',
                't',
                'u',
                'r',
                'n',
            ] || w == seq!['v', 'o', 'i', 'd'] || w == seq!['w', 'h', 'i', 'l', 'e'] || w == seq![
                't',
                'r',
                'u',
                'e',
            ] || w == seq!['f', 'a', 'l', 's', 'e']) ==> k == C1Token::Identifier
        }),
{
    lemma_span_run(s, j + 1, e, CharClass::Alnum);
}

/// Each of `==`, `!=`, `<=`, `>=`, `&&`, `||` is one token of two characters.
pub proof fn law_two_character_operators(s: Seq<char>, j: int)
    requires
        0 <= j,
        j + 1 < s.len(),
    ensures
        s[j] == '=' && s[j + 1] == '=' ==> scan_token(s, j) == (C1Token::Equal, j + 2),
        s[j] == '!' && s[j + 1] == '=' ==> scan_token(s, j) == (C1Token::NotEqual, j + 2),
        s[j] == '<' && s[j + 1] == '=' ==> scan_token(s, j) == (C1Token::LessEqual, j + 2),
        s[j] == '>' && s[j + 1] == '=' ==> scan_token(s, j) == (C1Token::GreaterEqual, j + 2),
        s[j] == '&' && s[j + 1] == '&' ==> scan_token(s, j) == (C1Token::And, j + 2),
        s[j] == '|' && s[j + 1] == '|' ==> scan_token(s, j) == (C1Token::Or, j + 2),
{
}

/// Each of `+ - * / ; , ( ) { }`, and `= < >` when no `=` follows, is a token
/// of one character.
pub proof fn law_one_character_operators(s: Seq<char>, j: int)
    requires
        0 <= j < s.len(),
    ensures
        s[j] == '+' ==> scan_token(s, j) == (C1Token::Plus, j + 1),
        s[j] == '-' ==> scan_token(s, j) == (C1Token::Minus, j + 1),
        s[j] == '*' ==> scan_token(s, j) == (C1Token::Asterisk, j + 1),
        s[j] == '/' ==> scan_token(s, j) == (C1Token::Slash, j + 1),
        s[j] == ';' ==> scan_token(s, j) == (C1Token::Semicolon, j + 1),
        s[j] == ',' ==> scan_token(s, j) == (C1Token::Comma, j + 1),
        s[j] == '(' ==> scan_token(s, j) == (C1Token::LeftParenthesis, j + 1),
        s[j] == ')' ==> scan_token(s, j) == (C1Token::RightParenthesis, j + 1),
        s[j] == '{' ==> scan_token(s, j) == (C1Token::LeftBrace, j + 1),
        s[j] == '}' ==> scan_token(s, j) == (C1Token::RightBrace, j + 1),
        (j + 1 == s.len() || s[j + 1] != '=') ==> (s[j] == '=' ==> scan_token(s, j) == (
            C1Token::Assign,
            j + 1,
        )) && (s[j] == '<' ==> scan_token(s, j) == (C1Token::Less, j + 1)) && (s[j] == '>'
            ==> scan_token(s, j) == (C1Token::Greater, j + 1)),
{
}

/// A run of digits that no `.`, `e`, `E` or digit follows is an integer constant.
pub proof fn law_integer_token(s: Seq<char>, j: int, e: int)
    requires
        0 <= j < e <= s.len(),
        forall|m: int| j <= m < e ==> is_digit(#[trigger] s[m]),
        e == s.len() || !(is_digit(s[e]) || s[e] == '.' || s[e] == 'e' || s[e] == 'E'),
    ensures
        scan_token(s, j) == (C1Token::ConstInt, e),
{
    lemma_span_run(s, j + 1, e, CharClass::Digit);
}

/// Digits, `.` and digits (as long as they go) make a float constant.
pub proof fn law_float_token(s: Seq<char>, j: int, d: int, e: int)
    requires
        0 <= j < d,
        d + 1 < e <= s.len(),
        forall|m: int| j <= m < d ==> is_digit(#[trigger] s[m]),
        s[d] == '.',
        forall|m: int| d < m < e ==> is_digit(#[trigger] s[m]),
        e == s.len() || !is_digit(s[e]),
    ensures
        scan_token(s, j) == (C1Token::ConstFloat, e),
{
    lemma_span_run(s, j + 1, d, CharClass::Digit);
    lemma_span_run(s, d + 2, e, CharClass::Digit);
}

/// White space, a line comment up to its line feed, and a closed block
/// comment are passed over between tokens.
pub proof fn law_trivia_skipped(s: Seq<char>, i: int, e: int)
    requires
        0 <= i < s.len(),
    ensures
        (s[i] == ' ' || s[i] == '\t' || s[i] == '\n' || s[i] == '\r') ==> skip_trivia(s, i)
            == skip_trivia(s, i + 1),
        (i + 1 < e <= s.len() && s[i] == '/' && s[i + 1] == '/' && (forall|m: int|
            i + 2 <= m < e ==> #[trigger] s[m] != '\n') && (e == s.len() || s[e] == '\n'))
            ==> skip_trivia(s, i) == skip_trivia(s, e),
{
    if i + 1 < e <= s.len() && s[i] == '/' && s[i + 1] == '/' && (forall|m: int|
        i + 2 <= m < e ==> #[trigger] s[m] != '\n') && (e == s.len() || s[e] == '\n') {
        lemma_span_run(s, i + 2, e, CharClass::LineBody);
    }
}

} // verus!
