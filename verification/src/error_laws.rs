//! Laws of failure: where each nonterminal stops on a wrong token, and with
//! which message.
use vstd::prelude::*;

use crate::grammar::{
    sp_assignment, sp_block, sp_factor, sp_function_call, sp_functiondefinition, sp_if_statement,
    sp_printf, sp_return_statement, sp_return_type, sp_stat_assignment, sp_statement,
    sp_statement_list, SpecErr, Step,
};
use crate::lexer::token_at;
use crate::token::C1Token;

verus! {

/// Anything but `bool`, `float`, `int`, `void` fails as a type, reported
/// as "Fehler" at that token.
pub proof fn law_return_type_error(t: Seq<C1Token>, p: int)
    requires
        token_at(t, p) != Some(C1Token::KwBoolean) && token_at(t, p) != Some(C1Token::KwFloat)
            && token_at(t, p) != Some(C1Token::KwInt) && token_at(t, p) != Some(C1Token::KwVoid),
    ensures
        sp_return_type(t, p) == Step::Fail(p, SpecErr::At("Fehler"@, p)),
{
}

/// A function call fails at its first missing token: the identifier, `(`
/// or `)`.
pub proof fn law_function_call_errors(t: Seq<C1Token>, p: int)
    ensures
        token_at(t, p) != Some(C1Token::Identifier) ==> sp_function_call(t, p) == Step::Fail(
            p,
            SpecErr::Plain("identifier fehlt"@),
        ),
        token_at(t, p) == Some(C1Token::Identifier) && token_at(t, p + 1) != Some(
            C1Token::LeftParenthesis,
        ) ==> sp_function_call(t, p) == Step::Fail(p + 1, SpecErr::Plain("Leftparenthesis fehlt"@)),
        token_at(t, p) == Some(C1Token::Identifier) && token_at(t, p + 1) == Some(
            C1Token::LeftParenthesis,
        ) && token_at(t, p + 2) != Some(C1Token::RightParenthesis) ==> sp_function_call(t, p)
            == Step::Fail(p + 2, SpecErr::Plain("Rightparenthesis fehlt"@)),
{
}

/// A statement cannot start with anything but `if`, `return`, `printf` or an
/// identifier ("Fehler"), and an identifier must be followed by `(` or `=`
/// ("fehler").
pub proof fn law_statement_start_errors(t: Seq<C1Token>, p: int)
    ensures
        token_at(t, p) != Some(C1Token::KwIf) && token_at(t, p) != Some(C1Token::KwReturn)
            && token_at(t, p) != Some(C1Token::KwPrintf) && token_at(t, p) != Some(
            C1Token::Identifier,
        ) ==> sp_statement(t, p) == Step::Fail(p, SpecErr::At("Fehler"@, p)),
        token_at(t, p) == Some(C1Token::Identifier) && token_at(t, p + 1) != Some(
            C1Token::LeftParenthesis,
        ) && token_at(t, p + 1) != Some(C1Token::Assign) ==> sp_statement(t, p) == Step::Fail(
            p,
            SpecErr::At("fehler"@, p),
        ),
{
}

/// A return or printf statement, a function call or a statement
/// assignment not followed by `;` fails there with "Semicolon fehlt".
pub proof fn law_statement_semicolon_error(t: Seq<C1Token>, p: int, q: int)
    requires
        token_at(t, q) != Some(C1Token::Semicolon),
        sp_return_statement(t, p) == Step::Done(q) || sp_printf(t, p) == Step::Done(q)
            || sp_function_call(t, p) == Step::Done(q) || sp_stat_assignment(t, p) == Step::Done(
            q,
        ),
    ensures
        sp_statement(t, p) == Step::Fail(q, SpecErr::Plain("Semicolon fehlt"@)),
{
}

/// An if statement fails at its first missing `if`, `(` or `)`.
pub proof fn law_if_statement_errors(t: Seq<C1Token>, p: int, c: int)
    requires
        0 <= p <= t.len(),
    ensures
        token_at(t, p) != Some(C1Token::KwIf) ==> sp_if_statement(t, p) == Step::Fail(
            p,
            SpecErr::Plain("KWif fehlt"@),
        ),
        token_at(t, p) == Some(C1Token::KwIf) && token_at(t, p + 1) != Some(
            C1Token::LeftParenthesis,
        ) ==> sp_if_statement(t, p) == Step::Fail(p + 1, SpecErr::Plain("LeftParenthesis fehlt"@)),
        token_at(t, p) == Some(C1Token::KwIf) && token_at(t, p + 1) == Some(
            C1Token::LeftParenthesis,
        ) && sp_assignment(t, p + 2) == Step::Done(c) && token_at(t, c) != Some(
            C1Token::RightParenthesis,
        ) ==> sp_if_statement(t, p) == Step::Fail(c, SpecErr::Plain("Right parenthesiss fehlt"@)),
{
}

/// A return statement must start with `return` ("Kwreturn fehlt").
pub proof fn law_return_statement_error(t: Seq<C1Token>, p: int)
    requires
        token_at(t, p) != Some(C1Token::KwReturn),
    ensures
        sp_return_statement(t, p) == Step::Fail(p, SpecErr::Plain("Kwreturn fehlt"@)),
{
}

/// A printf statement fails at its first missing `printf`, `(` or `)`.
pub proof fn law_printf_errors(t: Seq<C1Token>, p: int, c: int)
    ensures
        token_at(t, p) != Some(C1Token::KwPrintf) ==> sp_printf(t, p) == Step::Fail(
            p,
            SpecErr::Plain("KwPrintf fehlt"@),
        ),
        token_at(t, p) == Some(C1Token::KwPrintf) && token_at(t, p + 1) != Some(
            C1Token::LeftParenthesis,
        ) ==> sp_printf(t, p) == Step::Fail(p + 1, SpecErr::Plain("Leftparenthesis fehlt"@)),
        token_at(t, p) == Some(C1Token::KwPrintf) && token_at(t, p + 1) == Some(
            C1Token::LeftParenthesis,
        ) && sp_assignment(t, p + 2) == Step::Done(c) && token_at(t, c) != Some(
            C1Token::RightParenthesis,
        ) ==> sp_printf(t, p) == Step::Fail(c, SpecErr::Plain("Rightparenthesis fehlt"@)),
{
}

/// A statement assignment fails at its first missing identifier or `=`.
pub proof fn law_stat_assignment_errors(t: Seq<C1Token>, p: int)
    ensures
        token_at(t, p) != Some(C1Token::Identifier) ==> sp_stat_assignment(t, p) == Step::Fail(
            p,
            SpecErr::Plain("identifier fehlt"@),
        ),
        token_at(t, p) == Some(C1Token::Identifier) && token_at(t, p + 1) != Some(C1Token::Assign)
            ==> sp_stat_assignment(t, p) == Step::Fail(p + 1, SpecErr::Plain("Assign fehlt"@)),
{
}

/// A braced block, and a function definition, whose statement list is not
/// followed by `}` fail there with "RightBrace fehlt".
pub proof fn law_missing_right_brace(t: Seq<C1Token>, p: int, q: int)
    requires
        token_at(t, q) != Some(C1Token::RightBrace),
    ensures
        token_at(t, p) == Some(C1Token::LeftBrace) && sp_statement_list(t, p + 1) == Step::Done(q)
            ==> sp_block(t, p) == Step::Fail(q, SpecErr::Plain("RightBrace fehlt"@)),
        sp_return_type(t, p) is Done && token_at(t, p + 1) == Some(C1Token::Identifier)
            && token_at(t, p + 2) == Some(C1Token::LeftParenthesis) && token_at(t, p + 3) == Some(
            C1Token::RightParenthesis,
        ) && token_at(t, p + 4) == Some(C1Token::LeftBrace) && sp_statement_list(t, p + 5)
            == Step::Done(q) ==> sp_functiondefinition(t, p) == Step::Fail(
            q,
            SpecErr::Plain("RightBrace fehlt"@),
        ),
{
}

/// A factor cannot start with anything but a constant, an identifier or `(`
/// ("Fehlt"), and a parenthesized assignment must be closed by `)`.
pub proof fn law_factor_errors(t: Seq<C1Token>, p: int, q: int)
    ensures
        token_at(t, p) != Some(C1Token::ConstInt) && token_at(t, p) != Some(C1Token::ConstFloat)
            && token_at(t, p) != Some(C1Token::ConstBoolean) && token_at(t, p) != Some(
            C1Token::Identifier,
        ) && token_at(t, p) != Some(C1Token::LeftParenthesis) ==> sp_factor(t, p) == Step::Fail(
            p,
            SpecErr::At("Fehlt"@, p),
        ),
        token_at(t, p) == Some(C1Token::LeftParenthesis) && sp_assignment(t, p + 1) == Step::Done(q)
            && token_at(t, q) != Some(C1Token::RightParenthesis) ==> sp_factor(t, p) == Step::Fail(
            q,
            SpecErr::At("assignment in factor wasn't properly closed. Expected )"@, q),
        ),
{
}

} // verus!
