//! Laws of the grammar, one or more per production: what each nonterminal
//! recognizes, stated with the tokens named one by one.
use vstd::prelude::*;

use crate::bounds::{
    lemma_assignment_bounds, lemma_block_bounds, lemma_factor_bounds,
    lemma_functiondefinition_bounds, lemma_simpexpr_bounds, lemma_term_bounds,
};
use crate::grammar::{
    sp_assignment, sp_block, sp_expr, sp_factor, sp_function_call, sp_functiondefinition,
    sp_if_statement, sp_printf, sp_program, sp_return_statement, sp_return_type, sp_simpexpr,
    sp_simpexpr_rest, sp_stat_assignment, sp_statement, sp_statement_list, sp_term, sp_term_rest,
    Step,
};
use crate::lexer::token_at;
use crate::token::C1Token;

verus! {

/// The six comparison operators.
pub open spec fn comparison(k: C1Token) -> bool {
    k == C1Token::Equal || k == C1Token::NotEqual || k == C1Token::LessEqual || k
        == C1Token::GreaterEqual || k == C1Token::Less || k == C1Token::Greater
}

/// A constant, or an identifier, is a factor of one token, unless the
/// identifier is followed by `(`.
pub proof fn law_factor_single_token(t: Seq<C1Token>, p: int)
    requires
        token_at(t, p) == Some(C1Token::ConstInt) || token_at(t, p) == Some(C1Token::ConstFloat)
            || token_at(t, p) == Some(C1Token::ConstBoolean) || (token_at(t, p) == Some(
            C1Token::Identifier,
        ) && token_at(t, p + 1) != Some(C1Token::LeftParenthesis)),
    ensures
        sp_factor(t, p) == Step::Done(p + 1),
{
}

/// An identifier followed by `(` and `)` is a factor: a function call of
/// three tokens.
pub proof fn law_factor_function_call(t: Seq<C1Token>, p: int)
    requires
        token_at(t, p) == Some(C1Token::Identifier),
        token_at(t, p + 1) == Some(C1Token::LeftParenthesis),
        token_at(t, p + 2) == Some(C1Token::RightParenthesis),
    ensures
        sp_factor(t, p) == Step::Done(p + 3),
{
}

/// An assignment in parentheses is a factor that ends after the `)`.
pub proof fn law_factor_parenthesized(t: Seq<C1Token>, p: int, q: int)
    requires
        token_at(t, p) == Some(C1Token::LeftParenthesis),
        sp_assignment(t, p + 1) == Step::Done(q),
        token_at(t, q) == Some(C1Token::RightParenthesis),
    ensures
        sp_factor(t, p) == Step::Done(q + 1),
{
}

/// No factor starts with a token other than a constant, an identifier or `(`.
pub proof fn law_factor_start(t: Seq<C1Token>, p: int)
    requires
        sp_factor(t, p) is Done,
    ensures
        token_at(t, p) == Some(C1Token::ConstInt) || token_at(t, p) == Some(C1Token::ConstFloat)
            || token_at(t, p) == Some(C1Token::ConstBoolean) || token_at(t, p) == Some(
            C1Token::Identifier,
        ) || token_at(t, p) == Some(C1Token::LeftParenthesis),
{
}

/// A rest of a term that starts with `*`, `/` or `&&` reads that operator
/// and then a whole term.
proof fn lemma_term_rest_op(t: Seq<C1Token>, q: int)
    requires
        0 <= q < t.len(),
        t[q] == C1Token::Asterisk || t[q] == C1Token::Slash || t[q] == C1Token::And,
    ensures
        sp_term_rest(t, q) == sp_term(t, q + 1),
{
    lemma_factor_bounds(t, q + 1);
}

/// Each of `*`, `/` and `&&` continues a term: a factor, the operator and a
/// term form one term, which ends where the second term ends.
pub proof fn law_term_continues(t: Seq<C1Token>, p: int, q: int, r: int)
    requires
        0 <= p <= t.len(),
        sp_factor(t, p) == Step::Done(q),
        token_at(t, q) == Some(C1Token::Asterisk) || token_at(t, q) == Some(C1Token::Slash)
            || token_at(t, q) == Some(C1Token::And),
        sp_term(t, q + 1) == Step::Done(r),
    ensures
        sp_term(t, p) == Step::Done(r),
{
    lemma_factor_bounds(t, p);
    lemma_term_rest_op(t, q);
}

/// A factor followed by anything but `*`, `/` or `&&` is a whole term.
pub proof fn law_term_ends(t: Seq<C1Token>, p: int, q: int)
    requires
        0 <= p <= t.len(),
        sp_factor(t, p) == Step::Done(q),
        token_at(t, q) != Some(C1Token::Asterisk) && token_at(t, q) != Some(C1Token::Slash)
            && token_at(t, q) != Some(C1Token::And),
    ensures
        sp_term(t, p) == Step::Done(q),
{
    lemma_factor_bounds(t, p);
}

proof fn lemma_simpexpr_rest_op(t: Seq<C1Token>, q: int, r: int)
    requires
        0 <= q < t.len(),
        t[q] == C1Token::Plus || t[q] == C1Token::Minus || t[q] == C1Token::Or,
        sp_term(t, q + 1) == Step::Done(r),
    ensures
        sp_simpexpr_rest(t, q) == sp_simpexpr_rest(t, r),
{
    lemma_term_bounds(t, q + 1);
}

/// Each of `+`, `-` and `||` continues a simple expression: a term, the
/// operator and another term, followed by no further such operator, form
/// one simple expression.
pub proof fn law_simpexpr_continues(t: Seq<C1Token>, p: int, q: int, r: int)
    requires
        0 <= p <= t.len(),
        token_at(t, p) != Some(C1Token::Minus),
        sp_term(t, p) == Step::Done(q),
        token_at(t, q) == Some(C1Token::Plus) || token_at(t, q) == Some(C1Token::Minus)
            || token_at(t, q) == Some(C1Token::Or),
        sp_term(t, q + 1) == Step::Done(r),
        token_at(t, r) != Some(C1Token::Plus) && token_at(t, r) != Some(C1Token::Minus)
            && token_at(t, r) != Some(C1Token::Or),
    ensures
        sp_simpexpr(t, p) == Step::Done(r),
{
    lemma_term_bounds(t, p);
    lemma_term_bounds(t, q + 1);
    lemma_simpexpr_rest_op(t, q, r);
}

/// A leading `-` belongs to the simple expression: `-` and a term, followed
/// by no `+`, `-` or `||`, form one simple expression.
pub proof fn law_simpexpr_negation(t: Seq<C1Token>, p: int, q: int)
    requires
        0 <= p <= t.len(),
        token_at(t, p) == Some(C1Token::Minus),
        sp_term(t, p + 1) == Step::Done(q),
        token_at(t, q) != Some(C1Token::Plus) && token_at(t, q) != Some(C1Token::Minus)
            && token_at(t, q) != Some(C1Token::Or),
    ensures
        sp_simpexpr(t, p) == Step::Done(q),
{
    lemma_term_bounds(t, p + 1);
}

/// A term followed by anything but `+`, `-` or `||` is a whole simple
/// expression (when it does not start with `-`).
pub proof fn law_simpexpr_single_term(t: Seq<C1Token>, p: int, q: int)
    requires
        0 <= p <= t.len(),
        token_at(t, p) != Some(C1Token::Minus),
        sp_term(t, p) == Step::Done(q),
        token_at(t, q) != Some(C1Token::Plus) && token_at(t, q) != Some(C1Token::Minus)
            && token_at(t, q) != Some(C1Token::Or),
    ensures
        sp_simpexpr(t, p) == Step::Done(q),
{
    lemma_term_bounds(t, p);
}

/// Each of the six comparisons joins two simple expressions into one
/// expression, which ends where the second one ends.
pub proof fn law_expr_comparison(t: Seq<C1Token>, p: int, q: int, r: int)
    requires
        0 <= p <= t.len(),
        sp_simpexpr(t, p) == Step::Done(q),
        token_at(t, q) matches Some(k) && comparison(k),
        sp_simpexpr(t, q + 1) == Step::Done(r),
    ensures
        sp_expr(t, p) == Step::Done(r),
{
    lemma_simpexpr_bounds(t, p);
}

/// A simple expression followed by anything but a comparison is a whole
/// expression.
pub proof fn law_expr_without_comparison(t: Seq<C1Token>, p: int, q: int)
    requires
        0 <= p <= t.len(),
        sp_simpexpr(t, p) == Step::Done(q),
        !(token_at(t, q) matches Some(k) && comparison(k)),
    ensures
        sp_expr(t, p) == Step::Done(q),
{
    lemma_simpexpr_bounds(t, p);
}


/// `id = assignment` is an assignment that ends where the inner one ends.
pub proof fn law_assignment_chain(t: Seq<C1Token>, p: int, q: int)
    requires
        token_at(t, p) == Some(C1Token::Identifier),
        token_at(t, p + 1) == Some(C1Token::Assign),
        sp_assignment(t, p + 2) == Step::Done(q),
    ensures
        sp_assignment(t, p) == Step::Done(q),
{
}

/// An expression that does not start with `id =` is an assignment.
pub proof fn law_assignment_expr(t: Seq<C1Token>, p: int, q: int)
    requires
        !(token_at(t, p) == Some(C1Token::Identifier) && token_at(t, p + 1) == Some(
            C1Token::Assign,
        )),
        sp_expr(t, p) == Step::Done(q),
    ensures
        sp_assignment(t, p) == Step::Done(q),
{
}

/// A function call is exactly an identifier, `(` and `)`.
pub proof fn law_function_call(t: Seq<C1Token>, p: int)
    ensures
        sp_function_call(t, p) is Done <==> (token_at(t, p) == Some(C1Token::Identifier)
            && token_at(t, p + 1) == Some(C1Token::LeftParenthesis) && token_at(t, p + 2) == Some(
            C1Token::RightParenthesis,
        )),
        sp_function_call(t, p) is Done ==> sp_function_call(t, p) == Step::Done(p + 3),
{
}

/// A type is exactly one of `bool`, `float`, `int`, `void`.
pub proof fn law_return_type(t: Seq<C1Token>, p: int)
    ensures
        sp_return_type(t, p) is Done <==> (token_at(t, p) == Some(C1Token::KwBoolean) || token_at(
            t,
            p,
        ) == Some(C1Token::KwFloat) || token_at(t, p) == Some(C1Token::KwInt) || token_at(t, p)
            == Some(C1Token::KwVoid)),
        sp_return_type(t, p) is Done ==> sp_return_type(t, p) == Step::Done(p + 1),
{
}

/// `id = assignment` is a statement assignment.
pub proof fn law_stat_assignment(t: Seq<C1Token>, p: int, q: int)
    requires
        token_at(t, p) == Some(C1Token::Identifier),
        token_at(t, p + 1) == Some(C1Token::Assign),
        sp_assignment(t, p + 2) == Step::Done(q),
    ensures
        sp_stat_assignment(t, p) == Step::Done(q),
{
}

/// `printf ( assignment )` ends after the `)`.
pub proof fn law_printf(t: Seq<C1Token>, p: int, q: int)
    requires
        token_at(t, p) == Some(C1Token::KwPrintf),
        token_at(t, p + 1) == Some(C1Token::LeftParenthesis),
        sp_assignment(t, p + 2) == Step::Done(q),
        token_at(t, q) == Some(C1Token::RightParenthesis),
    ensures
        sp_printf(t, p) == Step::Done(q + 1),
{
}

/// `return` followed by `;` is a return statement of the keyword alone: the
/// `;` is left to the statement.
pub proof fn law_return_without_value(t: Seq<C1Token>, p: int)
    requires
        token_at(t, p) == Some(C1Token::KwReturn),
        token_at(t, p + 1) == Some(C1Token::Semicolon),
    ensures
        sp_return_statement(t, p) == Step::Done(p + 1),
        sp_statement(t, p) == Step::Done(p + 2),
{
}

/// `return` followed by an assignment is a return statement that ends where
/// the assignment ends.
pub proof fn law_return_with_value(t: Seq<C1Token>, p: int, q: int)
    requires
        token_at(t, p) == Some(C1Token::KwReturn),
        token_at(t, p + 1) != Some(C1Token::Semicolon),
        sp_assignment(t, p + 1) == Step::Done(q),
    ensures
        sp_return_statement(t, p) == Step::Done(q),
{
}

/// The body of an `if` is any block: `if ( assignment )` followed by a
/// block (braced, or a single statement) is an if statement that ends where
/// the block ends.
pub proof fn law_if_statement(t: Seq<C1Token>, p: int, c: int, q: int)
    requires
        0 <= p <= t.len(),
        token_at(t, p) == Some(C1Token::KwIf),
        token_at(t, p + 1) == Some(C1Token::LeftParenthesis),
        sp_assignment(t, p + 2) == Step::Done(c),
        token_at(t, c) == Some(C1Token::RightParenthesis),
        sp_block(t, c + 1) == Step::Done(q),
    ensures
        sp_if_statement(t, p) == Step::Done(q),
{
    lemma_assignment_bounds(t, p + 2);
}

/// A single statement, as the body of an `if`, makes a whole if statement.
pub proof fn law_if_single_statement_body(t: Seq<C1Token>, p: int, c: int, q: int)
    requires
        0 <= p <= t.len(),
        token_at(t, p) == Some(C1Token::KwIf),
        token_at(t, p + 1) == Some(C1Token::LeftParenthesis),
        sp_assignment(t, p + 2) == Step::Done(c),
        token_at(t, c) == Some(C1Token::RightParenthesis),
        sp_statement(t, c + 1) == Step::Done(q),
    ensures
        sp_if_statement(t, p) == Step::Done(q),
{
    lemma_assignment_bounds(t, p + 2);
    law_block_statement(t, c + 1, q);
}

/// A block that does not start with `{` is a statement.
pub proof fn law_block_statement(t: Seq<C1Token>, p: int, q: int)
    requires
        sp_statement(t, p) == Step::Done(q),
    ensures
        sp_block(t, p) == Step::Done(q),
{
}

/// `{ statementlist }` is a block that ends after the `}`.
pub proof fn law_block_braced(t: Seq<C1Token>, p: int, q: int)
    requires
        token_at(t, p) == Some(C1Token::LeftBrace),
        sp_statement_list(t, p + 1) == Step::Done(q),
        token_at(t, q) == Some(C1Token::RightBrace),
    ensures
        sp_block(t, p) == Step::Done(q + 1),
{
}

/// Return and printf statements, function calls and statement assignments,
/// each followed by `;`, are statements that end after the `;`.
pub proof fn law_statement_with_semicolon(t: Seq<C1Token>, p: int, q: int)
    requires
        token_at(t, q) == Some(C1Token::Semicolon),
        sp_return_statement(t, p) == Step::Done(q) || sp_printf(t, p) == Step::Done(q)
            || sp_function_call(t, p) == Step::Done(q) || sp_stat_assignment(t, p) == Step::Done(
            q,
        ),
    ensures
        sp_statement(t, p) == Step::Done(q + 1),
{
}

/// An if statement is a statement (no `;` follows it).
pub proof fn law_statement_if(t: Seq<C1Token>, p: int, q: int)
    requires
        sp_if_statement(t, p) == Step::Done(q),
    ensures
        sp_statement(t, p) == Step::Done(q),
{
}

/// A statement starts with `if`, `return`, `printf` or an identifier.
pub proof fn law_statement_start(t: Seq<C1Token>, p: int)
    requires
        sp_statement(t, p) is Done,
    ensures
        token_at(t, p) == Some(C1Token::KwIf) || token_at(t, p) == Some(C1Token::KwReturn)
            || token_at(t, p) == Some(C1Token::KwPrintf) || token_at(t, p) == Some(
            C1Token::Identifier,
        ),
{
}

/// A statement list ends, recognized, at the first token that cannot start
/// a block: anything but `{`, `if`, `return`, `printf` and an identifier.
pub proof fn law_statement_list_stops(t: Seq<C1Token>, p: int)
    requires
        token_at(t, p) != Some(C1Token::LeftBrace) && token_at(t, p) != Some(C1Token::KwIf)
            && token_at(t, p) != Some(C1Token::KwReturn) && token_at(t, p) != Some(
            C1Token::KwPrintf,
        ) && token_at(t, p) != Some(C1Token::Identifier),
    ensures
        sp_statement_list(t, p) == Step::Done(p),
{
}

/// A block followed by a statement list is a statement list.
pub proof fn law_statement_list_continues(t: Seq<C1Token>, p: int, q: int, r: int)
    requires
        0 <= p <= t.len(),
        sp_block(t, p) == Step::Done(q),
        sp_statement_list(t, q) == Step::Done(r),
    ensures
        sp_statement_list(t, p) == Step::Done(r),
{
    lemma_block_bounds(t, p);
    lemma_statement_start_block(t, p);
}

/// A block starts with `{` or with the start of a statement.
proof fn lemma_statement_start_block(t: Seq<C1Token>, p: int)
    requires
        sp_block(t, p) is Done,
    ensures
        crate::grammar::starts_block(token_at(t, p)),
{
}

/// `type id ( ) { statementlist }` is a function definition that ends after
/// the `}`.
pub proof fn law_functiondefinition(t: Seq<C1Token>, p: int, q: int)
    requires
        sp_return_type(t, p) is Done,
        token_at(t, p + 1) == Some(C1Token::Identifier),
        token_at(t, p + 2) == Some(C1Token::LeftParenthesis),
        token_at(t, p + 3) == Some(C1Token::RightParenthesis),
        token_at(t, p + 4) == Some(C1Token::LeftBrace),
        sp_statement_list(t, p + 5) == Step::Done(q),
        token_at(t, q) == Some(C1Token::RightBrace),
    ensures
        sp_functiondefinition(t, p) == Step::Done(q + 1),
{
}

/// A program is a sequence of function definitions up to the end of the
/// tokens: nothing is one, and a function definition followed by a program
/// is one.
pub proof fn law_program(t: Seq<C1Token>, p: int, q: int)
    requires
        0 <= p <= t.len(),
    ensures
        p == t.len() ==> sp_program(t, p) == Step::Done(p),
        p < t.len() && sp_functiondefinition(t, p) == Step::Done(q) && sp_program(t, q) is Done
            ==> sp_program(t, p) == sp_program(t, q),
        sp_program(t, p) is Done ==> sp_program(t, p) == Step::Done(t.len() as int),
    decreases t.len() - p,
{
    if p < t.len() {
        lemma_functiondefinition_bounds(t, p);
        if let Step::Done(q1) = sp_functiondefinition(t, p) {
            law_program(t, q1, q1);
        }
    }
}

} // verus!
