//! Where recognition ends: every nonterminal, started at a position among
//! the tokens, stops at or after it and no later than the end; a block,
//! a statement and a function definition that are recognized take at least
//! one token.
use vstd::prelude::*;

use crate::grammar::{
    is_additive, is_at, is_multiplicative, is_relational, optional, sp_assignment, sp_block,
    sp_expr, sp_factor, sp_functiondefinition, sp_if_statement, sp_printf, sp_program,
    sp_return_statement, sp_return_type, sp_simpexpr, sp_simpexpr_rest, sp_stat_assignment,
    sp_statement, sp_statement_list, sp_term, sp_term_rest, Step,
};
use crate::lexer::token_at;
use crate::token::C1Token;

verus! {

/// `s`, started at `p`, ends between `p` and the end of `t`.
pub open spec fn bounded(t: Seq<C1Token>, p: int, s: Step) -> bool {
    p <= s.pos() <= t.len()
}

/// `s`, started at `p`, ends between `p` and the end of `t`, and takes at
/// least one token when it succeeds.
pub open spec fn advancing(t: Seq<C1Token>, p: int, s: Step) -> bool {
    &&& bounded(t, p, s)
    &&& s is Done ==> p < s.pos()
}

pub proof fn lemma_program_bounds(t: Seq<C1Token>, p: int)
    requires
        0 <= p <= t.len(),
    ensures
        bounded(t, p, sp_program(t, p)),
    decreases t.len() - p,
{
    if token_at(t, p) is Some {
        lemma_functiondefinition_bounds(t, p);
        if let Step::Done(q) = sp_functiondefinition(t, p) {
            lemma_program_bounds(t, q);
        }
    }
}

pub proof fn lemma_functiondefinition_bounds(t: Seq<C1Token>, p: int)
    requires
        0 <= p <= t.len(),
    ensures
        advancing(t, p, sp_functiondefinition(t, p)),
{
    if let Step::Done(p1) = sp_return_type(t, p) {
        let p2 = optional(t, p1, C1Token::Identifier);
        let p3 = optional(t, p2, C1Token::LeftParenthesis);
        let p4 = optional(t, p3, C1Token::RightParenthesis);
        let p5 = optional(t, p4, C1Token::LeftBrace);
        lemma_statement_list_bounds(t, p5);
    }
}

pub proof fn lemma_statement_list_bounds(t: Seq<C1Token>, p: int)
    requires
        0 <= p <= t.len(),
    ensures
        bounded(t, p, sp_statement_list(t, p)),
    decreases t.len() - p, 8int,
{
    if crate::grammar::starts_block(token_at(t, p)) {
        lemma_block_bounds(t, p);
        if let Step::Done(q) = sp_block(t, p) {
            lemma_statement_list_bounds(t, q);
        }
    }
}

pub proof fn lemma_block_bounds(t: Seq<C1Token>, p: int)
    requires
        0 <= p <= t.len(),
    ensures
        advancing(t, p, sp_block(t, p)),
    decreases t.len() - p, 7int,
{
    if is_at(t, p, C1Token::LeftBrace) {
        lemma_statement_list_bounds(t, p + 1);
    } else {
        lemma_statement_bounds(t, p);
    }
}

pub proof fn lemma_statement_bounds(t: Seq<C1Token>, p: int)
    requires
        0 <= p <= t.len(),
    ensures
        advancing(t, p, sp_statement(t, p)),
    decreases t.len() - p, 6int,
{
    if is_at(t, p, C1Token::KwIf) {
        lemma_if_statement_bounds(t, p);
    } else if is_at(t, p, C1Token::KwReturn) {
        lemma_return_statement_bounds(t, p);
    } else if is_at(t, p, C1Token::KwPrintf) {
        lemma_printf_bounds(t, p);
    } else if is_at(t, p, C1Token::Identifier) {
        lemma_stat_assignment_bounds(t, p);
    }
}

pub proof fn lemma_if_statement_bounds(t: Seq<C1Token>, p: int)
    requires
        0 <= p <= t.len(),
    ensures
        advancing(t, p, sp_if_statement(t, p)),
    decreases t.len() - p, 5int,
{
    if is_at(t, p, C1Token::KwIf) && is_at(t, p + 1, C1Token::LeftParenthesis) {
        lemma_assignment_bounds(t, p + 2);
        if let Step::Done(p3) = sp_assignment(t, p + 2) {
            if is_at(t, p3, C1Token::RightParenthesis) {
                lemma_block_bounds(t, p3 + 1);
            }
        }
    }
}

pub proof fn lemma_return_statement_bounds(t: Seq<C1Token>, p: int)
    requires
        0 <= p <= t.len(),
    ensures
        advancing(t, p, sp_return_statement(t, p)),
    decreases t.len() - p, 5int,
{
    if is_at(t, p, C1Token::KwReturn) {
        lemma_assignment_bounds(t, p + 1);
    }
}

pub proof fn lemma_printf_bounds(t: Seq<C1Token>, p: int)
    requires
        0 <= p <= t.len(),
    ensures
        advancing(t, p, sp_printf(t, p)),
    decreases t.len() - p, 5int,
{
    if is_at(t, p, C1Token::KwPrintf) && is_at(t, p + 1, C1Token::LeftParenthesis) {
        lemma_assignment_bounds(t, p + 2);
    }
}

pub proof fn lemma_stat_assignment_bounds(t: Seq<C1Token>, p: int)
    requires
        0 <= p <= t.len(),
    ensures
        advancing(t, p, sp_stat_assignment(t, p)),
    decreases t.len() - p, 5int,
{
    if is_at(t, p, C1Token::Identifier) && is_at(t, p + 1, C1Token::Assign) {
        lemma_assignment_bounds(t, p + 2);
    }
}

pub proof fn lemma_assignment_bounds(t: Seq<C1Token>, p: int)
    requires
        0 <= p <= t.len(),
    ensures
        advancing(t, p, sp_assignment(t, p)),
    decreases t.len() - p, 4int,
{
    if is_at(t, p, C1Token::Identifier) && is_at(t, p + 1, C1Token::Assign) {
        lemma_assignment_bounds(t, p + 2);
    } else {
        lemma_expr_bounds(t, p);
    }
}

pub proof fn lemma_expr_bounds(t: Seq<C1Token>, p: int)
    requires
        0 <= p <= t.len(),
    ensures
        advancing(t, p, sp_expr(t, p)),
    decreases t.len() - p, 3int,
{
    lemma_simpexpr_bounds(t, p);
    if let Step::Done(q) = sp_simpexpr(t, p) {
        if is_relational(token_at(t, q)) {
            lemma_simpexpr_bounds(t, q + 1);
        }
    }
}

pub proof fn lemma_simpexpr_bounds(t: Seq<C1Token>, p: int)
    requires
        0 <= p <= t.len(),
    ensures
        advancing(t, p, sp_simpexpr(t, p)),
    decreases t.len() - p, 2int,
{
    let p1 = optional(t, p, C1Token::Minus);
    lemma_term_bounds(t, p1);
    if let Step::Done(q) = sp_term(t, p1) {
        lemma_simpexpr_rest_bounds(t, q);
    }
}

pub proof fn lemma_simpexpr_rest_bounds(t: Seq<C1Token>, p: int)
    requires
        0 <= p <= t.len(),
    ensures
        bounded(t, p, sp_simpexpr_rest(t, p)),
    decreases t.len() - p, 0int,
{
    if is_additive(token_at(t, p)) {
        lemma_term_bounds(t, p + 1);
        if let Step::Done(q) = sp_term(t, p + 1) {
            lemma_simpexpr_rest_bounds(t, q);
        }
    }
}

pub proof fn lemma_term_bounds(t: Seq<C1Token>, p: int)
    requires
        0 <= p <= t.len(),
    ensures
        advancing(t, p, sp_term(t, p)),
    decreases t.len() - p, 1int,
{
    lemma_factor_bounds(t, p);
    if let Step::Done(q) = sp_factor(t, p) {
        lemma_term_rest_bounds(t, q);
    }
}

pub proof fn lemma_term_rest_bounds(t: Seq<C1Token>, p: int)
    requires
        0 <= p <= t.len(),
    ensures
        bounded(t, p, sp_term_rest(t, p)),
    decreases t.len() - p, 0int,
{
    if is_multiplicative(token_at(t, p)) {
        lemma_factor_bounds(t, p + 1);
        if let Step::Done(q) = sp_factor(t, p + 1) {
            lemma_term_rest_bounds(t, q);
        }
    }
}

pub proof fn lemma_factor_bounds(t: Seq<C1Token>, p: int)
    requires
        0 <= p <= t.len(),
    ensures
        advancing(t, p, sp_factor(t, p)),
    decreases t.len() - p, 0int,
{
    if is_at(t, p, C1Token::LeftParenthesis) {
        lemma_assignment_bounds(t, p + 1);
    }
}

} // verus!
