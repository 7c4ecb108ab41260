//! Recognition depends only on the tokens it reads: a nonterminal that is
//! recognized from `p` to `q` in one token sequence is recognized, over the
//! same stretch, wherever the same tokens stand (including the end of the
//! input, where it is read).
use vstd::prelude::*;

use crate::bounds::{
    lemma_assignment_bounds, lemma_block_bounds, lemma_factor_bounds,
    lemma_functiondefinition_bounds, lemma_program_bounds, lemma_simpexpr_bounds,
    lemma_simpexpr_rest_bounds, lemma_statement_bounds, lemma_statement_list_bounds,
    lemma_term_bounds, lemma_term_rest_bounds, lemma_if_statement_bounds,
    lemma_return_statement_bounds, lemma_printf_bounds, lemma_stat_assignment_bounds,
};
use crate::grammar::{
    is_additive, is_at, is_multiplicative, is_relational, optional, sp_assignment, sp_block,
    sp_expr, sp_factor, sp_function_call, sp_functiondefinition, sp_if_statement, sp_printf,
    sp_program, sp_return_statement, sp_return_type, sp_simpexpr, sp_simpexpr_rest,
    sp_stat_assignment, sp_statement, sp_statement_list, sp_term, sp_term_rest, starts_block, Step,
};
use crate::lexer::token_at;
use crate::token::C1Token;

verus! {

/// The tokens of `t` at `p..=p + k` are those of `u` at `p2..=p2 + k`
/// (a position past the end holds no token).
#[verifier::opaque]
pub open spec fn same_window(t: Seq<C1Token>, p: int, u: Seq<C1Token>, p2: int, k: int) -> bool {
    forall|i: int| p <= i <= p + k ==> #[trigger] token_at(t, i) == token_at(u, i - p + p2)
}

pub proof fn lemma_window_at(t: Seq<C1Token>, p: int, u: Seq<C1Token>, p2: int, k: int, j: int)
    requires
        same_window(t, p, u, p2, k),
        0 <= j <= k,
    ensures
        token_at(t, p + j) == token_at(u, p2 + j),
{
    reveal(same_window);
    assert(token_at(t, p + j) == token_at(u, (p + j) - p + p2));
}

pub proof fn lemma_window_sub(
    t: Seq<C1Token>,
    p: int,
    u: Seq<C1Token>,
    p2: int,
    k: int,
    a: int,
    k2: int,
)
    requires
        same_window(t, p, u, p2, k),
        0 <= a,
        a + k2 <= k,
    ensures
        same_window(t, p + a, u, p2 + a, k2),
{
    reveal(same_window);
    assert forall|i: int| p + a <= i <= p + a + k2 implies #[trigger] token_at(t, i) == token_at(
        u,
        i - (p + a) + (p2 + a),
    ) by {
        assert(token_at(t, i) == token_at(u, i - p + p2));
    }
}

/// A position of the window that lies within `t` lies within `u`.
pub proof fn lemma_window_len(t: Seq<C1Token>, p: int, u: Seq<C1Token>, p2: int, k: int, j: int)
    requires
        same_window(t, p, u, p2, k),
        0 <= j <= k,
        0 <= p,
        p + j <= t.len(),
        0 <= p2 <= u.len(),
    ensures
        p2 + j <= u.len(),
{
    if p + j < t.len() {
        lemma_window_at(t, p, u, p2, k, j);
    } else if j > 0 {
        lemma_window_at(t, p, u, p2, k, j - 1);
    }
}

pub proof fn lemma_window_function_call(t: Seq<C1Token>, p: int, u: Seq<C1Token>, p2: int)
    requires
        sp_function_call(t, p) is Done,
        same_window(t, p, u, p2, sp_function_call(t, p).pos() - p),
    ensures
        sp_function_call(u, p2) == Step::Done(p2 + sp_function_call(t, p).pos() - p),
{
    lemma_window_at(t, p, u, p2, 3, 0);
    lemma_window_at(t, p, u, p2, 3, 1);
    lemma_window_at(t, p, u, p2, 3, 2);
}

pub proof fn lemma_window_return_type(t: Seq<C1Token>, p: int, u: Seq<C1Token>, p2: int)
    requires
        sp_return_type(t, p) is Done,
        same_window(t, p, u, p2, 0),
    ensures
        sp_return_type(u, p2) == Step::Done(p2 + sp_return_type(t, p).pos() - p),
{
    lemma_window_at(t, p, u, p2, 0, 0);
}

pub proof fn lemma_window_program(t: Seq<C1Token>, p: int, u: Seq<C1Token>, p2: int)
    requires
        0 <= p <= t.len(),
        0 <= p2 <= u.len(),
        sp_program(t, p) is Done,
        same_window(t, p, u, p2, sp_program(t, p).pos() - p),
    ensures
        sp_program(u, p2) == Step::Done(p2 + sp_program(t, p).pos() - p),
    decreases t.len() - p,
{
    let q = sp_program(t, p).pos();
    lemma_program_bounds(t, p);
    lemma_window_at(t, p, u, p2, q - p, 0);
    if token_at(t, p) is Some {
        lemma_functiondefinition_bounds(t, p);
        let q1 = sp_functiondefinition(t, p).pos();
        lemma_program_bounds(t, q1);
        lemma_window_sub(t, p, u, p2, q - p, 0, q1 - p - 1);
        lemma_window_functiondefinition(t, p, u, p2);
        lemma_window_len(t, p, u, p2, q - p, q1 - p);
        lemma_window_sub(t, p, u, p2, q - p, q1 - p, q - q1);
        lemma_window_program(t, q1, u, p2 + q1 - p);
    }
}

/// A function definition reads no token after its closing brace.
pub proof fn lemma_window_functiondefinition(t: Seq<C1Token>, p: int, u: Seq<C1Token>, p2: int)
    requires
        0 <= p <= t.len(),
        0 <= p2 <= u.len(),
        sp_functiondefinition(t, p) is Done,
        same_window(t, p, u, p2, sp_functiondefinition(t, p).pos() - p - 1),
    ensures
        sp_functiondefinition(u, p2) == Step::Done(p2 + sp_functiondefinition(t, p).pos() - p),
{
    let q = sp_functiondefinition(t, p).pos();
    let k = q - p - 1;
    lemma_functiondefinition_bounds(t, p);
    let p1 = p + 1;
    let p2a = optional(t, p1, C1Token::Identifier);
    let p3 = optional(t, p2a, C1Token::LeftParenthesis);
    let p4 = optional(t, p3, C1Token::RightParenthesis);
    let p5 = optional(t, p4, C1Token::LeftBrace);
    lemma_statement_list_bounds(t, p5);
    let p6 = sp_statement_list(t, p5).pos();
    assert(q == p6 + 1);
    lemma_window_at(t, p, u, p2, k, 0);
    lemma_window_at(t, p, u, p2, k, p1 - p);
    lemma_window_at(t, p, u, p2, k, p2a - p);
    lemma_window_at(t, p, u, p2, k, p3 - p);
    lemma_window_at(t, p, u, p2, k, p4 - p);
    lemma_window_at(t, p, u, p2, k, p6 - p);
    lemma_window_sub(t, p, u, p2, k, p5 - p, p6 - p5);
    lemma_window_len(t, p, u, p2, k, p5 - p);
    lemma_window_statement_list(t, p5, u, p2 + p5 - p);
}

pub proof fn lemma_window_statement_list(t: Seq<C1Token>, p: int, u: Seq<C1Token>, p2: int)
    requires
        0 <= p <= t.len(),
        0 <= p2 <= u.len(),
        sp_statement_list(t, p) is Done,
        same_window(t, p, u, p2, sp_statement_list(t, p).pos() - p),
    ensures
        sp_statement_list(u, p2) == Step::Done(p2 + sp_statement_list(t, p).pos() - p),
    decreases t.len() - p, 8int,
{
    let q = sp_statement_list(t, p).pos();
    lemma_statement_list_bounds(t, p);
    lemma_window_at(t, p, u, p2, q - p, 0);
    if starts_block(token_at(t, p)) {
        lemma_block_bounds(t, p);
        let q1 = sp_block(t, p).pos();
        lemma_statement_list_bounds(t, q1);
        lemma_window_sub(t, p, u, p2, q - p, 0, q1 - p);
        lemma_window_block(t, p, u, p2);
        lemma_window_len(t, p, u, p2, q - p, q1 - p);
        lemma_window_sub(t, p, u, p2, q - p, q1 - p, q - q1);
        lemma_window_statement_list(t, q1, u, p2 + q1 - p);
    }
}

pub proof fn lemma_window_block(t: Seq<C1Token>, p: int, u: Seq<C1Token>, p2: int)
    requires
        0 <= p <= t.len(),
        0 <= p2 <= u.len(),
        sp_block(t, p) is Done,
        same_window(t, p, u, p2, sp_block(t, p).pos() - p),
    ensures
        sp_block(u, p2) == Step::Done(p2 + sp_block(t, p).pos() - p),
    decreases t.len() - p, 7int,
{
    let q = sp_block(t, p).pos();
    lemma_block_bounds(t, p);
    lemma_window_at(t, p, u, p2, q - p, 0);
    if is_at(t, p, C1Token::LeftBrace) {
        lemma_statement_list_bounds(t, p + 1);
        let q1 = sp_statement_list(t, p + 1).pos();
        lemma_window_sub(t, p, u, p2, q - p, 1, q1 - p - 1);
        lemma_window_len(t, p, u, p2, q - p, 1);
        lemma_window_statement_list(t, p + 1, u, p2 + 1);
        lemma_window_at(t, p, u, p2, q - p, q1 - p);
    } else {
        lemma_window_statement(t, p, u, p2);
    }
}

pub proof fn lemma_window_statement(t: Seq<C1Token>, p: int, u: Seq<C1Token>, p2: int)
    requires
        0 <= p <= t.len(),
        0 <= p2 <= u.len(),
        sp_statement(t, p) is Done,
        same_window(t, p, u, p2, sp_statement(t, p).pos() - p),
    ensures
        sp_statement(u, p2) == Step::Done(p2 + sp_statement(t, p).pos() - p),
    decreases t.len() - p, 6int,
{
    let q = sp_statement(t, p).pos();
    lemma_statement_bounds(t, p);
    lemma_window_at(t, p, u, p2, q - p, 0);
    if is_at(t, p, C1Token::KwIf) {
        lemma_window_if_statement(t, p, u, p2);
    } else if is_at(t, p, C1Token::KwReturn) {
        lemma_return_statement_bounds(t, p);
        let q1 = sp_return_statement(t, p).pos();
        lemma_window_sub(t, p, u, p2, q - p, 0, q1 - p);
        lemma_window_return_statement(t, p, u, p2);
        lemma_window_at(t, p, u, p2, q - p, q1 - p);
    } else if is_at(t, p, C1Token::KwPrintf) {
        lemma_printf_bounds(t, p);
        let q1 = sp_printf(t, p).pos();
        lemma_window_sub(t, p, u, p2, q - p, 0, q1 - p);
        lemma_window_printf(t, p, u, p2);
        lemma_window_at(t, p, u, p2, q - p, q1 - p);
    } else if is_at(t, p, C1Token::Identifier) {
        lemma_window_at(t, p, u, p2, q - p, 1);
        if is_at(t, p + 1, C1Token::LeftParenthesis) {
            let q1 = sp_function_call(t, p).pos();
            lemma_window_sub(t, p, u, p2, q - p, 0, q1 - p);
            lemma_window_function_call(t, p, u, p2);
            lemma_window_at(t, p, u, p2, q - p, q1 - p);
        } else {
            lemma_stat_assignment_bounds(t, p);
            let q1 = sp_stat_assignment(t, p).pos();
            lemma_window_sub(t, p, u, p2, q - p, 0, q1 - p);
            lemma_window_stat_assignment(t, p, u, p2);
            lemma_window_at(t, p, u, p2, q - p, q1 - p);
        }
    }
}

pub proof fn lemma_window_if_statement(t: Seq<C1Token>, p: int, u: Seq<C1Token>, p2: int)
    requires
        0 <= p <= t.len(),
        0 <= p2 <= u.len(),
        sp_if_statement(t, p) is Done,
        same_window(t, p, u, p2, sp_if_statement(t, p).pos() - p),
    ensures
        sp_if_statement(u, p2) == Step::Done(p2 + sp_if_statement(t, p).pos() - p),
    decreases t.len() - p, 5int,
{
    let q = sp_if_statement(t, p).pos();
    let k = q - p;
    lemma_if_statement_bounds(t, p);
    lemma_assignment_bounds(t, p + 2);
    let p3 = sp_assignment(t, p + 2).pos();
    lemma_block_bounds(t, p3 + 1);
    lemma_window_at(t, p, u, p2, k, 0);
    lemma_window_at(t, p, u, p2, k, 1);
    lemma_window_len(t, p, u, p2, k, 2);
    lemma_window_sub(t, p, u, p2, k, 2, p3 - p - 2);
    lemma_window_assignment(t, p + 2, u, p2 + 2);
    lemma_window_at(t, p, u, p2, k, p3 - p);
    lemma_window_len(t, p, u, p2, k, p3 + 1 - p);
    lemma_window_sub(t, p, u, p2, k, p3 + 1 - p, q - p3 - 1);
    lemma_window_block(t, p3 + 1, u, p2 + p3 + 1 - p);
    lemma_window_len(t, p, u, p2, k, p3 - p);
}

pub proof fn lemma_window_return_statement(t: Seq<C1Token>, p: int, u: Seq<C1Token>, p2: int)
    requires
        0 <= p <= t.len(),
        0 <= p2 <= u.len(),
        sp_return_statement(t, p) is Done,
        same_window(t, p, u, p2, sp_return_statement(t, p).pos() - p),
    ensures
        sp_return_statement(u, p2) == Step::Done(p2 + sp_return_statement(t, p).pos() - p),
    decreases t.len() - p, 5int,
{
    let q = sp_return_statement(t, p).pos();
    lemma_return_statement_bounds(t, p);
    lemma_window_at(t, p, u, p2, q - p, 0);
    lemma_assignment_bounds(t, p + 1);
    lemma_window_at(t, p, u, p2, q - p, 1);
    if !is_at(t, p + 1, C1Token::Semicolon) {
        lemma_window_sub(t, p, u, p2, q - p, 1, q - p - 1);
        lemma_window_len(t, p, u, p2, q - p, 1);
        lemma_window_assignment(t, p + 1, u, p2 + 1);
    }
}

pub proof fn lemma_window_printf(t: Seq<C1Token>, p: int, u: Seq<C1Token>, p2: int)
    requires
        0 <= p <= t.len(),
        0 <= p2 <= u.len(),
        sp_printf(t, p) is Done,
        same_window(t, p, u, p2, sp_printf(t, p).pos() - p),
    ensures
        sp_printf(u, p2) == Step::Done(p2 + sp_printf(t, p).pos() - p),
    decreases t.len() - p, 5int,
{
    let q = sp_printf(t, p).pos();
    let k = q - p;
    lemma_printf_bounds(t, p);
    lemma_assignment_bounds(t, p + 2);
    let p3 = sp_assignment(t, p + 2).pos();
    lemma_window_at(t, p, u, p2, k, 0);
    lemma_window_at(t, p, u, p2, k, 1);
    lemma_window_len(t, p, u, p2, k, 2);
    lemma_window_sub(t, p, u, p2, k, 2, p3 - p - 2);
    lemma_window_assignment(t, p + 2, u, p2 + 2);
    lemma_window_at(t, p, u, p2, k, p3 - p);
}

pub proof fn lemma_window_stat_assignment(t: Seq<C1Token>, p: int, u: Seq<C1Token>, p2: int)
    requires
        0 <= p <= t.len(),
        0 <= p2 <= u.len(),
        sp_stat_assignment(t, p) is Done,
        same_window(t, p, u, p2, sp_stat_assignment(t, p).pos() - p),
    ensures
        sp_stat_assignment(u, p2) == Step::Done(p2 + sp_stat_assignment(t, p).pos() - p),
    decreases t.len() - p, 5int,
{
    let q = sp_stat_assignment(t, p).pos();
    let k = q - p;
    lemma_stat_assignment_bounds(t, p);
    lemma_assignment_bounds(t, p + 2);
    lemma_window_at(t, p, u, p2, k, 0);
    lemma_window_at(t, p, u, p2, k, 1);
    lemma_window_len(t, p, u, p2, k, 2);
    lemma_window_sub(t, p, u, p2, k, 2, k - 2);
    lemma_window_assignment(t, p + 2, u, p2 + 2);
}

pub proof fn lemma_window_assignment(t: Seq<C1Token>, p: int, u: Seq<C1Token>, p2: int)
    requires
        0 <= p <= t.len(),
        0 <= p2 <= u.len(),
        sp_assignment(t, p) is Done,
        same_window(t, p, u, p2, sp_assignment(t, p).pos() - p),
    ensures
        sp_assignment(u, p2) == Step::Done(p2 + sp_assignment(t, p).pos() - p),
    decreases t.len() - p, 4int,
{
    let q = sp_assignment(t, p).pos();
    let k = q - p;
    lemma_assignment_bounds(t, p);
    lemma_window_at(t, p, u, p2, k, 0);
    if is_at(t, p, C1Token::Identifier) {
        lemma_window_at(t, p, u, p2, k, 1);
    }
    if is_at(t, p, C1Token::Identifier) && is_at(t, p + 1, C1Token::Assign) {
        lemma_assignment_bounds(t, p + 2);
        lemma_window_len(t, p, u, p2, k, 2);
        lemma_window_sub(t, p, u, p2, k, 2, k - 2);
        lemma_window_assignment(t, p + 2, u, p2 + 2);
    } else {
        lemma_window_expr(t, p, u, p2);
    }
}

#[verifier::spinoff_prover]
#[verifier::rlimit(60)]
pub proof fn lemma_window_expr(t: Seq<C1Token>, p: int, u: Seq<C1Token>, p2: int)
    requires
        0 <= p <= t.len(),
        0 <= p2 <= u.len(),
        sp_expr(t, p) is Done,
        same_window(t, p, u, p2, sp_expr(t, p).pos() - p),
    ensures
        sp_expr(u, p2) == Step::Done(p2 + sp_expr(t, p).pos() - p),
    decreases t.len() - p, 3int,
{
    let q = sp_expr(t, p).pos();
    let k = q - p;
    lemma_simpexpr_bounds(t, p);
    let q1 = sp_simpexpr(t, p).pos();
    let r1 = p2 + q1 - p;
    let rel = is_relational(token_at(t, q1));
    if rel {
        lemma_simpexpr_bounds(t, q1 + 1);
        assert(sp_expr(t, p) == sp_simpexpr(t, q1 + 1));
    } else {
        assert(q == q1);
    }
    lemma_window_sub(t, p, u, p2, k, 0, q1 - p);
    lemma_window_simpexpr(t, p, u, p2);
    lemma_window_at(t, p, u, p2, k, q1 - p);
    lemma_window_len(t, p, u, p2, k, q1 - p);
    assert(sp_simpexpr(u, p2) == Step::Done(r1));
    assert(is_relational(token_at(u, r1)) == rel);
    if rel {
        lemma_window_len(t, p, u, p2, k, q1 + 1 - p);
        lemma_window_sub(t, p, u, p2, k, q1 + 1 - p, q - q1 - 1);
        lemma_window_simpexpr(t, q1 + 1, u, r1 + 1);
        assert(sp_expr(u, p2) == sp_simpexpr(u, r1 + 1));
    }
}

pub proof fn lemma_window_simpexpr(t: Seq<C1Token>, p: int, u: Seq<C1Token>, p2: int)
    requires
        0 <= p <= t.len(),
        0 <= p2 <= u.len(),
        sp_simpexpr(t, p) is Done,
        same_window(t, p, u, p2, sp_simpexpr(t, p).pos() - p),
    ensures
        sp_simpexpr(u, p2) == Step::Done(p2 + sp_simpexpr(t, p).pos() - p),
    decreases t.len() - p, 2int,
{
    let q = sp_simpexpr(t, p).pos();
    let k = q - p;
    lemma_simpexpr_bounds(t, p);
    lemma_window_at(t, p, u, p2, k, 0);
    let p1 = optional(t, p, C1Token::Minus);
    lemma_term_bounds(t, p1);
    let q1 = sp_term(t, p1).pos();
    lemma_simpexpr_rest_bounds(t, q1);
    lemma_window_len(t, p, u, p2, k, p1 - p);
    lemma_window_sub(t, p, u, p2, k, p1 - p, q1 - p1);
    lemma_window_term(t, p1, u, p2 + p1 - p);
    lemma_window_len(t, p, u, p2, k, q1 - p);
    lemma_window_sub(t, p, u, p2, k, q1 - p, q - q1);
    lemma_window_simpexpr_rest(t, q1, u, p2 + q1 - p);
}

pub proof fn lemma_window_simpexpr_rest(t: Seq<C1Token>, p: int, u: Seq<C1Token>, p2: int)
    requires
        0 <= p <= t.len(),
        0 <= p2 <= u.len(),
        sp_simpexpr_rest(t, p) is Done,
        same_window(t, p, u, p2, sp_simpexpr_rest(t, p).pos() - p),
    ensures
        sp_simpexpr_rest(u, p2) == Step::Done(p2 + sp_simpexpr_rest(t, p).pos() - p),
    decreases t.len() - p, 0int,
{
    let q = sp_simpexpr_rest(t, p).pos();
    let k = q - p;
    lemma_simpexpr_rest_bounds(t, p);
    lemma_window_at(t, p, u, p2, k, 0);
    if is_additive(token_at(t, p)) {
        lemma_term_bounds(t, p + 1);
        let q1 = sp_term(t, p + 1).pos();
        lemma_simpexpr_rest_bounds(t, q1);
        lemma_window_len(t, p, u, p2, k, 1);
        lemma_window_sub(t, p, u, p2, k, 1, q1 - p - 1);
        lemma_window_term(t, p + 1, u, p2 + 1);
        lemma_window_len(t, p, u, p2, k, q1 - p);
        lemma_window_sub(t, p, u, p2, k, q1 - p, q - q1);
        lemma_window_simpexpr_rest(t, q1, u, p2 + q1 - p);
    }
}

pub proof fn lemma_window_term(t: Seq<C1Token>, p: int, u: Seq<C1Token>, p2: int)
    requires
        0 <= p <= t.len(),
        0 <= p2 <= u.len(),
        sp_term(t, p) is Done,
        same_window(t, p, u, p2, sp_term(t, p).pos() - p),
    ensures
        sp_term(u, p2) == Step::Done(p2 + sp_term(t, p).pos() - p),
    decreases t.len() - p, 1int,
{
    let q = sp_term(t, p).pos();
    let k = q - p;
    lemma_term_bounds(t, p);
    lemma_factor_bounds(t, p);
    let q1 = sp_factor(t, p).pos();
    lemma_term_rest_bounds(t, q1);
    lemma_window_sub(t, p, u, p2, k, 0, q1 - p);
    lemma_window_factor(t, p, u, p2);
    lemma_window_len(t, p, u, p2, k, q1 - p);
    lemma_window_sub(t, p, u, p2, k, q1 - p, q - q1);
    lemma_window_term_rest(t, q1, u, p2 + q1 - p);
}

pub proof fn lemma_window_term_rest(t: Seq<C1Token>, p: int, u: Seq<C1Token>, p2: int)
    requires
        0 <= p <= t.len(),
        0 <= p2 <= u.len(),
        sp_term_rest(t, p) is Done,
        same_window(t, p, u, p2, sp_term_rest(t, p).pos() - p),
    ensures
        sp_term_rest(u, p2) == Step::Done(p2 + sp_term_rest(t, p).pos() - p),
    decreases t.len() - p, 0int,
{
    let q = sp_term_rest(t, p).pos();
    let k = q - p;
    lemma_term_rest_bounds(t, p);
    lemma_window_at(t, p, u, p2, k, 0);
    if is_multiplicative(token_at(t, p)) {
        lemma_factor_bounds(t, p + 1);
        let q1 = sp_factor(t, p + 1).pos();
        lemma_term_rest_bounds(t, q1);
        lemma_window_len(t, p, u, p2, k, 1);
        lemma_window_sub(t, p, u, p2, k, 1, q1 - p - 1);
        lemma_window_factor(t, p + 1, u, p2 + 1);
        lemma_window_len(t, p, u, p2, k, q1 - p);
        lemma_window_sub(t, p, u, p2, k, q1 - p, q - q1);
        lemma_window_term_rest(t, q1, u, p2 + q1 - p);
    }
}

pub proof fn lemma_window_factor(t: Seq<C1Token>, p: int, u: Seq<C1Token>, p2: int)
    requires
        0 <= p <= t.len(),
        0 <= p2 <= u.len(),
        sp_factor(t, p) is Done,
        same_window(t, p, u, p2, sp_factor(t, p).pos() - p),
    ensures
        sp_factor(u, p2) == Step::Done(p2 + sp_factor(t, p).pos() - p),
    decreases t.len() - p, 0int,
{
    let q = sp_factor(t, p).pos();
    let k = q - p;
    lemma_factor_bounds(t, p);
    lemma_window_at(t, p, u, p2, k, 0);
    if is_at(t, p, C1Token::LeftParenthesis) {
        lemma_assignment_bounds(t, p + 1);
        let q1 = sp_assignment(t, p + 1).pos();
        lemma_window_len(t, p, u, p2, k, 1);
        lemma_window_sub(t, p, u, p2, k, 1, q1 - p - 1);
        lemma_window_assignment(t, p + 1, u, p2 + 1);
        lemma_window_at(t, p, u, p2, k, q1 - p);
    } else if is_at(t, p, C1Token::Identifier) {
        lemma_window_at(t, p, u, p2, k, 1);
        if is_at(t, p + 1, C1Token::LeftParenthesis) {
            lemma_window_function_call(t, p, u, p2);
        }
    }
}

} // verus!
