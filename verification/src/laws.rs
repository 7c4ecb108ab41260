//! Laws of the C1 recognizer.
use vstd::prelude::*;

use crate::grammar::{sp_functiondefinition, sp_program, Step};
use crate::lexer::{lex, lex_from, skip_trivia, token_at, token_kinds};
use crate::token::C1Token;
use crate::window::{lemma_window_functiondefinition, lemma_window_program, same_window};

verus! {

proof fn lemma_program_concat_from(t1: Seq<C1Token>, t2: Seq<C1Token>, p: int)
    requires
        0 <= p <= t1.len(),
        sp_program(t1, p) is Done,
        sp_program(t2, 0) is Done,
    ensures
        sp_program(t1 + t2, p) is Done,
    decreases t1.len() - p,
{
    let u = t1 + t2;
    let n = t1.len() as int;
    if p == n {
        let q2 = sp_program(t2, 0).pos();
        assert(same_window(t2, 0, u, n, q2)) by {
            reveal(same_window);
            assert forall|i: int| 0 <= i <= 0 + q2 implies #[trigger] token_at(t2, i) == token_at(
                u,
                i - 0 + n,
            ) by {
                if i < t2.len() {
                    assert(u[n + i] == t2[i]);
                }
            }
        }
        lemma_window_program(t2, 0, u, n);
    } else {
        crate::bounds::lemma_functiondefinition_bounds(t1, p);
        let q1 = sp_functiondefinition(t1, p).pos();
        assert(same_window(t1, p, u, p, q1 - p - 1)) by {
            reveal(same_window);
            assert forall|i: int| p <= i <= p + (q1 - p - 1) implies #[trigger] token_at(t1, i)
                == token_at(u, i - p + p) by {
                assert(u[i] == t1[i]);
            }
        }
        lemma_window_functiondefinition(t1, p, u, p);
        assert(token_at(u, p) == token_at(t1, p)) by {
            assert(u[p] == t1[p]);
        }
        lemma_program_concat_from(t1, t2, q1);
    }
}

/// Programs concatenate: the tokens of one program followed by those of
/// another again form a program, since a program is any sequence of
/// function definitions.
pub proof fn law_programs_concatenate(t1: Seq<C1Token>, t2: Seq<C1Token>)
    requires
        sp_program(t1, 0) is Done,
        sp_program(t2, 0) is Done,
    ensures
        sp_program(t1 + t2, 0) is Done,
{
    lemma_program_concat_from(t1, t2, 0);
}

/// Whether a text is a program depends only on the kinds of its tokens, not
/// on their spelling or on the white space and comments around them.
pub proof fn law_acceptance_depends_on_kinds(s1: Seq<char>, s2: Seq<char>)
    requires
        token_kinds(lex(s1)) == token_kinds(lex(s2)),
    ensures
        sp_program(token_kinds(lex(s1)), 0) == sp_program(token_kinds(lex(s2)), 0),
{
}

/// A text made only of white space and comments has no tokens, and is the
/// empty program.
pub proof fn law_blank_text_is_empty_program(s: Seq<char>)
    requires
        skip_trivia(s, 0) >= s.len(),
    ensures
        lex(s) == Seq::<crate::token::TokenData>::empty(),
        sp_program(token_kinds(lex(s)), 0) == Step::Done(0),
{
    assert(lex(s) == lex_from(s, 0));
    assert(token_kinds(lex(s)) =~= Seq::<C1Token>::empty());
}

} // verus!
