//! The C1 grammar as the parser reads it: for each nonterminal, what
//! recognizing it from a position in a sequence of token kinds yields.
//!
//! ```text
//! program            ::= ( functiondefinition )* <EOF>
//! functiondefinition ::= type <ID> "(" ")" "{" statementlist "}"
//! statementlist      ::= ( block )*
//! block              ::= "{" statementlist "}" | statement
//! statement          ::= ifstatement | returnstatement ";" | printf ";"
//!                      | functioncall ";" | statassignment ";"
//! ifstatement        ::= "if" "(" assignment ")" block
//! returnstatement    ::= "return" ( assignment )?
//! printf             ::= "printf" "(" assignment ")"
//! type               ::= "bool" | "float" | "int" | "void"
//! statassignment     ::= <ID> "=" assignment
//! functioncall       ::= <ID> "(" ")"
//! assignment         ::= <ID> "=" assignment | expr
//! expr               ::= simpexpr ( ( "==" | "!=" | "<=" | ">=" | "<" | ">" ) simpexpr )?
//! simpexpr           ::= ( "-" )? term ( ( "+" | "-" | "||" ) term )*
//! term               ::= factor ( ( "*" | "/" | "&&" ) factor )*
//! factor             ::= <CONST_INT> | <CONST_FLOAT> | <CONST_BOOLEAN>
//!                      | functioncall | <ID> | "(" assignment ")"
//! ```
//!
//! A function definition is lenient: a missing identifier, parenthesis or
//! opening brace after its type is passed over. A statement list ends at the
//! first token that cannot start a block.
use vstd::prelude::*;

use crate::lexer::token_at;
use crate::token::C1Token;

verus! {

/// Why recognition failed: a fixed message, or a reason to be reported
/// together with the token at a position.
pub enum SpecErr {
    Plain(Seq<char>),
    At(Seq<char>, int),
}

/// The result of recognizing a nonterminal: the position after it, or the
/// position at which recognition stopped and why.
pub enum Step {
    Done(int),
    Fail(int, SpecErr),
}

impl Step {
    /// The position reached.
    pub open spec fn pos(self) -> int {
        match self {
            Step::Done(p) => p,
            Step::Fail(p, _) => p,
        }
    }
}

/// The token at `p` is of kind `k`.
pub open spec fn is_at(t: Seq<C1Token>, p: int, k: C1Token) -> bool {
    token_at(t, p) == Some(k)
}

/// One token of kind `k` is required at `p`.
pub open spec fn expect(t: Seq<C1Token>, p: int, k: C1Token, msg: Seq<char>) -> Step {
    if is_at(t, p, k) {
        Step::Done(p + 1)
    } else {
        Step::Fail(p, SpecErr::Plain(msg))
    }
}

/// One token of kind `k` is taken at `p` if it is there.
pub open spec fn optional(t: Seq<C1Token>, p: int, k: C1Token) -> int {
    if is_at(t, p, k) {
        p + 1
    } else {
        p
    }
}

/// Failure at `p`, reported with the token there.
pub open spec fn fail_at(p: int, reason: Seq<char>) -> Step {
    Step::Fail(p, SpecErr::At(reason, p))
}

/// `q` lies at or after `p` and within the tokens. Every result of a
/// nonterminal lies so (the parser's contracts show it), so the branches
/// guarded by it are never taken the other way; they make the recursion
/// visibly well founded.
pub open spec fn fwd(t: Seq<C1Token>, p: int, q: int) -> bool {
    p <= q <= t.len()
}

pub open spec fn is_type_keyword(o: Option<C1Token>) -> bool {
    o == Some(C1Token::KwBoolean) || o == Some(C1Token::KwFloat) || o == Some(C1Token::KwInt)
        || o == Some(C1Token::KwVoid)
}

/// The tokens that can start a block.
pub open spec fn starts_block(o: Option<C1Token>) -> bool {
    o == Some(C1Token::LeftBrace) || o == Some(C1Token::KwIf) || o == Some(C1Token::KwReturn) || o
        == Some(C1Token::KwPrintf) || o == Some(C1Token::Identifier)
}

pub open spec fn is_relational(o: Option<C1Token>) -> bool {
    o == Some(C1Token::Equal) || o == Some(C1Token::NotEqual) || o == Some(C1Token::LessEqual) || o
        == Some(C1Token::GreaterEqual) || o == Some(C1Token::Less) || o == Some(C1Token::Greater)
}

pub open spec fn is_additive(o: Option<C1Token>) -> bool {
    o == Some(C1Token::Plus) || o == Some(C1Token::Minus) || o == Some(C1Token::Or)
}

pub open spec fn is_multiplicative(o: Option<C1Token>) -> bool {
    o == Some(C1Token::Asterisk) || o == Some(C1Token::Slash) || o == Some(C1Token::And)
}

/// The tokens that make a factor on their own.
pub open spec fn is_operand(o: Option<C1Token>) -> bool {
    o == Some(C1Token::Identifier) || o == Some(C1Token::ConstBoolean) || o == Some(
        C1Token::ConstFloat,
    ) || o == Some(C1Token::ConstInt)
}

/// `program ::= ( functiondefinition )* <EOF>`
pub open spec fn sp_program(t: Seq<C1Token>, p: int) -> Step
    decreases t.len() - p,
{
    if token_at(t, p) is None {
        Step::Done(p)
    } else {
        match sp_functiondefinition(t, p) {
            Step::Done(q) => if p < q <= t.len() {
                sp_program(t, q)
            } else {
                Step::Done(q)
            },
            f => f,
        }
    }
}

/// `functiondefinition ::= type <ID> "(" ")" "{" statementlist "}"`
pub open spec fn sp_functiondefinition(t: Seq<C1Token>, p: int) -> Step {
    match sp_return_type(t, p) {
        Step::Done(p1) => {
            let p2 = optional(t, p1, C1Token::Identifier);
            let p3 = optional(t, p2, C1Token::LeftParenthesis);
            let p4 = optional(t, p3, C1Token::RightParenthesis);
            let p5 = optional(t, p4, C1Token::LeftBrace);
            match sp_statement_list(t, p5) {
                Step::Done(p6) => expect(t, p6, C1Token::RightBrace, "RightBrace fehlt"@),
                f => f,
            }
        },
        f => f,
    }
}

/// `type ::= "bool" | "float" | "int" | "void"`
pub open spec fn sp_return_type(t: Seq<C1Token>, p: int) -> Step {
    if is_type_keyword(token_at(t, p)) {
        Step::Done(p + 1)
    } else {
        fail_at(p, "Fehler"@)
    }
}

/// `statementlist ::= ( block )*`
pub open spec fn sp_statement_list(t: Seq<C1Token>, p: int) -> Step
    decreases t.len() - p, 8int,
{
    if starts_block(token_at(t, p)) {
        match sp_block(t, p) {
            Step::Done(q) => if p < q <= t.len() {
                sp_statement_list(t, q)
            } else {
                Step::Done(q)
            },
            f => f,
        }
    } else {
        Step::Done(p)
    }
}

/// `block ::= "{" statementlist "}" | statement`
pub open spec fn sp_block(t: Seq<C1Token>, p: int) -> Step
    decreases t.len() - p, 7int,
{
    if is_at(t, p, C1Token::LeftBrace) {
        match sp_statement_list(t, p + 1) {
            Step::Done(q) => expect(t, q, C1Token::RightBrace, "RightBrace fehlt"@),
            f => f,
        }
    } else {
        sp_statement(t, p)
    }
}

/// The statement followed by a semicolon.
pub open spec fn then_semicolon(s: Step, t: Seq<C1Token>) -> Step {
    match s {
        Step::Done(q) => expect(t, q, C1Token::Semicolon, "Semicolon fehlt"@),
        f => f,
    }
}

/// `statement ::= ifstatement | returnstatement ";" | printf ";"
///              | functioncall ";" | statassignment ";"`
pub open spec fn sp_statement(t: Seq<C1Token>, p: int) -> Step
    decreases t.len() - p, 6int,
{
    if is_at(t, p, C1Token::KwIf) {
        sp_if_statement(t, p)
    } else if is_at(t, p, C1Token::KwReturn) {
        then_semicolon(sp_return_statement(t, p), t)
    } else if is_at(t, p, C1Token::KwPrintf) {
        then_semicolon(sp_printf(t, p), t)
    } else if is_at(t, p, C1Token::Identifier) {
        if is_at(t, p + 1, C1Token::LeftParenthesis) {
            then_semicolon(sp_function_call(t, p), t)
        } else if is_at(t, p + 1, C1Token::Assign) {
            then_semicolon(sp_stat_assignment(t, p), t)
        } else {
            fail_at(p, "fehler"@)
        }
    } else {
        fail_at(p, "Fehler"@)
    }
}

/// `ifstatement ::= "if" "(" assignment ")" block`
pub open spec fn sp_if_statement(t: Seq<C1Token>, p: int) -> Step
    decreases t.len() - p, 5int,
{
    match expect(t, p, C1Token::KwIf, "KWif fehlt"@) {
        Step::Done(p1) => match expect(t, p1, C1Token::LeftParenthesis, "LeftParenthesis fehlt"@) {
            Step::Done(p2) => match sp_assignment(t, p2) {
                Step::Done(p3) => match expect(
                    t,
                    p3,
                    C1Token::RightParenthesis,
                    "Right parenthesiss fehlt"@,
                ) {
                    Step::Done(p4) => if fwd(t, p2, p3) {
                        sp_block(t, p4)
                    } else {
                        Step::Done(p4)
                    },
                    f => f,
                },
                f => f,
            },
            f => f,
        },
        f => f,
    }
}

/// `returnstatement ::= "return" ( assignment )?`; the assignment is left
/// out exactly when a semicolon follows `return`.
pub open spec fn sp_return_statement(t: Seq<C1Token>, p: int) -> Step
    decreases t.len() - p, 5int,
{
    match expect(t, p, C1Token::KwReturn, "Kwreturn fehlt"@) {
        Step::Done(p1) => if is_at(t, p1, C1Token::Semicolon) {
            Step::Done(p1)
        } else {
            sp_assignment(t, p1)
        },
        f => f,
    }
}

/// `printf ::= "printf" "(" assignment ")"`
pub open spec fn sp_printf(t: Seq<C1Token>, p: int) -> Step
    decreases t.len() - p, 5int,
{
    match expect(t, p, C1Token::KwPrintf, "KwPrintf fehlt"@) {
        Step::Done(p1) => match expect(t, p1, C1Token::LeftParenthesis, "Leftparenthesis fehlt"@) {
            Step::Done(p2) => match sp_assignment(t, p2) {
                Step::Done(p3) => expect(
                    t,
                    p3,
                    C1Token::RightParenthesis,
                    "Rightparenthesis fehlt"@,
                ),
                f => f,
            },
            f => f,
        },
        f => f,
    }
}

/// `statassignment ::= <ID> "=" assignment`
pub open spec fn sp_stat_assignment(t: Seq<C1Token>, p: int) -> Step
    decreases t.len() - p, 5int,
{
    match expect(t, p, C1Token::Identifier, "identifier fehlt"@) {
        Step::Done(p1) => match expect(t, p1, C1Token::Assign, "Assign fehlt"@) {
            Step::Done(p2) => sp_assignment(t, p2),
            f => f,
        },
        f => f,
    }
}

/// `functioncall ::= <ID> "(" ")"`
pub open spec fn sp_function_call(t: Seq<C1Token>, p: int) -> Step {
    match expect(t, p, C1Token::Identifier, "identifier fehlt"@) {
        Step::Done(p1) => match expect(t, p1, C1Token::LeftParenthesis, "Leftparenthesis fehlt"@) {
            Step::Done(p2) => expect(t, p2, C1Token::RightParenthesis, "Rightparenthesis fehlt"@),
            f => f,
        },
        f => f,
    }
}

/// `assignment ::= <ID> "=" assignment | expr`
pub open spec fn sp_assignment(t: Seq<C1Token>, p: int) -> Step
    decreases t.len() - p, 4int,
{
    if is_at(t, p, C1Token::Identifier) && is_at(t, p + 1, C1Token::Assign) {
        sp_assignment(t, p + 2)
    } else {
        sp_expr(t, p)
    }
}

/// `expr ::= simpexpr ( ( "==" | "!=" | "<=" | ">=" | "<" | ">" ) simpexpr )?`
pub open spec fn sp_expr(t: Seq<C1Token>, p: int) -> Step
    decreases t.len() - p, 3int,
{
    match sp_simpexpr(t, p) {
        Step::Done(q) => if is_relational(token_at(t, q)) && fwd(t, p, q) {
            sp_simpexpr(t, q + 1)
        } else {
            Step::Done(q)
        },
        f => f,
    }
}

/// `simpexpr ::= ( "-" )? term ( ( "+" | "-" | "||" ) term )*`
pub open spec fn sp_simpexpr(t: Seq<C1Token>, p: int) -> Step
    decreases t.len() - p, 2int,
{
    let p1 = optional(t, p, C1Token::Minus);
    match sp_term(t, p1) {
        Step::Done(q) => if fwd(t, p, q) {
            sp_simpexpr_rest(t, q)
        } else {
            Step::Done(q)
        },
        f => f,
    }
}

/// `( ( "+" | "-" | "||" ) term )*`
pub open spec fn sp_simpexpr_rest(t: Seq<C1Token>, p: int) -> Step
    decreases t.len() - p, 0int,
{
    if is_additive(token_at(t, p)) {
        match sp_term(t, p + 1) {
            Step::Done(q) => if fwd(t, p + 1, q) {
                sp_simpexpr_rest(t, q)
            } else {
                Step::Done(q)
            },
            f => f,
        }
    } else {
        Step::Done(p)
    }
}

/// `term ::= factor ( ( "*" | "/" | "&&" ) factor )*`
pub open spec fn sp_term(t: Seq<C1Token>, p: int) -> Step
    decreases t.len() - p, 1int,
{
    match sp_factor(t, p) {
        Step::Done(q) => if fwd(t, p, q) {
            sp_term_rest(t, q)
        } else {
            Step::Done(q)
        },
        f => f,
    }
}

/// `( ( "*" | "/" | "&&" ) factor )*`
pub open spec fn sp_term_rest(t: Seq<C1Token>, p: int) -> Step
    decreases t.len() - p, 0int,
{
    if is_multiplicative(token_at(t, p)) {
        match sp_factor(t, p + 1) {
            Step::Done(q) => if fwd(t, p + 1, q) {
                sp_term_rest(t, q)
            } else {
                Step::Done(q)
            },
            f => f,
        }
    } else {
        Step::Done(p)
    }
}

/// `factor ::= <CONST_INT> | <CONST_FLOAT> | <CONST_BOOLEAN> | functioncall
///           | <ID> | "(" assignment ")"`
pub open spec fn sp_factor(t: Seq<C1Token>, p: int) -> Step
    decreases t.len() - p, 0int,
{
    if is_at(t, p, C1Token::LeftParenthesis) {
        match sp_assignment(t, p + 1) {
            Step::Done(q) => if is_at(t, q, C1Token::RightParenthesis) {
                Step::Done(q + 1)
            } else {
                fail_at(q, "assignment in factor wasn't properly closed. Expected )"@)
            },
            f => f,
        }
    } else if is_at(t, p, C1Token::Identifier) && is_at(t, p + 1, C1Token::LeftParenthesis) {
        sp_function_call(t, p)
    } else if is_operand(token_at(t, p)) {
        Step::Done(p + 1)
    } else {
        fail_at(p, "Fehlt"@)
    }
}

} // verus!
