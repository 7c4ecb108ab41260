//! The C1 parser: a recursive-descent recognizer over the tokens of a source
//! text, one method per nonterminal of the grammar in `grammar`.
use vstd::prelude::*;
use vstd::string::StringExecFns;

use crate::grammar::{
    expect, is_additive, is_at, is_multiplicative, sp_assignment, sp_block, sp_expr, sp_factor,
    sp_function_call, sp_functiondefinition, sp_if_statement, sp_printf, sp_program,
    sp_return_statement, sp_return_type, sp_simpexpr, sp_simpexpr_rest, sp_stat_assignment,
    sp_statement, sp_statement_list, sp_term, sp_term_rest, starts_block, SpecErr, Step,
};
use crate::lexer::{lex, C1Lexer};
use crate::text::{decimal, push_decimal};
use crate::token::{C1Token, TokenData};
use crate::ParseResult;

verus! {

/// The message for `reason` reported at token `p` of the source `src`:
/// the reason with the token's line and text, or with a note that the input
/// had ended.
pub open spec fn message_at(src: Seq<char>, ts: Seq<TokenData>, reason: Seq<char>, p: int) -> Seq<
    char,
> {
    if 0 <= p < ts.len() {
        reason + " at line "@ + decimal(ts[p].line as nat) + " with text: '"@ + src.subrange(
            ts[p].start as int,
            ts[p].end as int,
        ) + "'"@
    } else {
        reason + ". Reached EOF"@
    }
}

/// The text of the error `e` met while parsing the source `src`.
pub open spec fn render(src: Seq<char>, e: SpecErr) -> Seq<char> {
    match e {
        SpecErr::Plain(m) => m,
        SpecErr::At(reason, p) => message_at(src, lex(src), reason, p),
    }
}

/// What a parse of `src` as a whole returns when recognition ends in `s`.
pub open spec fn result_of(src: Seq<char>, s: Step, r: ParseResult) -> bool {
    match s {
        Step::Done(_) => r is Ok,
        Step::Fail(_, e) => r matches Err(m) && m@ == render(src, e),
    }
}

/// A parser: a lexer over the source text, whose current token is the next
/// one to be recognized.
pub struct C1Parser(C1Lexer);

impl C1Parser {
    pub closed spec fn lexer(&self) -> C1Lexer {
        self.0
    }

    pub open spec fn wf(&self) -> bool {
        self.lexer().wf()
    }

    pub open spec fn source(&self) -> Seq<char> {
        self.lexer().source()
    }

    /// The kinds of the tokens of the source.
    pub open spec fn kinds(&self) -> Seq<C1Token> {
        self.lexer().kinds()
    }

    /// The index of the current token.
    pub open spec fn pos(&self) -> int {
        self.lexer().pos()
    }

    /// The state after a recognizing method, started in `before`: same
    /// source and tokens, the position that `s` reaches (which is not behind
    /// the start), and the result that `s` gives.
    pub open spec fn follows(&self, before: C1Parser, s: Step, r: ParseResult) -> bool {
        &&& self.wf()
        &&& self.lexer().source() == before.lexer().source()
        &&& self.lexer().tokens() == before.lexer().tokens()
        &&& before.pos() <= self.pos()
        &&& self.pos() == s.pos()
        &&& result_of(self.source(), s, r)
    }

    /// Parses `text` as a C1 program.
    pub fn parse(text: &str) -> (r: ParseResult)
        ensures
            result_of(text@, sp_program(crate::lexer::token_kinds(lex(text@)), 0), r),
    {
        let mut parser = Self::initialize_parser(text);
        parser.program()
    }

    /// A parser positioned at the first token of `text`.
    pub fn initialize_parser(text: &str) -> (p: C1Parser)
        ensures
            p.wf(),
            p.source() == text@,
            p.kinds() == crate::lexer::token_kinds(lex(text@)),
            p.pos() == 0,
    {
        C1Parser(C1Lexer::new(text))
    }

    /// `program ::= ( functiondefinition )* <EOF>`
    pub fn program(&mut self) -> (r: ParseResult)
        requires
            old(self).wf(),
        ensures
            final(self).follows(*old(self), sp_program(old(self).kinds(), old(self).pos()), r),
    {
        let ghost t = self.kinds();
        let ghost p0 = self.pos();
        while self.0.current_token().is_some()
            invariant
                self.wf(),
                self.lexer().source() == old(self).lexer().source(),
                self.lexer().tokens() == old(self).lexer().tokens(),
                t == old(self).kinds(),
                p0 == old(self).pos(),
                p0 <= self.pos(),
                sp_program(t, self.pos()) == sp_program(t, p0),
            decreases t.len() - self.pos(),
        {
            let r = self.functiondefinition();
            if r.is_err() {
                return r;
            }
        }
        Ok(())
    }

    /// `functiondefinition ::= type <ID> "(" ")" "{" statementlist "}"`,
    /// where a missing identifier, parenthesis or opening brace is passed over.
    pub fn functiondefinition(&mut self) -> (r: ParseResult)
        requires
            old(self).wf(),
        ensures
            final(self).follows(
                *old(self),
                sp_functiondefinition(old(self).kinds(), old(self).pos()),
                r,
            ),
            r is Ok ==> old(self).pos() < final(self).pos(),
    {
        let r = self.return_type();
        if r.is_err() {
            return r;
        }
        let _ = self.check_and_eat_token(&C1Token::Identifier, "kein Identifier");
        let _ = self.check_and_eat_token(&C1Token::LeftParenthesis, "LeftParenthesis fehlt");
        let _ = self.check_and_eat_token(&C1Token::RightParenthesis, "RightParenthesis fehlt");
        let _ = self.check_and_eat_token(&C1Token::LeftBrace, "LeftBrace fehlt");
        let r = self.statement_list();
        if r.is_err() {
            return r;
        }
        self.check_and_eat_token(&C1Token::RightBrace, "RightBrace fehlt")
    }

    /// `type ::= "bool" | "float" | "int" | "void"`
    pub fn return_type(&mut self) -> (r: ParseResult)
        requires
            old(self).wf(),
        ensures
            final(self).follows(*old(self), sp_return_type(old(self).kinds(), old(self).pos()), r),
            r is Ok ==> old(self).pos() < final(self).pos(),
    {
        match self.0.current_token() {
            Some(C1Token::KwBoolean) | Some(C1Token::KwFloat) | Some(C1Token::KwInt) | Some(
                C1Token::KwVoid,
            ) => {
                self.0.eat();
                Ok(())
            },
            _ => Err(self.error_message_current("Fehler")),
        }
    }

    /// `statementlist ::= ( block )*`, ending at the first token that cannot
    /// start a block.
    pub fn statement_list(&mut self) -> (r: ParseResult)
        requires
            old(self).wf(),
        ensures
            final(self).follows(
                *old(self),
                sp_statement_list(old(self).kinds(), old(self).pos()),
                r,
            ),
        decreases old(self).kinds().len() - old(self).pos(), 8int,
    {
        let ghost t = self.kinds();
        let ghost p0 = self.pos();
        while starts_block_token(self.0.current_token())
            invariant
                self.wf(),
                self.lexer().source() == old(self).lexer().source(),
                self.lexer().tokens() == old(self).lexer().tokens(),
                t == old(self).kinds(),
                p0 == old(self).pos(),
                p0 <= self.pos(),
                sp_statement_list(t, self.pos()) == sp_statement_list(t, p0),
            decreases t.len() - self.pos(),
        {
            let r = self.block();
            if r.is_err() {
                return r;
            }
        }
        Ok(())
    }

    /// `block ::= "{" statementlist "}" | statement`
    pub fn block(&mut self) -> (r: ParseResult)
        requires
            old(self).wf(),
        ensures
            final(self).follows(*old(self), sp_block(old(self).kinds(), old(self).pos()), r),
            r is Ok ==> old(self).pos() < final(self).pos(),
        decreases old(self).kinds().len() - old(self).pos(), 7int,
    {
        if self.current_matches(&C1Token::LeftBrace) {
            self.0.eat();
            let r = self.statement_list();
            if r.is_err() {
                return r;
            }
            self.check_and_eat_token(&C1Token::RightBrace, "RightBrace fehlt")
        } else {
            self.statement()
        }
    }

    /// `statement ::= ifstatement | returnstatement ";" | printf ";"
    ///              | functioncall ";" | statassignment ";"`
    pub fn statement(&mut self) -> (r: ParseResult)
        requires
            old(self).wf(),
        ensures
            final(self).follows(*old(self), sp_statement(old(self).kinds(), old(self).pos()), r),
            r is Ok ==> old(self).pos() < final(self).pos(),
        decreases old(self).kinds().len() - old(self).pos(), 6int,
    {
        match self.0.current_token() {
            Some(C1Token::KwIf) => self.if_statement(),
            Some(C1Token::KwReturn) => {
                let r = self.return_statement();
                if r.is_err() {
                    return r;
                }
                self.check_and_eat_token(&C1Token::Semicolon, "Semicolon fehlt")
            },
            Some(C1Token::KwPrintf) => {
                let r = self.printf();
                if r.is_err() {
                    return r;
                }
                self.check_and_eat_token(&C1Token::Semicolon, "Semicolon fehlt")
            },
            Some(C1Token::Identifier) => {
                if self.next_matches(&C1Token::LeftParenthesis) {
                    let r = self.function_call();
                    if r.is_err() {
                        return r;
                    }
                    self.check_and_eat_token(&C1Token::Semicolon, "Semicolon fehlt")
                } else if self.next_matches(&C1Token::Assign) {
                    let r = self.stat_assignment();
                    if r.is_err() {
                        return r;
                    }
                    self.check_and_eat_token(&C1Token::Semicolon, "Semicolon fehlt")
                } else {
                    Err(self.error_message_current("fehler"))
                }
            },
            _ => Err(self.error_message_current("Fehler")),
        }
    }

    /// `ifstatement ::= "if" "(" assignment ")" block`
    pub fn if_statement(&mut self) -> (r: ParseResult)
        requires
            old(self).wf(),
        ensures
            final(self).follows(*old(self), sp_if_statement(old(self).kinds(), old(self).pos()), r),
            r is Ok ==> old(self).pos() < final(self).pos(),
        decreases old(self).kinds().len() - old(self).pos(), 5int,
    {
        let r = self.check_and_eat_token(&C1Token::KwIf, "KWif fehlt");
        if r.is_err() {
            return r;
        }
        let r = self.check_and_eat_token(&C1Token::LeftParenthesis, "LeftParenthesis fehlt");
        if r.is_err() {
            return r;
        }
        let r = self.assignment();
        if r.is_err() {
            return r;
        }
        let r = self.check_and_eat_token(&C1Token::RightParenthesis, "Right parenthesiss fehlt");
        if r.is_err() {
            return r;
        }
        self.block()
    }

    /// `returnstatement ::= "return" ( assignment )?`
    pub fn return_statement(&mut self) -> (r: ParseResult)
        requires
            old(self).wf(),
        ensures
            final(self).follows(
                *old(self),
                sp_return_statement(old(self).kinds(), old(self).pos()),
                r,
            ),
            r is Ok ==> old(self).pos() < final(self).pos(),
        decreases old(self).kinds().len() - old(self).pos(), 5int,
    {
        let r = self.check_and_eat_token(&C1Token::KwReturn, "Kwreturn fehlt");
        if r.is_err() {
            return r;
        }
        if self.current_matches(&C1Token::Semicolon) {
            Ok(())
        } else {
            self.assignment()
        }
    }

    /// `printf ::= "printf" "(" assignment ")"`
    pub fn printf(&mut self) -> (r: ParseResult)
        requires
            old(self).wf(),
        ensures
            final(self).follows(*old(self), sp_printf(old(self).kinds(), old(self).pos()), r),
            r is Ok ==> old(self).pos() < final(self).pos(),
        decreases old(self).kinds().len() - old(self).pos(), 5int,
    {
        let r = self.check_and_eat_token(&C1Token::KwPrintf, "KwPrintf fehlt");
        if r.is_err() {
            return r;
        }
        let r = self.check_and_eat_token(&C1Token::LeftParenthesis, "Leftparenthesis fehlt");
        if r.is_err() {
            return r;
        }
        let r = self.assignment();
        if r.is_err() {
            return r;
        }
        self.check_and_eat_token(&C1Token::RightParenthesis, "Rightparenthesis fehlt")
    }

    /// `statassignment ::= <ID> "=" assignment`
    pub fn stat_assignment(&mut self) -> (r: ParseResult)
        requires
            old(self).wf(),
        ensures
            final(self).follows(
                *old(self),
                sp_stat_assignment(old(self).kinds(), old(self).pos()),
                r,
            ),
            r is Ok ==> old(self).pos() < final(self).pos(),
        decreases old(self).kinds().len() - old(self).pos(), 5int,
    {
        let r = self.check_and_eat_token(&C1Token::Identifier, "identifier fehlt");
        if r.is_err() {
            return r;
        }
        let r = self.check_and_eat_token(&C1Token::Assign, "Assign fehlt");
        if r.is_err() {
            return r;
        }
        self.assignment()
    }

    /// `functioncall ::= <ID> "(" ")"`
    pub fn function_call(&mut self) -> (r: ParseResult)
        requires
            old(self).wf(),
        ensures
            final(self).follows(*old(self), sp_function_call(old(self).kinds(), old(self).pos()), r),
            r is Ok ==> old(self).pos() < final(self).pos(),
    {
        let r = self.check_and_eat_token(&C1Token::Identifier, "identifier fehlt");
        if r.is_err() {
            return r;
        }
        let r = self.check_and_eat_token(&C1Token::LeftParenthesis, "Leftparenthesis fehlt");
        if r.is_err() {
            return r;
        }
        self.check_and_eat_token(&C1Token::RightParenthesis, "Rightparenthesis fehlt")
    }

    /// `assignment ::= <ID> "=" assignment | expr`
    pub fn assignment(&mut self) -> (r: ParseResult)
        requires
            old(self).wf(),
        ensures
            final(self).follows(*old(self), sp_assignment(old(self).kinds(), old(self).pos()), r),
        decreases old(self).kinds().len() - old(self).pos(), 4int,
    {
        if self.current_matches(&C1Token::Identifier) && self.next_matches(&C1Token::Assign) {
            self.0.eat();
            self.0.eat();
            self.assignment()
        } else {
            self.expr()
        }
    }

    /// `expr ::= simpexpr ( ( "==" | "!=" | "<=" | ">=" | "<" | ">" ) simpexpr )?`
    pub fn expr(&mut self) -> (r: ParseResult)
        requires
            old(self).wf(),
        ensures
            final(self).follows(*old(self), sp_expr(old(self).kinds(), old(self).pos()), r),
        decreases old(self).kinds().len() - old(self).pos(), 3int,
    {
        let r = self.simpexpr();
        if r.is_err() {
            return r;
        }
        if self.current_matches(&C1Token::Equal) || self.current_matches(&C1Token::NotEqual)
            || self.current_matches(&C1Token::LessEqual) || self.current_matches(
            &C1Token::GreaterEqual,
        ) || self.current_matches(&C1Token::Less) || self.current_matches(&C1Token::Greater) {
            self.0.eat();
            self.simpexpr()
        } else {
            Ok(())
        }
    }

    /// `simpexpr ::= ( "-" )? term ( ( "+" | "-" | "||" ) term )*`
    pub fn simpexpr(&mut self) -> (r: ParseResult)
        requires
            old(self).wf(),
        ensures
            final(self).follows(*old(self), sp_simpexpr(old(self).kinds(), old(self).pos()), r),
        decreases old(self).kinds().len() - old(self).pos(), 2int,
    {
        let ghost t = self.kinds();
        let ghost p0 = self.pos();
        if self.current_matches(&C1Token::Minus) {
            self.0.eat();
        }
        let r = self.term();
        if r.is_err() {
            return r;
        }
        while is_additive_token(self.0.current_token())
            invariant
                self.wf(),
                self.lexer().source() == old(self).lexer().source(),
                self.lexer().tokens() == old(self).lexer().tokens(),
                t == old(self).kinds(),
                p0 == old(self).pos(),
                p0 <= self.pos(),
                sp_simpexpr_rest(t, self.pos()) == sp_simpexpr(t, p0),
            decreases t.len() - self.pos(),
        {
            self.0.eat();
            let r = self.term();
            if r.is_err() {
                return r;
            }
        }
        Ok(())
    }

    /// `term ::= factor ( ( "*" | "/" | "&&" ) factor )*`
    pub fn term(&mut self) -> (r: ParseResult)
        requires
            old(self).wf(),
        ensures
            final(self).follows(*old(self), sp_term(old(self).kinds(), old(self).pos()), r),
        decreases old(self).kinds().len() - old(self).pos(), 1int,
    {
        let ghost t = self.kinds();
        let ghost p0 = self.pos();
        let r = self.factor();
        if r.is_err() {
            return r;
        }
        while is_multiplicative_token(self.0.current_token())
            invariant
                self.wf(),
                self.lexer().source() == old(self).lexer().source(),
                self.lexer().tokens() == old(self).lexer().tokens(),
                t == old(self).kinds(),
                p0 == old(self).pos(),
                p0 <= self.pos(),
                sp_term_rest(t, self.pos()) == sp_term(t, p0),
            decreases t.len() - self.pos(),
        {
            self.0.eat();
            let r = self.factor();
            if r.is_err() {
                return r;
            }
        }
        Ok(())
    }

    /// `factor ::= <CONST_INT> | <CONST_FLOAT> | <CONST_BOOLEAN> | functioncall
    ///           | <ID> | "(" assignment ")"`
    pub fn factor(&mut self) -> (r: ParseResult)
        requires
            old(self).wf(),
        ensures
            final(self).follows(*old(self), sp_factor(old(self).kinds(), old(self).pos()), r),
        decreases old(self).kinds().len() - old(self).pos(), 0int,
    {
        if self.current_matches(&C1Token::LeftParenthesis) {
            self.0.eat();
            let r = self.assignment();
            if r.is_err() {
                return r;
            }
            let msg = self.error_message_current(
                "assignment in factor wasn't properly closed. Expected )",
            );
            self.check_and_eat_token(&C1Token::RightParenthesis, msg.as_str())
        } else if self.current_matches(&C1Token::Identifier) && self.next_matches(
            &C1Token::LeftParenthesis,
        ) {
            self.function_call()
        } else if self.current_matches(&C1Token::Identifier) || self.current_matches(
            &C1Token::ConstBoolean,
        ) || self.current_matches(&C1Token::ConstFloat) || self.current_matches(
            &C1Token::ConstInt,
        ) {
            self.0.eat();
            Ok(())
        } else {
            Err(self.error_message_current("Fehlt"))
        }
    }

    /// Eats the current token if it is of kind `token`; fails with
    /// `error_message` otherwise.
    pub fn check_and_eat_token(&mut self, token: &C1Token, error_message: &str) -> (r:
        ParseResult)
        requires
            old(self).wf(),
        ensures
            final(self).follows(
                *old(self),
                expect(old(self).kinds(), old(self).pos(), *token, error_message@),
                r,
            ),
    {
        if self.current_matches(token) {
            self.0.eat();
            Ok(())
        } else {
            Err(error_message.to_owned())
        }
    }

    /// Whether the current token is of kind `token`.
    pub fn current_matches(&self, token: &C1Token) -> (b: bool)
        requires
            self.wf(),
        ensures
            b == is_at(self.kinds(), self.pos(), *token),
    {
        match self.0.current_token() {
            None => false,
            Some(current) => current == *token,
        }
    }

    /// Whether the token after the current one is of kind `token`.
    pub fn next_matches(&self, token: &C1Token) -> (b: bool)
        requires
            self.wf(),
        ensures
            b == is_at(self.kinds(), self.pos() + 1, *token),
    {
        match self.0.peek_token() {
            None => false,
            Some(next) => next == *token,
        }
    }

    /// The message that reports `reason` at the current token.
    pub fn error_message_current(&self, reason: &str) -> (m: String)
        requires
            self.wf(),
        ensures
            m@ == message_at(self.source(), self.lexer().tokens(), reason@, self.pos()),
    {
        let mut m = reason.to_owned();
        match self.0.current_line_number() {
            None => {
                m.append(". Reached EOF");
            },
            Some(line) => {
                m.append(" at line ");
                push_decimal(&mut m, line);
                m.append(" with text: '");
                self.0.push_current_text(&mut m);
                m.append("'");
            },
        }
        m
    }
}

fn starts_block_token(o: Option<C1Token>) -> (b: bool)
    ensures
        b == starts_block(o),
{
    match o {
        Some(C1Token::LeftBrace) | Some(C1Token::KwIf) | Some(C1Token::KwReturn) | Some(
            C1Token::KwPrintf,
        ) | Some(C1Token::Identifier) => true,
        _ => false,
    }
}

fn is_additive_token(o: Option<C1Token>) -> (b: bool)
    ensures
        b == is_additive(o),
{
    match o {
        Some(C1Token::Plus) | Some(C1Token::Minus) | Some(C1Token::Or) => true,
        _ => false,
    }
}

fn is_multiplicative_token(o: Option<C1Token>) -> (b: bool)
    ensures
        b == is_multiplicative(o),
{
    match o {
        Some(C1Token::Asterisk) | Some(C1Token::Slash) | Some(C1Token::And) => true,
        _ => false,
    }
}

} // verus!
