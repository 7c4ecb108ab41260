//! A recognizer for the C1 teaching language: a lexer that turns source text
//! into tokens, and a recursive-descent parser that checks the token stream
//! against the C1 grammar.
use vstd::prelude::*;

pub mod bounds;
pub mod error_laws;
pub mod grammar;
pub mod laws;
pub mod lexer;
pub mod lexer_laws;
pub mod parser;
pub mod rules;
pub mod text;
pub mod token;
pub mod window;

verus! {

/// What every parsing routine returns: `Ok(())` when its part of the grammar
/// was recognized, or an error message.
pub type ParseResult = Result<(), String>;

} // verus!
