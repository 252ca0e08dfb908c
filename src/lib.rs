use vstd::prelude::*;

pub mod ast;
pub mod tokens;
pub mod lexer;
pub mod parser;
pub mod value;
pub mod engine;
pub mod theorems;

use crate::ast::{Statement, stmts_view};
use crate::lexer::{LexError, tokenize, tokenize_spec};
use crate::parser::{ParseError, parse_spec, parse_tokens};

verus! {

/// Why a source text is not a program.
#[derive(Clone, Copy, Debug, PartialEq, Eq, Structural)]
pub enum FrontError {
    Lex(LexError),
    Parse(ParseError),
}

/// The program that a source text spells: its tokens, then its statements.
pub fn parse_source(source: Vec<char>) -> (r: Result<Vec<Statement>, FrontError>)
    requires
        source@.len() < usize::MAX,
    ensures
        match tokenize_spec(source@) {
            Err(e) => r == Err::<Vec<Statement>, FrontError>(FrontError::Lex(e)),
            Ok(ts) => match parse_spec(ts) {
                Err(e) => r == Err::<Vec<Statement>, FrontError>(FrontError::Parse(e)),
                Ok(b) => r is Ok && stmts_view(r->Ok_0@) == b,
            },
        },
{
    match tokenize(source) {
        Err(e) => Err(FrontError::Lex(e)),
        Ok(tokens) => match parse_tokens(tokens) {
            Err(e) => Err(FrontError::Parse(e)),
            Ok(b) => Ok(b),
        },
    }
}

} // verus!
