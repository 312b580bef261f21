//! From source text to syntax tree: the lexer followed by the parser.
use vstd::prelude::*;

use crate::ast::{Program, SpecProgram};
use crate::grammar::{program_rule, SpecParseError};
use crate::lexer::{law_lex_ends_with_eof, lex, tokenize, tokens_view, LexError, SpecLexError};
use crate::parser::{parse, ParseError};

verus! {

/// An error of the lexer or of the parser.
#[derive(Debug)]
pub enum SourceError {
    Lex(LexError),
    Parse(ParseError),
}

/// The mathematical model of a source error.
pub enum SpecSourceError {
    Lex(SpecLexError),
    Parse(SpecParseError),
}

impl View for SourceError {
    type V = SpecSourceError;

    open spec fn view(&self) -> SpecSourceError {
        match self {
            SourceError::Lex(e) => SpecSourceError::Lex(e@),
            SourceError::Parse(e) => SpecSourceError::Parse(e@),
        }
    }
}

/// The program that a text reads as: its tokens, read by the grammar.
pub open spec fn read_program(cs: Seq<char>) -> Result<SpecProgram, SpecSourceError> {
    match lex(cs) {
        Ok(ts) => match program_rule(ts) {
            Ok(p) => Ok(p),
            Err(e) => Err(SpecSourceError::Parse(e)),
        },
        Err(e) => Err(SpecSourceError::Lex(e)),
    }
}

/// Splits `source` into tokens and parses them as a program.
pub fn parse_source(source: &str) -> (r: Result<Program, SourceError>)
    requires
        source@.len() + 4 <= usize::MAX,
    ensures
        read_program(source@) == match r {
            Ok(p) => Ok(p@),
            Err(e) => Err(e@),
        },
{
    let tokens = match tokenize(source) {
        Ok(tokens) => tokens,
        Err(e) => return Err(SourceError::Lex(e)),
    };
    proof {
        law_lex_ends_with_eof(source@);
        assert(tokens_view(tokens@).last() == tokens@.last()@);
    }
    match parse(tokens) {
        Ok(p) => Ok(p),
        Err(e) => Err(SourceError::Parse(e)),
    }
}

} // verus!
