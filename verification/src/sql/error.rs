use vstd::prelude::*;

verus! {

/// Errors in reading a keyword, a literal or a symbol out of its text.
#[derive(Debug, Clone, PartialEq, Eq)]
pub enum ParseError {
    InvalidKeyword(String),
    InvalidLiteralString(String),
    InvalidLiteralNumber(String),
    InvalidSymbol(String),
}

/// The mathematical value of a [`ParseError`].
pub enum SpecParseError {
    InvalidKeyword(Seq<char>),
    InvalidLiteralString(Seq<char>),
    InvalidLiteralNumber(Seq<char>),
    InvalidSymbol(Seq<char>),
}

impl View for ParseError {
    type V = SpecParseError;

    open spec fn view(&self) -> SpecParseError {
        match self {
            ParseError::InvalidKeyword(s) => SpecParseError::InvalidKeyword(s@),
            ParseError::InvalidLiteralString(s) => SpecParseError::InvalidLiteralString(s@),
            ParseError::InvalidLiteralNumber(s) => SpecParseError::InvalidLiteralNumber(s@),
            ParseError::InvalidSymbol(s) => SpecParseError::InvalidSymbol(s@),
        }
    }
}

} // verus!
