//! The error type of the library.
use vstd::prelude::*;

use crate::sql::error::{ParseError, SpecParseError};
use crate::sql::token::{SpecToken, Token};

verus! {

/// Everything that can go wrong while reading, planning or optimizing a query.
#[derive(Debug, Clone, PartialEq, Eq)]
pub enum Error {
    /// A keyword, literal or symbol could not be read from its text.
    Parse(ParseError),
    /// The bytes between two offsets of the input are not UTF-8.
    InvalidUtf8 { start: usize, end: usize },
    /// A quoted string has no closing quote; holds the text from the quote on.
    UnterminatedString(String),
    /// The token stream ran out.
    NoRemainingTokens,
    /// Another token stood where a given one was expected.
    UnexpectedToken { expected: Token, found: Token },
    /// No table name follows `FROM`.
    ExpectedTableName,
    /// What follows `AS` is not an identifier.
    ExpectedAliasIdentifier,
    /// What stands before `(` is not a function name.
    ExpectedFunction,
    /// `CAST( .. )` holds no `AS` type.
    CastWithoutType,
    /// The statement is not a `SELECT`.
    NotASelect,
    /// No table of that name is registered.
    NoSuchTable(String),
    /// An aggregate function was called without an argument.
    MissingArgument(String),
    /// An alias in an aggregate query wraps an aggregate expression.
    AliasWrapsAggregate,
    /// No binary operator has this text.
    InvalidBinaryOp(String),
    /// A `CAST` names a type that is not supported.
    UnsupportedCastType(String),
    /// No field of the schema has this name.
    FieldNotFound(String),
    /// A column index is past the last field of the schema.
    ColumnIndexOutOfRange(usize),
    /// The schema of a file data source has not been read yet.
    SchemaUnavailable(String),
    /// An aggregate function that the physical planner does not know.
    UnsupportedAggregate(String),
    /// An aggregate list holds an expression that is not an aggregate.
    InvalidAggregateExpr,
    /// The two sides of a binary expression have different data types.
    DataTypeMismatch,
    /// A construct that the engine does not handle.
    Unsupported,
}

pub enum SpecError {
    Parse(SpecParseError),
    InvalidUtf8 { start: usize, end: usize },
    UnterminatedString(Seq<char>),
    NoRemainingTokens,
    UnexpectedToken { expected: SpecToken, found: SpecToken },
    ExpectedTableName,
    ExpectedAliasIdentifier,
    ExpectedFunction,
    CastWithoutType,
    NotASelect,
    NoSuchTable(Seq<char>),
    MissingArgument(Seq<char>),
    AliasWrapsAggregate,
    InvalidBinaryOp(Seq<char>),
    UnsupportedCastType(Seq<char>),
    FieldNotFound(Seq<char>),
    ColumnIndexOutOfRange(usize),
    SchemaUnavailable(Seq<char>),
    UnsupportedAggregate(Seq<char>),
    InvalidAggregateExpr,
    DataTypeMismatch,
    Unsupported,
}

impl View for Error {
    type V = SpecError;

    open spec fn view(&self) -> SpecError {
        match self {
            Error::Parse(e) => SpecError::Parse(e@),
            Error::InvalidUtf8 { start, end } => SpecError::InvalidUtf8 { start: *start, end: *end },
            Error::UnterminatedString(s) => SpecError::UnterminatedString(s@),
            Error::NoRemainingTokens => SpecError::NoRemainingTokens,
            Error::UnexpectedToken { expected, found } => SpecError::UnexpectedToken {
                expected: expected@,
                found: found@,
            },
            Error::ExpectedTableName => SpecError::ExpectedTableName,
            Error::ExpectedAliasIdentifier => SpecError::ExpectedAliasIdentifier,
            Error::ExpectedFunction => SpecError::ExpectedFunction,
            Error::CastWithoutType => SpecError::CastWithoutType,
            Error::NotASelect => SpecError::NotASelect,
            Error::NoSuchTable(s) => SpecError::NoSuchTable(s@),
            Error::MissingArgument(s) => SpecError::MissingArgument(s@),
            Error::AliasWrapsAggregate => SpecError::AliasWrapsAggregate,
            Error::InvalidBinaryOp(s) => SpecError::InvalidBinaryOp(s@),
            Error::UnsupportedCastType(s) => SpecError::UnsupportedCastType(s@),
            Error::FieldNotFound(s) => SpecError::FieldNotFound(s@),
            Error::ColumnIndexOutOfRange(i) => SpecError::ColumnIndexOutOfRange(*i),
            Error::SchemaUnavailable(s) => SpecError::SchemaUnavailable(s@),
            Error::UnsupportedAggregate(s) => SpecError::UnsupportedAggregate(s@),
            Error::InvalidAggregateExpr => SpecError::InvalidAggregateExpr,
            Error::DataTypeMismatch => SpecError::DataTypeMismatch,
            Error::Unsupported => SpecError::Unsupported,
        }
    }
}

/// The mathematical value of a result.
pub open spec fn result_view<T: View>(r: Result<T, Error>) -> Result<T::V, SpecError> {
    match r {
        Ok(v) => Ok(v@),
        Err(e) => Err(e@),
    }
}

} // verus!
