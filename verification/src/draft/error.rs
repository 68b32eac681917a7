//! Error taxonomy of the early grammar revision.

use crate::char_iter::Position;
use crate::configuration::LexerError;
use vstd::prelude::*;

verus! {

/// Low level error from configuration parsing, early revision.
#[derive(Debug, PartialEq)]
pub enum ConfigurationError {
    /// The version was not found in the configuration file.
    VersionNotFound,
    /// The version found in the configuration file is unknown.
    VersionUnknown(String),
    /// An error occurred while tokenizing the configuration file.
    Lexer(Position, LexerError),
    /// A tag name was expected after the `tag` keyword.
    ParserExpectedTagName(Position),
    /// The parser can not build a generator from this token.
    ParserWrongGeneratorToken(Position, String),
    /// The parser can not read a generator name from this token.
    ParserGeneratorNameToken(Position, String),
    /// The parsing of this statement did not end.
    UnexpectedStatementEnd(Position),
    /// An unexpected token during parsing, with a description of the token
    /// and the grammar operation being attempted.
    UnexpectedToken(Position, String, String),
    /// Unexpected end of input while parsing a statement.
    UnexpectedEnd,
}

} // verus!
