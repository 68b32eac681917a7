//! Error taxonomy of the configuration front end: lexical errors and the
//! parser-level errors that wrap them.

use super::Position;
use vstd::prelude::*;

verus! {

/// An error found while tokenizing the configuration file.
#[derive(Debug, PartialEq, Clone)]
pub enum LexerError {
    /// Neither a symbol character nor a word character.
    UnknowChar(char),
    /// A not closed file path or literal string.
    StringWithoutEnd,
    /// Half of a default generator symbol (just one `?`).
    HalfDefaultGenerator,
    /// An unknown system variable.
    UnknowSystem(String),
    /// Double dollar, unknown token.
    DoubleDollard,
    /// A dollar at end of the configuration file, where a literal string or a
    /// system variable was expected.
    DollardAtEOF,
}

/// Ghost shape of a [`LexerError`], with string payloads as character
/// sequences.
pub ghost enum LexerErrorV {
    UnknowChar(char),
    StringWithoutEnd,
    HalfDefaultGenerator,
    UnknowSystem(Seq<char>),
    DoubleDollard,
    DollardAtEOF,
}

impl View for LexerError {
    type V = LexerErrorV;

    open spec fn view(&self) -> LexerErrorV {
        match self {
            LexerError::UnknowChar(c) => LexerErrorV::UnknowChar(*c),
            LexerError::StringWithoutEnd => LexerErrorV::StringWithoutEnd,
            LexerError::HalfDefaultGenerator => LexerErrorV::HalfDefaultGenerator,
            LexerError::UnknowSystem(s) => LexerErrorV::UnknowSystem(s@),
            LexerError::DoubleDollard => LexerErrorV::DoubleDollard,
            LexerError::DollardAtEOF => LexerErrorV::DollardAtEOF,
        }
    }
}

/// Low level error from configuration parsing.
#[derive(Debug, PartialEq)]
pub enum ConfigurationError {
    /// The version was not found in the configuration file.
    VersionNotFound,
    /// The version found in the configuration file is unknown.
    VersionUnknown(String),
    /// An error occurred while tokenizing the configuration file.
    Lexer(Position, LexerError),
    /// A statement name was expected after `tag` or `gen`.
    ParserExpectedStatementName(Position, String),
    /// The parser can not build a generator from this token.
    ParserWrongGeneratorToken(Position, String),
    /// The parser can not read a generator name from this token.
    ParserGeneratorNameToken(Position, String),
    /// The parsing of this statement did not end.
    UnexpectedStatementEnd(Position),
    /// An unexpected token during parsing, with a description of the token
    /// and the grammar operation being attempted.
    UnexpectedToken(Position, String, String),
    /// Unexpected end of input while parsing a statement.
    UnexpectedEnd,
    /// Unescape of a string failed, with the offending character and the
    /// output built so far.
    UnescapeFail(Position, char, String),
}

} // verus!
