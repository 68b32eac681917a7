//! Early revision of the configuration grammar: the first word scanners, the
//! full state-machine lexer and the statement parser they fed.

pub mod error;
pub mod lexer;
pub mod parser;
pub mod simple;
pub mod statement;
pub mod words;

pub use crate::char_iter::Position;
pub use error::ConfigurationError;
