//! Current revision of the configuration grammar: lexer, escaper,
//! recursive-descent parser and the resolved object tree.

pub mod blob;
pub mod error;
pub mod escape;
pub mod generator;
pub mod grammar;
pub mod lexer;
pub mod parser;
pub mod statement;
pub mod tree;
pub mod version;

pub use crate::char_iter::Position;
pub use error::ConfigurationError;
pub use error::LexerError;
