//! Tokenizing and parsing of plain English commands into structured intents.

pub mod parser;
pub mod sentences;
pub mod tokenizer;

pub use parser::{ParseError, ParseErrorView, Parser};
pub use tokenizer::{Token, TokenView, Tokenizer};
