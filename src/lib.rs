//! Cursor-based lexical primitives over an in-memory character sequence:
//! words, quoted strings, bracketed spans, numeric literals, symbols and
//! literal matches, each of which either commits what it read or leaves the
//! cursor where it was.
pub mod chars;
pub mod cursor;
pub mod error;
pub mod grammar;
pub mod number;
pub mod parser;

pub use cursor::{Cursor, StrParser};
pub use error::{ErrorKind, ParseError};
pub use parser::CommonParserFunctions;
