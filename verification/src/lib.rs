//! A lexical scanner for a small C-like scripting language.
//!
//! The scanner is stateless: each call takes the source text from the
//! caller's current position and returns the next classified token together
//! with how many characters it consumed, trivia (whitespace and line
//! comments) included. The caller keeps the cursor and advances it by the
//! reported count.

pub mod chars;
pub mod scan;
pub mod token;
pub mod trivia;

pub use token::LexError;
pub use token::SpecToken;
pub use token::TokenKind;
pub use trivia::skip;
pub use trivia::skip_comment;
pub use trivia::skip_whitespace;
pub use scan::next_token;
pub use scan::tokenize_identifier;
pub use scan::tokenize_number;
