//! The token type produced by the scanner, its spec-level abstraction, and
//! the scanner's fatal error type.

use vstd::prelude::*;

verus! {

/// A classified token. Payload-bearing variants own their text.
///
/// `Number` carries the literal text of the numeric lexeme (digits, an
/// optional decimal point, more digits); a caller that needs the numeric
/// value parses that text into a float. `Error` signals malformed input on
/// the identifier path; it is an ordinary token, not a failure of the
/// scanner itself.
#[derive(Debug, PartialEq)]
pub enum TokenKind {
    Class,
    Else,
    False,
    For,
    If,
    Nil,
    Return,
    True,
    Var,
    While,
    Equal,
    EqualEqual,
    Bang,
    BangEqual,
    Less,
    LessEqual,
    Greater,
    GreaterEqual,
    Number(String),
    Identifier(String),
    Plus,
    Minus,
    Semicolon,
    Comma,
    OpenParenthesis,
    CloseParenthesis,
    EndOfFile,
    Error(String),
}

/// The spec-level abstraction of a token: the same variants, with every
/// owned text replaced by its sequence of characters.
pub enum SpecToken {
    Class,
    Else,
    False,
    For,
    If,
    Nil,
    Return,
    True,
    Var,
    While,
    Equal,
    EqualEqual,
    Bang,
    BangEqual,
    Less,
    LessEqual,
    Greater,
    GreaterEqual,
    Number(Seq<char>),
    Identifier(Seq<char>),
    Plus,
    Minus,
    Semicolon,
    Comma,
    OpenParenthesis,
    CloseParenthesis,
    EndOfFile,
    Error(Seq<char>),
}

impl View for TokenKind {
    type V = SpecToken;

    open spec fn view(&self) -> SpecToken {
        match self {
            TokenKind::Class => SpecToken::Class,
            TokenKind::Else => SpecToken::Else,
            TokenKind::False => SpecToken::False,
            TokenKind::For => SpecToken::For,
            TokenKind::If => SpecToken::If,
            TokenKind::Nil => SpecToken::Nil,
            TokenKind::Return => SpecToken::Return,
            TokenKind::True => SpecToken::True,
            TokenKind::Var => SpecToken::Var,
            TokenKind::While => SpecToken::While,
            TokenKind::Equal => SpecToken::Equal,
            TokenKind::EqualEqual => SpecToken::EqualEqual,
            TokenKind::Bang => SpecToken::Bang,
            TokenKind::BangEqual => SpecToken::BangEqual,
            TokenKind::Less => SpecToken::Less,
            TokenKind::LessEqual => SpecToken::LessEqual,
            TokenKind::Greater => SpecToken::Greater,
            TokenKind::GreaterEqual => SpecToken::GreaterEqual,
            TokenKind::Number(t) => SpecToken::Number(t@),
            TokenKind::Identifier(t) => SpecToken::Identifier(t@),
            TokenKind::Plus => SpecToken::Plus,
            TokenKind::Minus => SpecToken::Minus,
            TokenKind::Semicolon => SpecToken::Semicolon,
            TokenKind::Comma => SpecToken::Comma,
            TokenKind::OpenParenthesis => SpecToken::OpenParenthesis,
            TokenKind::CloseParenthesis => SpecToken::CloseParenthesis,
            TokenKind::EndOfFile => SpecToken::EndOfFile,
            TokenKind::Error(t) => SpecToken::Error(t@),
        }
    }
}

/// The scanner's one fatal failure: the numeric-literal path was entered but
/// the scanned text held no digit at all, so no float value and no safe
/// length to advance by exist. Unlike the `Error` token, this aborts the
/// call.
#[derive(Debug, Clone, Copy, PartialEq, Eq, Structural)]
pub enum LexError {
    InvalidNumber,
}

} // verus!
