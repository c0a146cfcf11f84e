//! The lexeme vocabulary: one token per comment, identifier, data field,
//! string or numeric literal, newline, single punctuation character or
//! reserved keyword. Multi-character operators are not merged here; the
//! parser recognizes them from adjacent single-character tokens.

use vstd::prelude::*;
use crate::number::YololNumber;

verus! {

/// One lexeme of a source line.
#[derive(Debug, Clone, PartialEq, Eq)]
pub enum Token {
    /// A comment: both leading slashes and everything to the end of line.
    Comment(String),
    /// A local identifier, case-folded, never a reserved keyword.
    Identifier(String),
    /// A data-field identifier: the field marker and the case-folded name.
    DataField(String),
    /// A string literal, without its quotes.
    StringToken(String),
    /// A numeric literal.
    YololNum(YololNumber),
    Newline,
    Equal,
    Plus,
    Minus,
    Star,
    Slash,
    LParen,
    RParen,
    LAngleBrak,
    RAngleBrak,
    Exclam,
    Caret,
    Percent,
    Goto,
    If,
    Then,
    Else,
    End,
    And,
    Or,
    Not,
    Abs,
    Sqrt,
    Sin,
    Cos,
    Tan,
    Arcsin,
    Arccos,
    Arctan,
}

/// The mathematical shape of a token: text fields as character sequences,
/// the numeric literal as its scaled representation.
pub enum TokenV {
    Comment(Seq<char>),
    Identifier(Seq<char>),
    DataField(Seq<char>),
    StringToken(Seq<char>),
    YololNum(int),
    Newline,
    Equal,
    Plus,
    Minus,
    Star,
    Slash,
    LParen,
    RParen,
    LAngleBrak,
    RAngleBrak,
    Exclam,
    Caret,
    Percent,
    Goto,
    If,
    Then,
    Else,
    End,
    And,
    Or,
    Not,
    Abs,
    Sqrt,
    Sin,
    Cos,
    Tan,
    Arcsin,
    Arccos,
    Arctan,
}

impl View for Token {
    type V = TokenV;

    open spec fn view(&self) -> TokenV {
        match self {
            Token::Comment(s) => TokenV::Comment(s@),
            Token::Identifier(s) => TokenV::Identifier(s@),
            Token::DataField(s) => TokenV::DataField(s@),
            Token::StringToken(s) => TokenV::StringToken(s@),
            Token::YololNum(n) => TokenV::YololNum(n@),
            Token::Newline => TokenV::Newline,
            Token::Equal => TokenV::Equal,
            Token::Plus => TokenV::Plus,
            Token::Minus => TokenV::Minus,
            Token::Star => TokenV::Star,
            Token::Slash => TokenV::Slash,
            Token::LParen => TokenV::LParen,
            Token::RParen => TokenV::RParen,
            Token::LAngleBrak => TokenV::LAngleBrak,
            Token::RAngleBrak => TokenV::RAngleBrak,
            Token::Exclam => TokenV::Exclam,
            Token::Caret => TokenV::Caret,
            Token::Percent => TokenV::Percent,
            Token::Goto => TokenV::Goto,
            Token::If => TokenV::If,
            Token::Then => TokenV::Then,
            Token::Else => TokenV::Else,
            Token::End => TokenV::End,
            Token::And => TokenV::And,
            Token::Or => TokenV::Or,
            Token::Not => TokenV::Not,
            Token::Abs => TokenV::Abs,
            Token::Sqrt => TokenV::Sqrt,
            Token::Sin => TokenV::Sin,
            Token::Cos => TokenV::Cos,
            Token::Tan => TokenV::Tan,
            Token::Arcsin => TokenV::Arcsin,
            Token::Arccos => TokenV::Arccos,
            Token::Arctan => TokenV::Arctan,
        }
    }
}

} // verus!
