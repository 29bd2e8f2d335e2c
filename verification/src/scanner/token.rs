//! The token model: pure data produced by the scanner.
//!
//! A token is a classified unit of source text: a kind, the exact source
//! slice it was read from (its lexeme), the 1-based line where it started,
//! and, for number and string tokens only, a decoded literal payload.

use vstd::prelude::*;

verus! {

/// The closed set of token categories: single-character punctuation,
/// one- and two-character operators, the three literal-bearing kinds,
/// the sixteen fixed keywords, and the terminal end-of-input marker.
#[derive(Clone, Copy, Debug, PartialEq, Eq, Structural)]
pub enum TokenType {
    LeftParen,
    RightParen,
    LeftBrace,
    RightBrace,
    Comma,
    Dot,
    Minus,
    Plus,
    SemiColon,
    Slash,
    Star,
    Bang,
    BangEqual,
    Equal,
    EqualEqual,
    Greater,
    GreaterEqual,
    Less,
    LessEqual,
    Identifier,
    Str,
    Number,
    And,
    Class,
    Else,
    False,
    For,
    Fun,
    If,
    Nil,
    Or,
    Print,
    Return,
    Super,
    This,
    True,
    Var,
    While,
    Eof,
}

/// The decoded payload of a literal token, and the value carried by a
/// literal expression node.
///
/// A number literal holds its value as canonical decimal text (no leading
/// zeros in the integer part, no trailing zeros in the fraction, no bare
/// dot); decoding that text into a machine float is left to unverified
/// callers, since the scanner itself never computes with the value.
#[derive(Clone, Debug, PartialEq, Eq)]
pub enum Literal {
    Nil,
    True,
    False,
    Number(Vec<char>),
    Str(Vec<char>),
}

/// The mathematical image of a `Literal`: text fields become sequences.
pub enum SpecLiteral {
    Nil,
    True,
    False,
    Number(Seq<char>),
    Str(Seq<char>),
}

impl DeepView for Literal {
    type V = SpecLiteral;

    open spec fn deep_view(&self) -> SpecLiteral {
        match self {
            Literal::Nil => SpecLiteral::Nil,
            Literal::True => SpecLiteral::True,
            Literal::False => SpecLiteral::False,
            Literal::Number(d) => SpecLiteral::Number(d@),
            Literal::Str(s) => SpecLiteral::Str(s@),
        }
    }
}

/// One classified unit of source text. Immutable once constructed.
#[derive(Clone, Debug, PartialEq, Eq)]
pub struct Token {
    pub kind: TokenType,
    pub lexeme: Vec<char>,
    pub line: usize,
    pub literal: Option<Literal>,
}

/// The mathematical image of a `Token`.
pub struct SpecToken {
    pub kind: TokenType,
    pub lexeme: Seq<char>,
    pub line: int,
    pub literal: Option<SpecLiteral>,
}

impl DeepView for Token {
    type V = SpecToken;

    open spec fn deep_view(&self) -> SpecToken {
        SpecToken {
            kind: self.kind,
            lexeme: self.lexeme@,
            line: self.line as int,
            literal: self.literal.deep_view(),
        }
    }
}

impl Token {
    /// Builds a token from its four parts; tokens have no other behavior.
    pub fn new(kind: TokenType, lexeme: Vec<char>, line: usize, literal: Option<Literal>) -> (r: Token)
        ensures
            r.kind == kind,
            r.lexeme == lexeme,
            r.line == line,
            r.literal == literal,
            r.deep_view() == (SpecToken {
                kind,
                lexeme: lexeme@,
                line: line as int,
                literal: literal.deep_view(),
            }),
    {
        Token { kind, lexeme, line, literal }
    }
}

} // verus!
