//! The token model: what the lexer produces and the parser consumes.

use vstd::prelude::*;

verus! {

/// Reserved words of the surface syntax.
#[derive(Clone, Copy, Debug, PartialEq, Eq, Structural)]
pub enum Keyword {
    Import,
    /// Spelled `var` or `let`.
    Var,
    If,
    Else,
    While,
}

/// Operator symbols.
#[derive(Clone, Copy, Debug, PartialEq, Eq, Structural)]
pub enum Operator {
    Plus,
    Minus,
    Star,
    Slash,
    Percent,
    Less,
    Greater,
    LessEqual,
    GreaterEqual,
    And,
    Or,
    Bang,
    Assign,
    Equal,
    NotEqual,
}

/// Punctuation that structures the input.
#[derive(Clone, Copy, Debug, PartialEq, Eq, Structural)]
pub enum Delimiter {
    LeftParen,
    RightParen,
    LeftBrace,
    RightBrace,
    LeftBracket,
    RightBracket,
    Comma,
    Dot,
    Semicolon,
    Colon,
}

/// An exact decimal number: `mantissa` divided by ten to the power `scale`.
///
/// A value is normalised when its mantissa carries no trailing zero that the
/// scale could absorb, so that each number has one representation.
#[derive(Clone, Copy, Debug, PartialEq, Eq, Structural)]
pub struct Decimal {
    pub mantissa: u64,
    pub scale: usize,
}

impl Decimal {
    pub open spec fn normalised(self) -> bool {
        self.scale > 0 ==> self.mantissa % 10 != 0
    }
}

/// A classified lexical unit.
#[derive(Debug, PartialEq, Eq)]
pub enum Token {
    Integer(i64),
    Float(Decimal),
    /// The text between the quotes, taken as it stands.
    StringLiteral(Vec<u8>),
    Boolean(bool),
    Identifier(Vec<u8>),
    Keyword(Keyword),
    Operator(Operator),
    Delimiter(Delimiter),
    /// An `@` annotation; the payload is the name behind the `@`.
    Tag(Vec<u8>),
    /// A byte that belongs to no other token.
    Unknown(u8),
    EndOfInput,
}

/// The mathematical value of a [`Token`].
pub ghost enum TokenView {
    Integer(i64),
    Float(Decimal),
    StringLiteral(Seq<u8>),
    Boolean(bool),
    Identifier(Seq<u8>),
    Keyword(Keyword),
    Operator(Operator),
    Delimiter(Delimiter),
    Tag(Seq<u8>),
    Unknown(u8),
    EndOfInput,
}

impl View for Token {
    type V = TokenView;

    open spec fn view(&self) -> TokenView {
        match self {
            Token::Integer(v) => TokenView::Integer(*v),
            Token::Float(d) => TokenView::Float(*d),
            Token::StringLiteral(s) => TokenView::StringLiteral(s@),
            Token::Boolean(b) => TokenView::Boolean(*b),
            Token::Identifier(n) => TokenView::Identifier(n@),
            Token::Keyword(k) => TokenView::Keyword(*k),
            Token::Operator(o) => TokenView::Operator(*o),
            Token::Delimiter(d) => TokenView::Delimiter(*d),
            Token::Tag(n) => TokenView::Tag(n@),
            Token::Unknown(b) => TokenView::Unknown(*b),
            Token::EndOfInput => TokenView::EndOfInput,
        }
    }
}

impl DeepView for Token {
    type V = TokenView;

    open spec fn deep_view(&self) -> TokenView {
        self@
    }
}

/// The token at `pos`; beyond the sequence it is the end-of-input marker.
pub open spec fn token_at(ts: Seq<TokenView>, pos: nat) -> TokenView {
    if pos < ts.len() {
        ts[pos as int]
    } else {
        TokenView::EndOfInput
    }
}

pub open spec fn is_delimiter(t: TokenView, d: Delimiter) -> bool {
    t == TokenView::Delimiter(d)
}

pub open spec fn is_operator(t: TokenView, o: Operator) -> bool {
    t == TokenView::Operator(o)
}

pub open spec fn is_keyword(t: TokenView, k: Keyword) -> bool {
    t == TokenView::Keyword(k)
}

impl Token {
    pub fn is_delimiter(&self, d: Delimiter) -> (r: bool)
        ensures
            r == is_delimiter(self@, d),
    {
        match self {
            Token::Delimiter(x) => *x == d,
            _ => false,
        }
    }

    pub fn is_operator(&self, o: Operator) -> (r: bool)
        ensures
            r == is_operator(self@, o),
    {
        match self {
            Token::Operator(x) => *x == o,
            _ => false,
        }
    }

    pub fn is_keyword(&self, k: Keyword) -> (r: bool)
        ensures
            r == is_keyword(self@, k),
    {
        match self {
            Token::Keyword(x) => *x == k,
            _ => false,
        }
    }
}

} // verus!
