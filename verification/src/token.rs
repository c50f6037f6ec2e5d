//! Located tokens, as the external tokenizer hands them to the parser, and the
//! small vocabulary of operators, keywords and delimiters they carry.

use vstd::prelude::*;

verus! {

/// A half-open byte range in the source text.
#[derive(Debug, Clone, Copy, PartialEq, Eq, Structural)]
pub struct Span {
    pub start: usize,
    pub end: usize,
}

/// A value paired with the source location it came from.
#[derive(Debug, Clone)]
pub struct Located<T> {
    pub item: T,
    pub loc: Span,
}

/// An operator token.
#[derive(Debug, Clone, Copy, PartialEq, Eq, Structural)]
pub enum Operator {
    Add,
    Sub,
    Not,
    And,
    Or,
    Equal,
    NotEqual,
    Less,
    LessEqual,
    Greater,
    GreaterEqual,
}

/// A delimiter token.
#[derive(Debug, Clone, Copy, PartialEq, Eq, Structural)]
pub enum Delimiter {
    ParenOpen,
    ParenClose,
    BraceOpen,
    BraceClose,
    BracketOpen,
    BracketClose,
    Comma,
    Semicolon,
    Assign,
}

/// A keyword token.
#[derive(Debug, Clone, Copy, PartialEq, Eq, Structural)]
pub enum Keyword {
    Func,
    Extern,
    Let,
    If,
    Else,
    Loop,
    Return,
    As,
}

/// A literal keyword token: `true` or `false`.
#[derive(Debug, Clone, Copy, PartialEq, Eq, Structural)]
pub enum LiteralKeyword {
    True,
    False,
}

/// A source-level type name.
#[derive(Debug, Clone, Copy, PartialEq, Eq, Structural)]
pub enum Type {
    Unit,
    Int,
    Bool,
}

/// The discriminated kind of a token.
#[derive(Debug, Clone)]
pub enum TokenKind {
    /// An integer literal.
    Literal(i64),
    /// `true` or `false`.
    LiteralKeyword(LiteralKeyword),
    /// A name.
    Identifier(String),
    /// A reserved word.
    Keyword(Keyword),
    /// An operator.
    Operator(Operator),
    /// A delimiter.
    Delimiter(Delimiter),
    /// A primitive type name.
    Type(Type),
    /// The end of the token stream.
    Eof,
}

/// One located token.
#[derive(Debug, Clone)]
pub struct Token {
    pub kind: TokenKind,
    pub loc: Span,
}

} // verus!
