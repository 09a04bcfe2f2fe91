//! The lexical atoms that the parser consumes.

use vstd::prelude::*;
use crate::bytestring::ByteString;
use crate::span::Span;

verus! {

/// The closed set of token kinds.
#[derive(Debug, PartialEq, Eq, Clone, Copy, Hash, Structural)]
pub enum TokenKind {
    // keywords
    Abstract,
    As,
    Break,
    Const,
    Continue,
    Do,
    EndFor,
    EndForeach,
    EndWhile,
    Final,
    For,
    Foreach,
    Function,
    Insteadof,
    Namespace,
    Private,
    Protected,
    Public,
    Readonly,
    Static,
    Trait,
    Use,
    Var,
    While,
    // punctuation
    Ampersand,
    Attribute,
    CloseTag,
    Colon,
    Comma,
    Dollar,
    DollarLeftBrace,
    DoubleArrow,
    DoubleColon,
    Equals,
    LeftBrace,
    LeftParen,
    RightBrace,
    RightBracket,
    RightParen,
    SemiColon,
    // names and literals
    Identifier,
    QualifiedIdentifier,
    FullyQualifiedIdentifier,
    Variable,
    LiteralInteger,
    LiteralFloat,
    LiteralString,
    // the sentinel that closes every stream
    Eof,
}

/// One token: its kind, where it stands, and its raw bytes.
#[derive(Debug, PartialEq, Eq, Clone, Hash)]
pub struct Token {
    pub kind: TokenKind,
    pub span: Span,
    pub value: ByteString,
}

impl Token {
    pub fn new(kind: TokenKind, span: Span, value: ByteString) -> (r: Token)
        ensures
            r.kind == kind,
            r.span == span,
            r.value == value,
    {
        Token { kind, span, value }
    }
}

} // verus!
