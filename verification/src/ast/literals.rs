//! Literals.

use vstd::prelude::*;
use crate::ast::atom::Atom;
use crate::ast::atom::lexeme;
use crate::bytestring::ByteString;
use crate::span::Span;
use crate::token::TokenKind;

verus! {

/// An integer literal, as written.
#[derive(Debug, PartialEq, Eq, Clone, Hash)]
pub struct LiteralInteger {
    pub value: ByteString,
    pub span: Span,
}

/// A floating-point literal, as written.
#[derive(Debug, PartialEq, Eq, Clone, Hash)]
pub struct LiteralFloat {
    pub value: ByteString,
    pub span: Span,
}

/// A string literal, as written.
#[derive(Debug, PartialEq, Eq, Clone, Hash)]
pub struct LiteralString {
    pub value: ByteString,
    pub span: Span,
}

#[derive(Debug, PartialEq, Eq, Clone, Hash)]
pub enum Literal {
    Integer(LiteralInteger),
    Float(LiteralFloat),
    String(LiteralString),
}

impl LiteralInteger {
    pub open spec fn atoms(self) -> Seq<Atom> {
        seq![lexeme(TokenKind::LiteralInteger, self.span, self.value@)]
    }
}

impl Literal {
    pub open spec fn atoms(self) -> Seq<Atom> {
        match self {
            Literal::Integer(literal) => literal.atoms(),
            Literal::Float(literal) => seq![
                lexeme(TokenKind::LiteralFloat, literal.span, literal.value@),
            ],
            Literal::String(literal) => seq![
                lexeme(TokenKind::LiteralString, literal.span, literal.value@),
            ],
        }
    }
}

} // verus!
