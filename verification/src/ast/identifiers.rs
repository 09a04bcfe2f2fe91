//! Names.

use vstd::prelude::*;
use crate::ast::atom::Atom;
use crate::ast::atom::lexeme;
use crate::bytestring::ByteString;
use crate::span::Span;
use crate::token::TokenKind;

verus! {

/// How a name is written: `Foo`, `Foo\Bar` or `\Foo\Bar`.
#[derive(Debug, PartialEq, Eq, Clone, Copy, Hash, Structural)]
pub enum IdentifierForm {
    Unqualified,
    Qualified,
    FullyQualified,
}

impl IdentifierForm {
    /// The kind of the token that a name of this form is read from.
    pub open spec fn token_kind(self) -> TokenKind {
        match self {
            IdentifierForm::Unqualified => TokenKind::Identifier,
            IdentifierForm::Qualified => TokenKind::QualifiedIdentifier,
            IdentifierForm::FullyQualified => TokenKind::FullyQualifiedIdentifier,
        }
    }
}

/// A name, read from one token.
#[derive(Debug, PartialEq, Eq, Clone, Hash)]
pub struct SimpleIdentifier {
    pub span: Span,
    pub form: IdentifierForm,
    pub value: ByteString,
}

impl SimpleIdentifier {
    pub open spec fn atoms(self) -> Seq<Atom> {
        seq![lexeme(self.form.token_kind(), self.span, self.value@)]
    }
}

} // verus!
