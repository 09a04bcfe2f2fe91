//! Namespace declarations.

use vstd::prelude::*;
use crate::ast::atom::Atom;
use crate::ast::atom::mark;
use crate::ast::identifiers::SimpleIdentifier;
use crate::ast::statements::Statement;
use crate::ast::statements::statements_atoms;
use crate::span::Span;
use crate::token::TokenKind;

verus! {

/// `namespace Foo;` and the statements that follow it.
#[derive(Debug, PartialEq, Eq)]
pub struct UnbracedNamespace {
    pub start: Span,  // `namespace`
    pub name: SimpleIdentifier,  // `Foo`
    pub end: Span,  // `;`
    pub statements: Vec<Statement>,  // `*statements*`
}

/// `namespace Foo { ... }`; the name may be missing.
#[derive(Debug, PartialEq, Eq)]
pub struct BracedNamespace {
    pub namespace: Span,  // `namespace`
    pub name: Option<SimpleIdentifier>,  // `Foo`
    pub body: BracedNamespaceBody,  // `{ *statements* }`
}

#[derive(Debug, PartialEq, Eq)]
pub struct BracedNamespaceBody {
    pub start: Span,  // `{`
    pub end: Span,  // `}`
    pub statements: Vec<Statement>,  // `*statements*`
}

/// The two forms are told apart by what follows the name: `;` or `{`.
#[derive(Debug, PartialEq, Eq)]
pub enum NamespaceStatement {
    Unbraced(UnbracedNamespace),  // `namespace Foo; *statements*`
    Braced(BracedNamespace),  // `namespace Foo { *statements* }`
}

impl UnbracedNamespace {
    pub open spec fn atoms(self) -> Seq<Atom> {
        seq![mark(TokenKind::Namespace, self.start)] + self.name.atoms() + seq![
            mark(TokenKind::SemiColon, self.end),
        ] + statements_atoms(self.statements@)
    }
}

impl BracedNamespaceBody {
    pub open spec fn atoms(self) -> Seq<Atom> {
        seq![mark(TokenKind::LeftBrace, self.start)] + statements_atoms(self.statements@) + seq![
            mark(TokenKind::RightBrace, self.end),
        ]
    }
}

impl BracedNamespace {
    pub open spec fn atoms(self) -> Seq<Atom> {
        seq![mark(TokenKind::Namespace, self.namespace)] + (match self.name {
            Some(name) => name.atoms(),
            None => Seq::empty(),
        }) + self.body.atoms()
    }
}

impl NamespaceStatement {
    pub open spec fn atoms(self) -> Seq<Atom> {
        match self {
            NamespaceStatement::Unbraced(namespace) => namespace.atoms(),
            NamespaceStatement::Braced(namespace) => namespace.atoms(),
        }
    }
}

} // verus!
