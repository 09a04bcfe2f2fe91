//! Modifiers of class-like members.

use vstd::prelude::*;
use crate::ast::atom::Atom;
use crate::ast::atom::mark;
use crate::span::Span;
use crate::token::TokenKind;

verus! {

/// A visibility, with the span of its keyword.
#[derive(Debug, PartialEq, Eq, Clone, Copy, Hash, Structural)]
pub enum VisibilityModifier {
    Public(Span),
    Protected(Span),
    Private(Span),
}

#[derive(Debug, PartialEq, Eq, Clone, Copy, Hash, Structural)]
pub enum ModifierKind {
    Public,
    Protected,
    Private,
    Static,
    Abstract,
    Final,
    Readonly,
}

/// One modifier, with the span of its keyword.
#[derive(Debug, PartialEq, Eq, Clone, Copy, Hash, Structural)]
pub struct Modifier {
    pub kind: ModifierKind,
    pub span: Span,
}

/// The modifiers before one member, in the order of the source, found fit
/// for the kind of member they stand before.
#[derive(Debug, PartialEq, Eq, Clone, Hash)]
pub struct ModifierGroup {
    pub modifiers: Vec<Modifier>,
}

impl VisibilityModifier {
    pub open spec fn atoms(self) -> Seq<Atom> {
        match self {
            VisibilityModifier::Public(span) => seq![mark(TokenKind::Public, span)],
            VisibilityModifier::Protected(span) => seq![mark(TokenKind::Protected, span)],
            VisibilityModifier::Private(span) => seq![mark(TokenKind::Private, span)],
        }
    }
}

impl ModifierKind {
    /// The kind of the keyword's token.
    pub open spec fn token_kind(self) -> TokenKind {
        match self {
            ModifierKind::Public => TokenKind::Public,
            ModifierKind::Protected => TokenKind::Protected,
            ModifierKind::Private => TokenKind::Private,
            ModifierKind::Static => TokenKind::Static,
            ModifierKind::Abstract => TokenKind::Abstract,
            ModifierKind::Final => TokenKind::Final,
            ModifierKind::Readonly => TokenKind::Readonly,
        }
    }

    pub open spec fn is_visibility(self) -> bool {
        self == ModifierKind::Public || self == ModifierKind::Protected || self
            == ModifierKind::Private
    }
}

impl Modifier {
    pub open spec fn atom(self) -> Atom {
        mark(self.kind.token_kind(), self.span)
    }
}

/// The atoms of a run of modifiers.
pub open spec fn modifiers_atoms(modifiers: Seq<Modifier>) -> Seq<Atom> {
    Seq::new(modifiers.len(), |i: int| modifiers[i].atom())
}

impl ModifierGroup {
    pub open spec fn atoms(self) -> Seq<Atom> {
        modifiers_atoms(self.modifiers@)
    }
}

} // verus!
