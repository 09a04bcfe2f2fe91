//! Properties.

use vstd::prelude::*;
use crate::ast::atom::Atom;
use crate::ast::atom::mark;
use crate::ast::attributes::AttributeGroup;
use crate::ast::attributes::groups_atoms;
use crate::ast::modifiers::ModifierGroup;
use crate::ast::variables::SimpleVariable;
use crate::span::Span;
use crate::token::TokenKind;

verus! {

/// A property behind its modifiers: `public $name;`.
#[derive(Debug, PartialEq, Eq, Clone, Hash)]
pub struct Property {
    pub attributes: Vec<AttributeGroup>,
    pub modifiers: ModifierGroup,
    pub variable: SimpleVariable,
    pub end: Span,  // `;`
}

/// A property in the old form: `var $name;`.
#[derive(Debug, PartialEq, Eq, Clone, Hash)]
pub struct VariableProperty {
    pub attributes: Vec<AttributeGroup>,
    pub var: Span,  // `var`
    pub variable: SimpleVariable,
    pub end: Span,  // `;`
}

impl Property {
    /// The atoms of the property from its variable on.
    pub open spec fn own_atoms(self) -> Seq<Atom> {
        self.variable.atoms() + seq![mark(TokenKind::SemiColon, self.end)]
    }

    pub open spec fn atoms(self) -> Seq<Atom> {
        groups_atoms(self.attributes@) + self.modifiers.atoms() + self.own_atoms()
    }
}

impl VariableProperty {
    /// The atoms of the property from `var` on.
    pub open spec fn own_atoms(self) -> Seq<Atom> {
        seq![mark(TokenKind::Var, self.var)] + self.variable.atoms() + seq![
            mark(TokenKind::SemiColon, self.end),
        ]
    }

    pub open spec fn atoms(self) -> Seq<Atom> {
        groups_atoms(self.attributes@) + self.own_atoms()
    }
}

} // verus!
