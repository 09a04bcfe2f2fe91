//! Constants of class-like declarations.

use vstd::prelude::*;
use crate::ast::atom::Atom;
use crate::ast::atom::mark;
use crate::ast::attributes::AttributeGroup;
use crate::ast::attributes::groups_atoms;
use crate::ast::expressions::Expression;
use crate::ast::identifiers::SimpleIdentifier;
use crate::ast::modifiers::ModifierGroup;
use crate::span::Span;
use crate::token::TokenKind;

verus! {

/// `const NAME = value;` behind its modifiers.
#[derive(Debug, PartialEq, Eq)]
pub struct ClassishConstant {
    pub attributes: Vec<AttributeGroup>,
    pub modifiers: ModifierGroup,
    pub const_keyword: Span,  // `const`
    pub name: SimpleIdentifier,
    pub equals: Span,  // `=`
    pub value: Expression,
    pub semicolon: Span,  // `;`
}

impl ClassishConstant {
    /// The atoms of the constant from `const` on.
    pub open spec fn own_atoms(self) -> Seq<Atom> {
        seq![mark(TokenKind::Const, self.const_keyword)] + self.name.atoms() + seq![
            mark(TokenKind::Equals, self.equals),
        ] + self.value.atoms() + seq![mark(TokenKind::SemiColon, self.semicolon)]
    }

    pub open spec fn atoms(self) -> Seq<Atom> {
        groups_atoms(self.attributes@) + self.modifiers.atoms() + self.own_atoms()
    }
}

} // verus!
