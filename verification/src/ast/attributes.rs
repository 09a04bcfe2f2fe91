//! Attribute groups: `#[A, B]`.

use vstd::prelude::*;
use crate::ast::atom::Atom;
use crate::ast::atom::mark;
use crate::ast::identifiers::SimpleIdentifier;
use crate::ast::utils::CommaSeparated;
use crate::ast::utils::names_list_atoms;
use crate::span::Span;
use crate::token::TokenKind;

verus! {

/// One attribute group.
#[derive(Debug, PartialEq, Eq, Clone, Hash)]
pub struct AttributeGroup {
    pub start: Span,  // `#[`
    pub members: CommaSeparated<SimpleIdentifier>,  // `A, B`
    pub end: Span,  // `]`
}

impl AttributeGroup {
    pub open spec fn atoms(self) -> Seq<Atom> {
        seq![mark(TokenKind::Attribute, self.start)] + names_list_atoms(self.members) + seq![
            mark(TokenKind::RightBracket, self.end),
        ]
    }
}

/// The atoms of a run of attribute groups.
pub open spec fn groups_atoms(groups: Seq<AttributeGroup>) -> Seq<Atom>
    decreases groups.len(),
{
    if groups.len() == 0 {
        Seq::empty()
    } else {
        groups_atoms(groups.drop_last()) + groups.last().atoms()
    }
}

} // verus!
