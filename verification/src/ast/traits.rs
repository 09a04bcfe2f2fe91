//! Trait declarations, and the use of traits inside a declaration.

use vstd::prelude::*;
use crate::ast::atom::Atom;
use crate::ast::atom::mark;
use crate::ast::attributes::AttributeGroup;
use crate::ast::attributes::groups_atoms;
use crate::ast::constants::ClassishConstant;
use crate::ast::functions::AbstractConstructor;
use crate::ast::functions::AbstractMethod;
use crate::ast::functions::ConcreteConstructor;
use crate::ast::functions::ConcreteMethod;
use crate::ast::identifiers::SimpleIdentifier;
use crate::ast::modifiers::VisibilityModifier;
use crate::ast::properties::Property;
use crate::ast::properties::VariableProperty;
use crate::span::Span;
use crate::token::TokenKind;

verus! {

/// `use A, B;` or `use A, B { adaptations }`.
#[derive(Debug, PartialEq, Eq, Clone, Hash)]
pub struct TraitUsage {
    pub use_keyword: Span,  // `use`
    pub traits: Vec<SimpleIdentifier>,
    pub adaptations: Vec<TraitUsageAdaptation>,
}

/// One clause between the braces of a trait use.
#[derive(Debug, PartialEq, Eq, Clone, Hash)]
pub enum TraitUsageAdaptation {
    /// `[Trait::]method as [visibility] alias`.
    Alias {
        trait_name: Option<SimpleIdentifier>,
        method: SimpleIdentifier,
        alias: SimpleIdentifier,
        visibility: Option<VisibilityModifier>,
    },
    /// `[Trait::]method as visibility`.
    Visibility {
        trait_name: Option<SimpleIdentifier>,
        method: SimpleIdentifier,
        visibility: VisibilityModifier,
    },
    /// `[Trait::]method insteadof Other, Another`.
    Precedence {
        trait_name: Option<SimpleIdentifier>,
        method: SimpleIdentifier,
        insteadof: Vec<SimpleIdentifier>,
    },
}

#[derive(Debug, PartialEq, Eq)]
pub enum TraitMember {
    Constant(ClassishConstant),
    TraitUsage(TraitUsage),
    Property(Property),
    VariableProperty(VariableProperty),
    AbstractMethod(AbstractMethod),
    AbstractConstructor(AbstractConstructor),
    ConcreteMethod(ConcreteMethod),
    ConcreteConstructor(ConcreteConstructor),
}

/// `{` members `}`.
#[derive(Debug, PartialEq, Eq)]
pub struct TraitBody {
    pub left_brace: Span,  // `{`
    pub members: Vec<TraitMember>,
    pub right_brace: Span,  // `}`
}

/// `trait Name { members }`, with the attribute groups that were waiting
/// for it.
#[derive(Debug, PartialEq, Eq)]
pub struct TraitStatement {
    pub trait_keyword: Span,  // `trait`
    pub name: SimpleIdentifier,
    pub attributes: Vec<AttributeGroup>,
    pub body: TraitBody,
}

/// The atoms of a run of names.
pub open spec fn names_atoms(names: Seq<SimpleIdentifier>) -> Seq<Atom>
    decreases names.len(),
{
    if names.len() == 0 {
        Seq::empty()
    } else {
        names_atoms(names.drop_last()) + names.last().atoms()
    }
}

/// The atoms of a trait, where one is named.
pub open spec fn trait_name_atoms(name: Option<SimpleIdentifier>) -> Seq<Atom> {
    match name {
        Some(name) => name.atoms(),
        None => Seq::empty(),
    }
}

/// The atom of a visibility, where there is one.
pub open spec fn visibility_atoms(visibility: Option<VisibilityModifier>) -> Seq<Atom> {
    match visibility {
        Some(visibility) => visibility.atoms(),
        None => Seq::empty(),
    }
}

/// The atoms of the method that an adaptation is about, behind those of
/// its trait where it names one.
pub open spec fn method_atoms(
    trait_name: Option<SimpleIdentifier>,
    method: SimpleIdentifier,
) -> Seq<
    Atom,
> {
    trait_name_atoms(trait_name) + method.atoms()
}

impl TraitUsageAdaptation {
    /// The atoms that the adaptation keeps: its names and its visibility.
    /// `::`, `as`, `insteadof` and the commas are not among them.
    #[verifier::opaque]
    pub open spec fn atoms(self) -> Seq<Atom> {
        match self {
            TraitUsageAdaptation::Alias { trait_name, method, alias, visibility } => {
                method_atoms(trait_name, method) + visibility_atoms(visibility) + alias.atoms()
            },
            TraitUsageAdaptation::Visibility { trait_name, method, visibility } => {
                method_atoms(trait_name, method) + visibility.atoms()
            },
            TraitUsageAdaptation::Precedence { trait_name, method, insteadof } => {
                method_atoms(trait_name, method) + names_atoms(insteadof@)
            },
        }
    }
}

/// The atoms of a run of adaptations.
pub open spec fn adaptations_atoms(adaptations: Seq<TraitUsageAdaptation>) -> Seq<Atom>
    decreases adaptations.len(),
{
    if adaptations.len() == 0 {
        Seq::empty()
    } else {
        adaptations_atoms(adaptations.drop_last()) + adaptations.last().atoms()
    }
}

impl TraitUsage {
    /// The atoms that the trait use keeps: `use`, the names and what the
    /// adaptations keep. Its commas, braces and `;` are not among them.
    pub open spec fn atoms(self) -> Seq<Atom> {
        seq![mark(TokenKind::Use, self.use_keyword)] + names_atoms(self.traits@)
            + adaptations_atoms(self.adaptations@)
    }
}

impl TraitMember {
    #[verifier::opaque]
    pub open spec fn atoms(self) -> Seq<Atom>
        decreases self, 4int,
    {
        match self {
            TraitMember::Constant(node) => node.atoms(),
            TraitMember::TraitUsage(node) => node.atoms(),
            TraitMember::Property(node) => node.atoms(),
            TraitMember::VariableProperty(node) => node.atoms(),
            TraitMember::AbstractMethod(node) => node.atoms(),
            TraitMember::AbstractConstructor(node) => node.atoms(),
            TraitMember::ConcreteMethod(node) => node.atoms(),
            TraitMember::ConcreteConstructor(node) => node.atoms(),
        }
    }
}

/// The definition of `TraitMember::atoms`, unfolded once.
pub proof fn lemma_trait_member_atoms(node: TraitMember)
    ensures
        node.atoms() == {
            match node {
                TraitMember::Constant(node) => node.atoms(),
                TraitMember::TraitUsage(node) => node.atoms(),
                TraitMember::Property(node) => node.atoms(),
                TraitMember::VariableProperty(node) => node.atoms(),
                TraitMember::AbstractMethod(node) => node.atoms(),
                TraitMember::AbstractConstructor(node) => node.atoms(),
                TraitMember::ConcreteMethod(node) => node.atoms(),
                TraitMember::ConcreteConstructor(node) => node.atoms(),
            }
        },
{
    reveal_with_fuel(TraitMember::atoms, 1);
    reveal_with_fuel(ConcreteMethod::atoms, 1);
    reveal_with_fuel(ConcreteConstructor::atoms, 1);
}

/// The atoms of a run of members.
#[verifier::opaque]
pub open spec fn members_atoms(members: Seq<TraitMember>) -> Seq<Atom>
    decreases members, 0int,
{
    if members.len() == 0 {
        Seq::empty()
    } else {
        members_atoms(members.drop_last()) + members.last().atoms()
    }
}

/// The definition of `members_atoms`, unfolded once.
pub proof fn lemma_members_atoms(members: Seq<TraitMember>)
    ensures
        members_atoms(members) == {
            if members.len() == 0 {
                Seq::empty()
            } else {
                members_atoms(members.drop_last()) + members.last().atoms()
            }
        },
{
    reveal_with_fuel(members_atoms, 1);
    reveal_with_fuel(TraitMember::atoms, 1);
}

impl TraitBody {
    #[verifier::opaque]
    pub open spec fn atoms(self) -> Seq<Atom>
        decreases self, 5int,
    {
        seq![mark(TokenKind::LeftBrace, self.left_brace)] + members_atoms(self.members@) + seq![
            mark(TokenKind::RightBrace, self.right_brace),
        ]
    }
}

/// The definition of `TraitBody::atoms`, unfolded once.
pub proof fn lemma_trait_body_atoms(node: TraitBody)
    ensures
        node.atoms() == {
            seq![mark(TokenKind::LeftBrace, node.left_brace)] + members_atoms(node.members@) + seq![
                mark(TokenKind::RightBrace, node.right_brace),
            ]
        },
{
    reveal_with_fuel(TraitBody::atoms, 1);
    reveal_with_fuel(members_atoms, 1);
}

impl TraitStatement {
    /// The atoms of the declaration from `trait` on.
    #[verifier::opaque]
    pub open spec fn own_atoms(self) -> Seq<Atom>
        decreases self, 6int,
    {
        seq![mark(TokenKind::Trait, self.trait_keyword)] + self.name.atoms() + self.body.atoms()
    }

    /// The atoms of the declaration: those of the attribute groups that
    /// were waiting for it, and its own.
    #[verifier::opaque]
    pub open spec fn atoms(self) -> Seq<Atom>
        decreases self, 7int,
    {
        groups_atoms(self.attributes@) + self.own_atoms()
    }
}

/// The definition of `TraitStatement::own_atoms`, unfolded once.
pub proof fn lemma_trait_statement_own_atoms(node: TraitStatement)
    ensures
        node.own_atoms() == {
            seq![mark(TokenKind::Trait, node.trait_keyword)] + node.name.atoms() + node.body.atoms()
        },
{
    reveal_with_fuel(TraitStatement::own_atoms, 1);
    reveal_with_fuel(TraitBody::atoms, 1);
}

/// The definition of `TraitStatement::atoms`, unfolded once.
pub proof fn lemma_trait_statement_atoms(node: TraitStatement)
    ensures
        node.atoms() == groups_atoms(node.attributes@) + node.own_atoms(),
{
    reveal_with_fuel(TraitStatement::atoms, 1);
    reveal_with_fuel(TraitStatement::own_atoms, 1);
}

} // verus!
