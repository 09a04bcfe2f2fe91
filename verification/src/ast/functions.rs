//! Methods.

use vstd::prelude::*;
use crate::ast::atom::Atom;
use crate::ast::atom::mark;
use crate::ast::attributes::AttributeGroup;
use crate::ast::attributes::groups_atoms;
use crate::ast::identifiers::SimpleIdentifier;
use crate::ast::modifiers::ModifierGroup;
use crate::ast::statements::Statement;
use crate::ast::statements::statements_atoms;
use crate::ast::utils::CommaSeparated;
use crate::ast::utils::variables_atoms;
use crate::ast::variables::SimpleVariable;
use crate::span::Span;
use crate::token::TokenKind;

verus! {

/// `(` parameters `)`.
#[derive(Debug, PartialEq, Eq)]
pub struct FunctionParameterList {
    pub left_parenthesis: Span,  // `(`
    pub parameters: CommaSeparated<SimpleVariable>,  // `$a, $b`
    pub right_parenthesis: Span,  // `)`
}

/// `{` statements `}`.
#[derive(Debug, PartialEq, Eq)]
pub struct MethodBody {
    pub left_brace: Span,  // `{`
    pub statements: Vec<Statement>,
    pub right_brace: Span,  // `}`
}

/// A method without a body.
#[derive(Debug, PartialEq, Eq)]
pub struct AbstractMethod {
    pub attributes: Vec<AttributeGroup>,
    pub modifiers: ModifierGroup,
    pub function: Span,  // `function`
    pub name: SimpleIdentifier,
    pub parameters: FunctionParameterList,
    pub semicolon: Span,  // `;`
}

/// A method with a body.
#[derive(Debug, PartialEq, Eq)]
pub struct ConcreteMethod {
    pub attributes: Vec<AttributeGroup>,
    pub modifiers: ModifierGroup,
    pub function: Span,  // `function`
    pub name: SimpleIdentifier,
    pub parameters: FunctionParameterList,
    pub body: MethodBody,
}

/// A constructor without a body.
#[derive(Debug, PartialEq, Eq)]
pub struct AbstractConstructor {
    pub attributes: Vec<AttributeGroup>,
    pub modifiers: ModifierGroup,
    pub function: Span,  // `function`
    pub name: SimpleIdentifier,  // `__construct`
    pub parameters: FunctionParameterList,
    pub semicolon: Span,  // `;`
}

/// A constructor with a body.
#[derive(Debug, PartialEq, Eq)]
pub struct ConcreteConstructor {
    pub attributes: Vec<AttributeGroup>,
    pub modifiers: ModifierGroup,
    pub function: Span,  // `function`
    pub name: SimpleIdentifier,  // `__construct`
    pub parameters: FunctionParameterList,
    pub body: MethodBody,
}

/// What the method production hands back: one of the four forms.
#[derive(Debug, PartialEq, Eq)]
pub enum Method {
    Abstract(AbstractMethod),
    Concrete(ConcreteMethod),
    AbstractConstructor(AbstractConstructor),
    ConcreteConstructor(ConcreteConstructor),
}

impl FunctionParameterList {
    pub open spec fn atoms(self) -> Seq<Atom> {
        seq![mark(TokenKind::LeftParen, self.left_parenthesis)] + variables_atoms(
            self.parameters,
        ) + seq![mark(TokenKind::RightParen, self.right_parenthesis)]
    }
}

impl MethodBody {
    #[verifier::opaque]
    pub open spec fn atoms(self) -> Seq<Atom>
        decreases self, 1int,
    {
        seq![mark(TokenKind::LeftBrace, self.left_brace)] + statements_atoms(self.statements@)
            + seq![mark(TokenKind::RightBrace, self.right_brace)]
    }
}

/// The definition of `MethodBody::atoms`, unfolded once.
pub proof fn lemma_method_body_atoms(node: MethodBody)
    ensures
        node.atoms() == {
            seq![mark(TokenKind::LeftBrace, node.left_brace)] + statements_atoms(node.statements@)
                + seq![mark(TokenKind::RightBrace, node.right_brace)]
        },
{
    reveal_with_fuel(MethodBody::atoms, 1);
    reveal_with_fuel(statements_atoms, 1);
}

/// The atoms of a method from `function` up to its parameters.
pub open spec fn head_atoms(
    function: Span,
    name: SimpleIdentifier,
    parameters: FunctionParameterList,
) -> Seq<Atom> {
    seq![mark(TokenKind::Function, function)] + name.atoms() + parameters.atoms()
}

impl AbstractMethod {
    /// The atoms of the method from `function` on.
    pub open spec fn own_atoms(self) -> Seq<Atom> {
        head_atoms(self.function, self.name, self.parameters) + seq![
            mark(TokenKind::SemiColon, self.semicolon),
        ]
    }

    pub open spec fn atoms(self) -> Seq<Atom> {
        groups_atoms(self.attributes@) + self.modifiers.atoms() + self.own_atoms()
    }
}

impl AbstractConstructor {
    /// The atoms of the constructor from `function` on.
    pub open spec fn own_atoms(self) -> Seq<Atom> {
        head_atoms(self.function, self.name, self.parameters) + seq![
            mark(TokenKind::SemiColon, self.semicolon),
        ]
    }

    pub open spec fn atoms(self) -> Seq<Atom> {
        groups_atoms(self.attributes@) + self.modifiers.atoms() + self.own_atoms()
    }
}

impl ConcreteMethod {
    /// The atoms of the method from `function` on.
    #[verifier::opaque]
    pub open spec fn own_atoms(self) -> Seq<Atom>
        decreases self, 2int,
    {
        head_atoms(self.function, self.name, self.parameters) + self.body.atoms()
    }

    #[verifier::opaque]
    pub open spec fn atoms(self) -> Seq<Atom>
        decreases self, 3int,
    {
        groups_atoms(self.attributes@) + self.modifiers.atoms() + self.own_atoms()
    }
}

/// The definition of `ConcreteMethod::own_atoms`, unfolded once.
pub proof fn lemma_concrete_method_own_atoms(node: ConcreteMethod)
    ensures
        node.own_atoms() == {
            head_atoms(node.function, node.name, node.parameters) + node.body.atoms()
        },
{
    reveal_with_fuel(ConcreteMethod::own_atoms, 1);
    reveal_with_fuel(MethodBody::atoms, 1);
}

/// The definition of `ConcreteMethod::atoms`, unfolded once.
pub proof fn lemma_concrete_method_atoms(node: ConcreteMethod)
    ensures
        node.atoms() == {
            groups_atoms(node.attributes@) + node.modifiers.atoms() + node.own_atoms()
        },
{
    reveal_with_fuel(ConcreteMethod::atoms, 1);
    reveal_with_fuel(ConcreteMethod::own_atoms, 1);
}

impl ConcreteConstructor {
    /// The atoms of the constructor from `function` on.
    #[verifier::opaque]
    pub open spec fn own_atoms(self) -> Seq<Atom>
        decreases self, 2int,
    {
        head_atoms(self.function, self.name, self.parameters) + self.body.atoms()
    }

    #[verifier::opaque]
    pub open spec fn atoms(self) -> Seq<Atom>
        decreases self, 3int,
    {
        groups_atoms(self.attributes@) + self.modifiers.atoms() + self.own_atoms()
    }
}

/// The definition of `ConcreteConstructor::own_atoms`, unfolded once.
pub proof fn lemma_concrete_constructor_own_atoms(node: ConcreteConstructor)
    ensures
        node.own_atoms() == {
            head_atoms(node.function, node.name, node.parameters) + node.body.atoms()
        },
{
    reveal_with_fuel(ConcreteConstructor::own_atoms, 1);
    reveal_with_fuel(MethodBody::atoms, 1);
}

/// The definition of `ConcreteConstructor::atoms`, unfolded once.
pub proof fn lemma_concrete_constructor_atoms(node: ConcreteConstructor)
    ensures
        node.atoms() == {
            groups_atoms(node.attributes@) + node.modifiers.atoms() + node.own_atoms()
        },
{
    reveal_with_fuel(ConcreteConstructor::atoms, 1);
    reveal_with_fuel(ConcreteConstructor::own_atoms, 1);
}

impl Method {
    /// The atoms of the method from `function` on.
    #[verifier::opaque]
    pub open spec fn own_atoms(self) -> Seq<Atom>
        decreases self, 3int,
    {
        match self {
            Method::Abstract(node) => node.own_atoms(),
            Method::AbstractConstructor(node) => node.own_atoms(),
            Method::Concrete(node) => node.own_atoms(),
            Method::ConcreteConstructor(node) => node.own_atoms(),
        }
    }
}

/// The definition of `Method::own_atoms`, unfolded once.
pub proof fn lemma_method_own_atoms(node: Method)
    ensures
        node.own_atoms() == {
            match node {
                Method::Abstract(node) => node.own_atoms(),
                Method::AbstractConstructor(node) => node.own_atoms(),
                Method::Concrete(node) => node.own_atoms(),
                Method::ConcreteConstructor(node) => node.own_atoms(),
            }
        },
{
    reveal_with_fuel(Method::own_atoms, 1);
    reveal_with_fuel(ConcreteMethod::own_atoms, 1);
    reveal_with_fuel(ConcreteConstructor::own_atoms, 1);
}

} // verus!
