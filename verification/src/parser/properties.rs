//! Properties.

use vstd::prelude::*;
use crate::ast::atom::mark;
use crate::ast::modifiers::ModifierGroup;
use crate::ast::properties::Property;
use crate::ast::properties::VariableProperty;
use crate::parser::error::Extent;
use crate::parser::error::ParseResult;
use crate::parser::error::span_at;
use crate::parser::lossless::lemma_lossless_join3;
use crate::parser::lossless::lemma_lossless_join;
use crate::parser::lossless::lemma_lossless_mark;
use crate::parser::lossless::lossless;
use crate::parser::state::State;
use crate::parser::state::parsed;
use crate::parser::utils::closing;
use crate::parser::utils::opening;
use crate::parser::utils::skip;
use crate::parser::utils::skip_semicolon;
use crate::parser::variables::simple_variable;
use crate::parser::variables::simple_variable_extent;
use crate::token::Token;
use crate::token::TokenKind;

verus! {

/// A property behind its modifiers: a variable and `;`.
pub open spec fn property_extent(tokens: Seq<Token>, pos: int) -> Extent {
    closing(tokens, pos, simple_variable_extent(tokens, pos), TokenKind::SemiColon)
}

/// `var`, a variable and `;`.
pub open spec fn var_property_extent(tokens: Seq<Token>, pos: int) -> Extent {
    opening(tokens, pos, TokenKind::Var, property_extent(tokens, pos + 1))
}

impl Property {
    /// The node, but for its attributes and modifiers, is the tree of the
    /// property whose variable stands at `pos`.
    pub open spec fn stands_at(self, tokens: Seq<Token>, pos: int) -> bool {
        self.variable.stands_at(tokens, pos) && self.end == span_at(tokens, pos + 1)
    }
}

impl VariableProperty {
    /// The node, but for its attributes, is the tree of the property that
    /// starts with `var` at `pos`.
    pub open spec fn stands_at(self, tokens: Seq<Token>, pos: int) -> bool {
        &&& self.var == span_at(tokens, pos)
        &&& self.variable.stands_at(tokens, pos + 1)
        &&& self.end == span_at(tokens, pos + 2)
    }
}

/// Reads a property behind the given modifiers, and gives it the attribute
/// groups that wait.
pub fn parse(state: &mut State, modifiers: ModifierGroup) -> (r: ParseResult<Property>)
    requires
        old(state).wf(),
    ensures
        parsed(
            *old(state),
            *final(state),
            property_extent(old(state).tokens@, old(state).cursor as int),
            r,
        ),
        r matches Ok(node) ==> {
            &&& final(state).settled()
            &&& node.attributes@ == old(state).attributes@
            &&& node.modifiers == modifiers
            &&& node.stands_at(old(state).tokens@, old(state).cursor as int)
        },
        r matches Ok(node) ==> lossless(
            node.own_atoms(),
            old(state).tokens@,
            old(state).cursor as int,
            final(state).cursor as int,
        ),
{
    let ghost tokens = state.tokens@;
    let ghost pos = state.cursor as int;
    let attributes = state.get_attributes();
    let variable = simple_variable(state)?;
    let end = skip_semicolon(state)?;
    let node = Property { attributes, modifiers, variable, end };
    proof {
        lemma_lossless_mark(TokenKind::SemiColon, end, tokens, pos + 1);
        lemma_lossless_join(
            node.variable.atoms(),
            seq![mark(TokenKind::SemiColon, end)],
            tokens,
            pos,
            pos + 1,
            pos + 2,
        );
    }
    Ok(node)
}

/// Reads a property in the old form, and gives it the attribute groups
/// that wait.
pub fn parse_var(state: &mut State) -> (r: ParseResult<VariableProperty>)
    requires
        old(state).wf(),
    ensures
        parsed(
            *old(state),
            *final(state),
            var_property_extent(old(state).tokens@, old(state).cursor as int),
            r,
        ),
        r matches Ok(node) ==> {
            &&& final(state).settled()
            &&& node.attributes@ == old(state).attributes@
            &&& node.stands_at(old(state).tokens@, old(state).cursor as int)
        },
        r matches Ok(node) ==> lossless(
            node.own_atoms(),
            old(state).tokens@,
            old(state).cursor as int,
            final(state).cursor as int,
        ),
{
    let ghost tokens = state.tokens@;
    let ghost pos = state.cursor as int;
    let attributes = state.get_attributes();
    let var = skip(state, TokenKind::Var)?;
    let variable = simple_variable(state)?;
    let end = skip_semicolon(state)?;
    let node = VariableProperty { attributes, var, variable, end };
    proof {
        lemma_lossless_mark(TokenKind::Var, var, tokens, pos);
        lemma_lossless_mark(TokenKind::SemiColon, end, tokens, pos + 2);
        lemma_lossless_join3(
            seq![mark(TokenKind::Var, var)],
            node.variable.atoms(),
            seq![mark(TokenKind::SemiColon, end)],
            tokens,
            pos,
            pos + 1,
            pos + 2,
            pos + 3,
        );
    }
    Ok(node)
}

} // verus!
