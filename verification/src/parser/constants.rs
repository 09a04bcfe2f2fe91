//! Constants of class-like declarations.

use vstd::prelude::*;
use crate::ast::atom::mark;
use crate::ast::constants::ClassishConstant;
use crate::ast::identifiers::IdentifierForm;
use crate::ast::modifiers::ModifierGroup;
use crate::parser::error::Extent;
use crate::parser::error::ParseResult;
use crate::parser::error::span_at;
use crate::parser::expressions::create;
use crate::parser::expressions::expression_extent;
use crate::parser::identifiers::identifier;
use crate::parser::identifiers::name_extent;
use crate::parser::lossless::lemma_lossless_join5;
use crate::parser::lossless::lemma_lossless_mark;
use crate::parser::lossless::lossless;
use crate::parser::state::State;
use crate::parser::state::parsed;
use crate::parser::utils::after;
use crate::parser::utils::closing;
use crate::parser::utils::opening;
use crate::parser::utils::skip;
use crate::parser::utils::skip_semicolon;
use crate::token::Token;
use crate::token::TokenKind;

verus! {

/// `const`, a name, `=`, an expression, `;`.
#[verifier::opaque]
pub open spec fn constant_extent(tokens: Seq<Token>, pos: int) -> Extent {
    opening(
        tokens,
        pos,
        TokenKind::Const,
        match name_extent(tokens, pos + 1, IdentifierForm::Unqualified) {
            Err(e) => Err(e),
            Ok(_) => after(
                1,
                opening(
                    tokens,
                    pos + 2,
                    TokenKind::Equals,
                    closing(
                        tokens,
                        pos + 3,
                        expression_extent(tokens, pos + 3),
                        TokenKind::SemiColon,
                    ),
                ),
            ),
        },
    )
}

/// The definition of `constant_extent`, unfolded once.
pub proof fn lemma_constant_extent(tokens: Seq<Token>, pos: int)
    ensures
        constant_extent(tokens, pos) == {
            opening(
                tokens,
                pos,
                TokenKind::Const,
                match name_extent(tokens, pos + 1, IdentifierForm::Unqualified) {
                    Err(e) => Err(e),
                    Ok(_) => after(
                        1,
                        opening(
                            tokens,
                            pos + 2,
                            TokenKind::Equals,
                            closing(
                                tokens,
                                pos + 3,
                                expression_extent(tokens, pos + 3),
                                TokenKind::SemiColon,
                            ),
                        ),
                    ),
                },
            )
        },
{
    reveal(constant_extent);
}

impl ClassishConstant {
    /// The node, but for its attributes and modifiers, is the tree of the
    /// constant that starts with `const` at `pos`.
    #[verifier::opaque]
    pub open spec fn stands_at(self, tokens: Seq<Token>, pos: int) -> bool {
        &&& self.const_keyword == span_at(tokens, pos)
        &&& self.name.stands_at(tokens, pos + 1)
        &&& self.equals == span_at(tokens, pos + 2)
        &&& self.value.stands_at(tokens, pos + 3)
        &&& expression_extent(tokens, pos + 3) matches Ok(n) && self.semicolon == span_at(
            tokens,
            pos + 3 + n,
        )
    }
}

/// The definition of `ClassishConstant::stands_at`, unfolded once.
pub proof fn lemma_classish_constant_stands_at(node: ClassishConstant, tokens: Seq<Token>, pos: int)
    ensures
        node.stands_at(tokens, pos) == {
            &&& node.const_keyword == span_at(tokens, pos)
            &&& node.name.stands_at(tokens, pos + 1)
            &&& node.equals == span_at(tokens, pos + 2)
            &&& node.value.stands_at(tokens, pos + 3)
            &&& expression_extent(tokens, pos + 3) matches Ok(n) && node.semicolon == span_at(
                tokens,
                pos + 3 + n,
            )
        },
{
    reveal(ClassishConstant::stands_at);
}

/// Reads a constant behind the given modifiers, and gives it the attribute
/// groups that wait.
pub fn classish(state: &mut State, modifiers: ModifierGroup) -> (r: ParseResult<ClassishConstant>)
    requires
        old(state).wf(),
    ensures
        parsed(
            *old(state),
            *final(state),
            constant_extent(old(state).tokens@, old(state).cursor as int),
            r,
        ),
        r matches Ok(node) ==> {
            &&& final(state).settled()
            &&& node.attributes@ == old(state).attributes@
            &&& node.modifiers == modifiers
            &&& node.stands_at(old(state).tokens@, old(state).cursor as int)
        },
        r matches Ok(node) ==> lossless(
            node.own_atoms(),
            old(state).tokens@,
            old(state).cursor as int,
            final(state).cursor as int,
        ),
        r is Ok ==> old(state).cursor < final(state).cursor,
{
    let ghost tokens = state.tokens@;
    let ghost pos = state.cursor as int;
    proof {
        lemma_constant_extent(tokens, pos);
    }
    let attributes = state.get_attributes();
    let const_keyword = skip(state, TokenKind::Const)?;
    let name = identifier(state)?;
    let equals = skip(state, TokenKind::Equals)?;
    let value = create(state)?;
    let ghost close = state.cursor as int;
    let semicolon = skip_semicolon(state)?;
    let node = ClassishConstant {
        attributes,
        modifiers,
        const_keyword,
        name,
        equals,
        value,
        semicolon,
    };
    proof {
        lemma_classish_constant_stands_at(node, tokens, pos);
        lemma_lossless_mark(TokenKind::Const, const_keyword, tokens, pos);
        lemma_lossless_mark(TokenKind::Equals, equals, tokens, pos + 2);
        lemma_lossless_mark(TokenKind::SemiColon, semicolon, tokens, close);
        lemma_lossless_join5(
            seq![mark(TokenKind::Const, const_keyword)],
            node.name.atoms(),
            seq![mark(TokenKind::Equals, equals)],
            node.value.atoms(),
            seq![mark(TokenKind::SemiColon, semicolon)],
            tokens,
            pos,
            pos + 1,
            pos + 2,
            pos + 3,
            close,
            close + 1,
        );
    }
    Ok(node)
}

} // verus!
