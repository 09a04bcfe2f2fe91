//! Names.

use vstd::prelude::*;
use crate::ast::identifiers::IdentifierForm;
use crate::ast::identifiers::SimpleIdentifier;
use crate::parser::error::Expectation;
use crate::parser::error::Extent;
use crate::parser::error::ParseError;
use crate::parser::error::ParseResult;
use crate::parser::error::kind_at;
use crate::parser::error::span_at;
use crate::parser::error::stopped;
use crate::parser::lossless::lemma_lossless_lexeme;
use crate::parser::lossless::lossless;
use crate::parser::state::State;
use crate::parser::state::parsed;
use crate::parser::utils::value_at;
use crate::token::Token;
use crate::token::TokenKind;

verus! {

/// The form of name that a token of the given kind is, where a name may be
/// as wide as `widest`.
pub open spec fn form_of(widest: IdentifierForm, kind: TokenKind) -> Option<IdentifierForm> {
    if kind == TokenKind::Identifier {
        Some(IdentifierForm::Unqualified)
    } else if kind == TokenKind::QualifiedIdentifier && widest != IdentifierForm::Unqualified {
        Some(IdentifierForm::Qualified)
    } else if kind == TokenKind::FullyQualifiedIdentifier && widest
        == IdentifierForm::FullyQualified {
        Some(IdentifierForm::FullyQualified)
    } else {
        None
    }
}

/// What is reported as missing where a name as wide as `widest` is not found.
pub open spec fn expectation_of(widest: IdentifierForm) -> Expectation {
    match widest {
        IdentifierForm::Unqualified => Expectation::Identifier,
        IdentifierForm::Qualified => Expectation::Name,
        IdentifierForm::FullyQualified => Expectation::FullName,
    }
}

/// A name is one token of a kind that `widest` admits.
pub open spec fn name_extent(tokens: Seq<Token>, pos: int, widest: IdentifierForm) -> Extent {
    if form_of(widest, kind_at(tokens, pos)) is Some {
        Ok(1)
    } else {
        stopped(tokens, pos, pos, expectation_of(widest))
    }
}

impl SimpleIdentifier {
    /// The node is the token at `pos`.
    pub open spec fn stands_at(self, tokens: Seq<Token>, pos: int) -> bool {
        &&& self.form.token_kind() == kind_at(tokens, pos)
        &&& self.span == span_at(tokens, pos)
        &&& self.value@ == value_at(tokens, pos)
    }
}

/// Reads a name that may be as wide as `widest`.
pub fn read_name(state: &mut State, widest: IdentifierForm) -> (r: ParseResult<SimpleIdentifier>)
    requires
        old(state).wf(),
    ensures
        parsed(
            *old(state),
            *final(state),
            name_extent(old(state).tokens@, old(state).cursor as int, widest),
            r,
        ),
        final(state).attributes@ == old(state).attributes@,
        r matches Ok(name) ==> name.stands_at(old(state).tokens@, old(state).cursor as int),
        r matches Ok(node) ==> lossless(
            node.atoms(),
            old(state).tokens@,
            old(state).cursor as int,
            final(state).cursor as int,
        ),
{
    let current = state.current();
    let kind = current.kind;
    let span = current.span;
    let form = if kind == TokenKind::Identifier {
        Some(IdentifierForm::Unqualified)
    } else if kind == TokenKind::QualifiedIdentifier && widest != IdentifierForm::Unqualified {
        Some(IdentifierForm::Qualified)
    } else if kind == TokenKind::FullyQualifiedIdentifier && widest
        == IdentifierForm::FullyQualified {
        Some(IdentifierForm::FullyQualified)
    } else {
        None
    };
    match form {
        Some(form) => {
            let value = current.value.clone();
            proof {
                lemma_lossless_lexeme(
                    kind,
                    span,
                    value@,
                    state.tokens@,
                    state.cursor as int,
                );
            }
            state.next();
            Ok(SimpleIdentifier { span, form, value })
        },
        None => {
            let expected = match widest {
                IdentifierForm::Unqualified => Expectation::Identifier,
                IdentifierForm::Qualified => Expectation::Name,
                IdentifierForm::FullyQualified => Expectation::FullName,
            };
            Err(ParseError::UnexpectedToken { expected, found: kind, span })
        },
    }
}

/// Reads an unqualified name, such as `Foo`.
pub fn identifier(state: &mut State) -> (r: ParseResult<SimpleIdentifier>)
    requires
        old(state).wf(),
    ensures
        parsed(
            *old(state),
            *final(state),
            name_extent(
                old(state).tokens@,
                old(state).cursor as int,
                IdentifierForm::Unqualified,
            ),
            r,
        ),
        final(state).attributes@ == old(state).attributes@,
        r matches Ok(name) ==> name.stands_at(old(state).tokens@, old(state).cursor as int),
        r matches Ok(node) ==> lossless(
            node.atoms(),
            old(state).tokens@,
            old(state).cursor as int,
            final(state).cursor as int,
        ),
{
    read_name(state, IdentifierForm::Unqualified)
}

/// Reads an unqualified or qualified name, such as `Foo` or `Foo\Bar`.
pub fn name(state: &mut State) -> (r: ParseResult<SimpleIdentifier>)
    requires
        old(state).wf(),
    ensures
        parsed(
            *old(state),
            *final(state),
            name_extent(old(state).tokens@, old(state).cursor as int, IdentifierForm::Qualified),
            r,
        ),
        final(state).attributes@ == old(state).attributes@,
        r matches Ok(name) ==> name.stands_at(old(state).tokens@, old(state).cursor as int),
        r matches Ok(node) ==> lossless(
            node.atoms(),
            old(state).tokens@,
            old(state).cursor as int,
            final(state).cursor as int,
        ),
{
    read_name(state, IdentifierForm::Qualified)
}

/// Reads a name of any form, such as `Foo`, `Foo\Bar` or `\Foo\Bar`.
pub fn full_type_name(state: &mut State) -> (r: ParseResult<SimpleIdentifier>)
    requires
        old(state).wf(),
    ensures
        parsed(
            *old(state),
            *final(state),
            name_extent(
                old(state).tokens@,
                old(state).cursor as int,
                IdentifierForm::FullyQualified,
            ),
            r,
        ),
        final(state).attributes@ == old(state).attributes@,
        r matches Ok(name) ==> name.stands_at(old(state).tokens@, old(state).cursor as int),
        r matches Ok(node) ==> lossless(
            node.atoms(),
            old(state).tokens@,
            old(state).cursor as int,
            final(state).cursor as int,
        ),
{
    read_name(state, IdentifierForm::FullyQualified)
}

} // verus!
