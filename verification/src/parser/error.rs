//! What a production reports when the tokens do not fit the grammar.

use vstd::prelude::*;
use crate::span::Span;
use crate::token::Token;
use crate::token::TokenKind;

verus! {

/// What a production was looking for when it gave up.
#[derive(Debug, PartialEq, Eq, Clone, Copy, Hash, Structural)]
pub enum Expectation {
    /// One token of the given kind.
    Token(TokenKind),
    /// `;` or `?>`.
    Ending,
    /// A variable.
    Variable,
    /// An expression.
    Expression,
    /// An unqualified identifier.
    Identifier,
    /// An unqualified or qualified name.
    Name,
    /// An unqualified, qualified or fully qualified name.
    FullName,
    /// `as` or `insteadof`.
    AsOrInsteadof,
}

/// A syntax error: the first place where the tokens left the grammar.
#[derive(Debug, PartialEq, Eq, Clone, Copy, Hash, Structural)]
pub enum ParseError {
    /// The token at `span`, of kind `found`, is not what the grammar asks for.
    UnexpectedToken { expected: Expectation, found: TokenKind, span: Span },
    /// The modifier at `span` stands twice before one member.
    DuplicateModifier { modifier: TokenKind, span: Span },
    /// The modifier at `span` is a second visibility before one member.
    MultipleVisibilityModifiers { span: Span },
    /// The modifier at `span` cannot stand before this kind of member.
    ModifierNotAllowed { modifier: TokenKind, span: Span },
    /// The modifier at `span` cannot stand beside the modifier `other`.
    ConflictingModifiers { modifier: TokenKind, other: TokenKind, span: Span },
}

pub type ParseResult<T> = Result<T, ParseError>;

/// How a production fails: the error it reports, and the number of tokens
/// it has consumed by then, which is where it leaves the cursor.
pub struct Failure {
    pub error: ParseError,
    pub consumed: nat,
}

/// What a production takes from the stream: the number of tokens it
/// consumes, or how it fails.
pub type Extent = Result<nat, Failure>;

impl ParseError {
    /// The span of the offending token.
    pub fn span(&self) -> (r: Span)
        ensures
            r == self.spec_span(),
    {
        match self {
            ParseError::UnexpectedToken { span, .. } => *span,
            ParseError::DuplicateModifier { span, .. } => *span,
            ParseError::MultipleVisibilityModifiers { span } => *span,
            ParseError::ModifierNotAllowed { span, .. } => *span,
            ParseError::ConflictingModifiers { span, .. } => *span,
        }
    }

    pub open spec fn spec_span(self) -> Span {
        match self {
            ParseError::UnexpectedToken { span, .. } => span,
            ParseError::DuplicateModifier { span, .. } => span,
            ParseError::MultipleVisibilityModifiers { span } => span,
            ParseError::ModifierNotAllowed { span, .. } => span,
            ParseError::ConflictingModifiers { span, .. } => span,
        }
    }
}

/// The token under a cursor at `pos`: past the end, the last one.
pub open spec fn token_at(tokens: Seq<Token>, pos: int) -> Token
    recommends
        tokens.len() > 0,
        0 <= pos,
{
    if pos < tokens.len() {
        tokens[pos]
    } else {
        tokens[tokens.len() - 1]
    }
}

/// The kind of the token under a cursor at `pos`: past the end, the
/// sentinel's.
pub open spec fn kind_at(tokens: Seq<Token>, pos: int) -> TokenKind {
    if 0 <= pos < tokens.len() {
        tokens[pos].kind
    } else {
        TokenKind::Eof
    }
}

/// The span of the token under a cursor at `pos`.
pub open spec fn span_at(tokens: Seq<Token>, pos: int) -> Span {
    token_at(tokens, pos).span
}

/// The error for a token at `pos` that is not what the grammar asks for.
pub open spec fn unexpected(tokens: Seq<Token>, pos: int, expected: Expectation) -> ParseError {
    ParseError::UnexpectedToken {
        expected,
        found: kind_at(tokens, pos),
        span: span_at(tokens, pos),
    }
}

/// Failure with the given error, behind `consumed` tokens.
pub open spec fn failed(error: ParseError, consumed: nat) -> Extent {
    Err(Failure { error, consumed })
}

/// Failure of a production that started at `pos`, on the token at `at`,
/// which is not what the grammar asks for: the cursor stays on that token.
pub open spec fn stopped(tokens: Seq<Token>, pos: int, at: int, expected: Expectation) -> Extent {
    failed(unexpected(tokens, at, expected), (at - pos) as nat)
}

/// The failure, behind `lead` tokens more.
pub open spec fn later(lead: nat, failure: Failure) -> Extent {
    failed(failure.error, lead + failure.consumed)
}

} // verus!
