//! Expressions.

use vstd::prelude::*;
use crate::ast::atom::mark;
use crate::ast::expressions::Expression;
use crate::ast::expressions::ParenthesizedExpression;
use crate::ast::literals::Literal;
use crate::ast::literals::LiteralFloat;
use crate::ast::literals::LiteralInteger;
use crate::ast::literals::LiteralString;
use crate::parser::error::Expectation;
use crate::parser::error::Extent;
use crate::parser::error::ParseError;
use crate::parser::error::ParseResult;
use crate::parser::error::kind_at;
use crate::parser::error::span_at;
use crate::parser::error::stopped;
use crate::parser::lossless::lemma_lossless_join3;
use crate::parser::lossless::lemma_lossless_lexeme;
use crate::parser::lossless::lemma_lossless_mark;
use crate::parser::lossless::lossless;
use crate::parser::state::State;
use crate::parser::state::parsed;
use crate::parser::utils::after;
use crate::parser::utils::closing;
use crate::parser::utils::remaining;
use crate::parser::utils::skip_right_parenthesis;
use crate::parser::utils::value_at;
use crate::parser::variables::dynamic_variable;
use crate::parser::variables::dynamic_variable_extent;
use crate::token::Token;
use crate::token::TokenKind;

verus! {

/// An expression is a variable, a literal, or an expression in parentheses.
pub open spec fn expression_extent(tokens: Seq<Token>, pos: int) -> Extent
    decreases remaining(tokens, pos), 1int,
{
    match kind_at(tokens, pos) {
        TokenKind::Variable | TokenKind::Dollar | TokenKind::DollarLeftBrace => {
            dynamic_variable_extent(tokens, pos)
        },
        TokenKind::LiteralInteger | TokenKind::LiteralFloat | TokenKind::LiteralString => Ok(1),
        TokenKind::LeftParen => after(
            1,
            closing(tokens, pos + 1, expression_extent(tokens, pos + 1), TokenKind::RightParen),
        ),
        _ => stopped(tokens, pos, pos, Expectation::Expression),
    }
}

impl Literal {
    /// The node is the token at `pos`.
    pub open spec fn stands_at(self, tokens: Seq<Token>, pos: int) -> bool {
        match self {
            Literal::Integer(literal) => {
                &&& kind_at(tokens, pos) == TokenKind::LiteralInteger
                &&& literal.span == span_at(tokens, pos)
                &&& literal.value@ == value_at(tokens, pos)
            },
            Literal::Float(literal) => {
                &&& kind_at(tokens, pos) == TokenKind::LiteralFloat
                &&& literal.span == span_at(tokens, pos)
                &&& literal.value@ == value_at(tokens, pos)
            },
            Literal::String(literal) => {
                &&& kind_at(tokens, pos) == TokenKind::LiteralString
                &&& literal.span == span_at(tokens, pos)
                &&& literal.value@ == value_at(tokens, pos)
            },
        }
    }
}

impl Expression {
    /// The node is the tree of the expression that starts at `pos`.
    pub open spec fn stands_at(self, tokens: Seq<Token>, pos: int) -> bool
        decreases self,
    {
        match self {
            Expression::Literal(literal) => literal.stands_at(tokens, pos),
            Expression::Variable(variable) => {
                &&& kind_at(tokens, pos) == TokenKind::Variable || kind_at(tokens, pos)
                    == TokenKind::Dollar || kind_at(tokens, pos) == TokenKind::DollarLeftBrace
                &&& variable.stands_at(tokens, pos)
            },
            Expression::Parenthesized(group) => {
                &&& kind_at(tokens, pos) == TokenKind::LeftParen
                &&& group.start == span_at(tokens, pos)
                &&& group.expr.stands_at(tokens, pos + 1)
                &&& expression_extent(tokens, pos + 1) matches Ok(n) && group.end == span_at(
                    tokens,
                    pos + 1 + n,
                )
            },
        }
    }
}

/// Reads an expression.
pub fn create(state: &mut State) -> (r: ParseResult<Expression>)
    requires
        old(state).wf(),
    ensures
        parsed(
            *old(state),
            *final(state),
            expression_extent(old(state).tokens@, old(state).cursor as int),
            r,
        ),
        final(state).attributes@ == old(state).attributes@,
        r matches Ok(expression) ==> expression.stands_at(
            old(state).tokens@,
            old(state).cursor as int,
        ),
        r matches Ok(node) ==> lossless(
            node.atoms(),
            old(state).tokens@,
            old(state).cursor as int,
            final(state).cursor as int,
        ),
    decreases remaining(old(state).tokens@, old(state).cursor as int), 1int,
{
    let ghost tokens = state.tokens@;
    let ghost pos = state.cursor as int;
    let current = state.current();
    let kind = current.kind;
    let span = current.span;
    match kind {
        TokenKind::Variable | TokenKind::Dollar | TokenKind::DollarLeftBrace => {
            let variable = dynamic_variable(state)?;
            Ok(Expression::Variable(variable))
        },
        TokenKind::LiteralInteger => {
            let value = current.value.clone();
            state.next();
            proof {
                lemma_lossless_lexeme(TokenKind::LiteralInteger, span, value@, tokens, pos);
            }
            Ok(Expression::Literal(Literal::Integer(LiteralInteger { value, span })))
        },
        TokenKind::LiteralFloat => {
            let value = current.value.clone();
            state.next();
            proof {
                lemma_lossless_lexeme(TokenKind::LiteralFloat, span, value@, tokens, pos);
            }
            Ok(Expression::Literal(Literal::Float(LiteralFloat { value, span })))
        },
        TokenKind::LiteralString => {
            let value = current.value.clone();
            state.next();
            proof {
                lemma_lossless_lexeme(TokenKind::LiteralString, span, value@, tokens, pos);
            }
            Ok(Expression::Literal(Literal::String(LiteralString { value, span })))
        },
        TokenKind::LeftParen => {
            state.next();
            let expr = create(state)?;
            let ghost close = state.cursor as int;
            let ghost inner = expr.atoms();
            let end = skip_right_parenthesis(state)?;
            proof {
                lemma_lossless_mark(TokenKind::LeftParen, span, tokens, pos);
                lemma_lossless_mark(TokenKind::RightParen, end, tokens, close);
                lemma_lossless_join3(
                    seq![mark(TokenKind::LeftParen, span)],
                    inner,
                    seq![mark(TokenKind::RightParen, end)],
                    tokens,
                    pos,
                    pos + 1,
                    close,
                    close + 1,
                );
            }
            Ok(
                Expression::Parenthesized(
                    ParenthesizedExpression { start: span, expr: Box::new(expr), end },
                ),
            )
        },
        _ => Err(
            ParseError::UnexpectedToken { expected: Expectation::Expression, found: kind, span },
        ),
    }
}

} // verus!
