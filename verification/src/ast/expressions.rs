//! Expressions.

use vstd::prelude::*;
use crate::ast::atom::Atom;
use crate::ast::atom::mark;
use crate::ast::literals::Literal;
use crate::ast::variables::Variable;
use crate::span::Span;
use crate::token::TokenKind;

verus! {

/// `(` expression `)`.
#[derive(Debug, PartialEq, Eq, Hash)]
pub struct ParenthesizedExpression {
    pub start: Span,  // `(`
    pub expr: Box<Expression>,
    pub end: Span,  // `)`
}

#[derive(Debug, PartialEq, Eq, Hash)]
pub enum Expression {
    Literal(Literal),
    Variable(Variable),
    Parenthesized(ParenthesizedExpression),
}

impl Expression {
    pub open spec fn atoms(self) -> Seq<Atom>
        decreases self,
    {
        match self {
            Expression::Literal(literal) => literal.atoms(),
            Expression::Variable(variable) => variable.atoms(),
            Expression::Parenthesized(group) => seq![mark(TokenKind::LeftParen, group.start)]
                + group.expr.atoms() + seq![mark(TokenKind::RightParen, group.end)],
        }
    }
}

} // verus!
