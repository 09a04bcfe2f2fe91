//! Variables: `$name`, `$$name`, `${expression}`.

use vstd::prelude::*;
use crate::ast::atom::Atom;
use crate::ast::atom::lexeme;
use crate::ast::atom::mark;
use crate::ast::expressions::Expression;
use crate::bytestring::ByteString;
use crate::span::Span;
use crate::token::TokenKind;

verus! {

/// `$name`.
#[derive(Debug, PartialEq, Eq, Clone, Hash)]
pub struct SimpleVariable {
    pub span: Span,
    pub name: ByteString,
}

/// `$` before another variable, whose value names the variable meant.
#[derive(Debug, PartialEq, Eq, Hash)]
pub struct VariableVariable {
    pub span: Span,  // `$`
    pub variable: Box<Variable>,
}

/// `${` expression `}`: the expression's value names the variable meant.
/// Where `${` comes as the two tokens `$` and `{`, `start` reaches from the
/// start of the one to the end of the other.
#[derive(Debug, PartialEq, Eq, Hash)]
pub struct BracedVariableVariable {
    pub start: Span,  // `${`
    pub variable: Box<Expression>,
    pub end: Span,  // `}`
}

#[derive(Debug, PartialEq, Eq, Hash)]
pub enum Variable {
    SimpleVariable(SimpleVariable),
    VariableVariable(VariableVariable),
    BracedVariableVariable(BracedVariableVariable),
}

impl SimpleVariable {
    pub open spec fn atoms(self) -> Seq<Atom> {
        seq![lexeme(TokenKind::Variable, self.span, self.name@)]
    }
}

impl Variable {
    pub open spec fn atoms(self) -> Seq<Atom>
        decreases self,
    {
        match self {
            Variable::SimpleVariable(variable) => variable.atoms(),
            Variable::VariableVariable(ladder) => seq![mark(TokenKind::Dollar, ladder.span)]
                + ladder.variable.atoms(),
            Variable::BracedVariableVariable(braced) => seq![
                mark(TokenKind::DollarLeftBrace, braced.start),
            ] + braced.variable.atoms() + seq![mark(TokenKind::RightBrace, braced.end)],
        }
    }
}

} // verus!
