//! Statements.

use vstd::prelude::*;
use crate::ast::atom::Atom;
use crate::ast::atom::mark;
use crate::ast::expressions::Expression;
use crate::ast::loops::BreakStatement;
use crate::ast::loops::ContinueStatement;
use crate::ast::loops::DoWhileStatement;
use crate::ast::loops::ForStatement;
use crate::ast::loops::ForeachStatement;
use crate::ast::loops::WhileStatement;
use crate::ast::traits::TraitStatement;
use crate::span::Span;
use crate::token::TokenKind;

verus! {

/// What closes a statement: `;`, or the tag `?>` that leaves the code.
#[derive(Debug, PartialEq, Eq, Clone, Copy, Hash, Structural)]
pub enum Ending {
    Semicolon(Span),
    CloseTag(Span),
}

/// `{` statements `}`.
#[derive(Debug, PartialEq, Eq)]
pub struct BlockStatement {
    pub left_brace: Span,  // `{`
    pub statements: Vec<Statement>,
    pub right_brace: Span,  // `}`
}

/// An expression and its ending.
#[derive(Debug, PartialEq, Eq)]
pub struct ExpressionStatement {
    pub expression: Expression,
    pub ending: Ending,
}

#[derive(Debug, PartialEq, Eq)]
pub enum Statement {
    Foreach(ForeachStatement),
    For(ForStatement),
    DoWhile(DoWhileStatement),
    While(WhileStatement),
    Break(BreakStatement),
    Continue(ContinueStatement),
    Trait(TraitStatement),
    Block(BlockStatement),
    Expression(ExpressionStatement),
    Noop(Span),  // `;`
}

impl Ending {
    pub open spec fn atoms(self) -> Seq<Atom> {
        match self {
            Ending::Semicolon(span) => seq![mark(TokenKind::SemiColon, span)],
            Ending::CloseTag(span) => seq![mark(TokenKind::CloseTag, span)],
        }
    }

    /// The span of the ending, whichever it is.
    pub fn span(&self) -> (r: Span)
        ensures
            r == self.atoms()[0].span,
    {
        match self {
            Ending::Semicolon(span) => *span,
            Ending::CloseTag(span) => *span,
        }
    }
}

/// The atoms of a run of statements.
#[verifier::opaque]
pub open spec fn statements_atoms(statements: Seq<Statement>) -> Seq<Atom>
    decreases statements, 0int,
{
    if statements.len() == 0 {
        Seq::empty()
    } else {
        statements_atoms(statements.drop_last()) + statements.last().atoms()
    }
}

/// The definition of `statements_atoms`, unfolded once.
pub proof fn lemma_statements_atoms(statements: Seq<Statement>)
    ensures
        statements_atoms(statements) == {
            if statements.len() == 0 {
                Seq::empty()
            } else {
                statements_atoms(statements.drop_last()) + statements.last().atoms()
            }
        },
{
    reveal_with_fuel(statements_atoms, 1);
    reveal_with_fuel(Statement::atoms, 1);
}

impl BlockStatement {
    #[verifier::opaque]
    pub open spec fn atoms(self) -> Seq<Atom>
        decreases self, 1int,
    {
        seq![mark(TokenKind::LeftBrace, self.left_brace)] + statements_atoms(self.statements@)
            + seq![mark(TokenKind::RightBrace, self.right_brace)]
    }
}

/// The definition of `BlockStatement::atoms`, unfolded once.
pub proof fn lemma_block_statement_atoms(node: BlockStatement)
    ensures
        node.atoms() == {
            seq![mark(TokenKind::LeftBrace, node.left_brace)] + statements_atoms(node.statements@)
                + seq![mark(TokenKind::RightBrace, node.right_brace)]
        },
{
    reveal_with_fuel(BlockStatement::atoms, 1);
    reveal_with_fuel(statements_atoms, 1);
}

impl ExpressionStatement {
    pub open spec fn atoms(self) -> Seq<Atom> {
        self.expression.atoms() + self.ending.atoms()
    }
}

impl Statement {
    /// The lexical atoms that the statement keeps, in the order of the source.
    #[verifier::opaque]
    pub open spec fn atoms(self) -> Seq<Atom>
        decreases self, 6int,
    {
        match self {
            Statement::Foreach(node) => node.atoms(),
            Statement::For(node) => node.atoms(),
            Statement::DoWhile(node) => node.atoms(),
            Statement::While(node) => node.atoms(),
            Statement::Break(node) => node.atoms(),
            Statement::Continue(node) => node.atoms(),
            Statement::Trait(node) => node.atoms(),
            Statement::Block(node) => node.atoms(),
            Statement::Expression(node) => node.atoms(),
            Statement::Noop(span) => seq![mark(TokenKind::SemiColon, span)],
        }
    }
}

/// The definition of `Statement::atoms`, unfolded once.
pub proof fn lemma_statement_atoms(node: Statement)
    ensures
        node.atoms() == {
            match node {
                Statement::Foreach(node) => node.atoms(),
                Statement::For(node) => node.atoms(),
                Statement::DoWhile(node) => node.atoms(),
                Statement::While(node) => node.atoms(),
                Statement::Break(node) => node.atoms(),
                Statement::Continue(node) => node.atoms(),
                Statement::Trait(node) => node.atoms(),
                Statement::Block(node) => node.atoms(),
                Statement::Expression(node) => node.atoms(),
                Statement::Noop(span) => seq![mark(TokenKind::SemiColon, span)],
            }
        },
{
    reveal_with_fuel(Statement::atoms, 1);
    reveal_with_fuel(ForeachStatement::atoms, 1);
    reveal_with_fuel(ForStatement::atoms, 1);
    reveal_with_fuel(DoWhileStatement::atoms, 1);
    reveal_with_fuel(WhileStatement::atoms, 1);
    reveal_with_fuel(TraitStatement::atoms, 1);
    reveal_with_fuel(BlockStatement::atoms, 1);
}

} // verus!
