//! Loops, and the statements that leave them.

use vstd::prelude::*;
use crate::ast::atom::Atom;
use crate::ast::atom::mark;
use crate::ast::expressions::Expression;
use crate::ast::literals::LiteralInteger;
use crate::ast::statements::Ending;
use crate::ast::statements::Statement;
use crate::ast::statements::statements_atoms;
use crate::ast::utils::CommaSeparated;
use crate::ast::utils::expressions_atoms;
use crate::span::Span;
use crate::token::TokenKind;

verus! {

#[derive(Debug, PartialEq, Eq)]
pub struct ForeachStatement {
    pub foreach: Span,  // `foreach`
    pub left_parenthesis: Span,  // `(`
    pub iterator: ForeachStatementIterator,  // `*expression* as & $var => $value`
    pub right_parenthesis: Span,  // `)`
    pub body: ForeachStatementBody,  // `{ ... }`
}

#[derive(Debug, PartialEq, Eq)]
pub enum ForeachStatementIterator {
    // `*expression* as &$var`
    Value {
        expression: Expression,  // `*expression*`
        as_keyword: Span,  // `as`
        ampersand: Option<Span>,  // `&`
        value: Expression,  // `$var`
    },
    // `*expression* as &$key => $value`
    KeyAndValue {
        expression: Expression,  // `*expression*`
        as_keyword: Span,  // `as`
        ampersand: Option<Span>,  // `&`
        key: Expression,  // `$key`
        double_arrow: Span,  // `=>`
        value: Expression,  // `$value`
    },
}

#[derive(Debug, PartialEq, Eq)]
pub enum ForeachStatementBody {
    Statement { statement: Box<Statement> },
    Block {
        colon: Span,  // `:`
        statements: Vec<Statement>,  // `*statements*`
        endforeach: Span,  // `endforeach`
        ending: Ending,  // `;` or `?>`
    },
}

#[derive(Debug, PartialEq, Eq)]
pub struct ForStatement {
    pub for_keyword: Span,  // `for`
    pub left_parenthesis: Span,  // `(`
    pub iterator: ForStatementIterator,  // `*expression*; *expression*; *expression*`
    pub right_parenthesis: Span,  // `)`
    pub body: ForStatementBody,  // `{ ... }`
}

#[derive(Debug, PartialEq, Eq)]
pub struct ForStatementIterator {
    pub initializations: CommaSeparated<Expression>,  // `*expression*;`
    pub initializations_semicolon: Span,  // `;`
    pub conditions: CommaSeparated<Expression>,  // `*expression*;`
    pub conditions_semicolon: Span,  // `;`
    pub loop_list: CommaSeparated<Expression>,  // `*expression*`
}

#[derive(Debug, PartialEq, Eq)]
pub enum ForStatementBody {
    Statement { statement: Box<Statement> },
    Block {
        colon: Span,  // `:`
        statements: Vec<Statement>,  // `*statements*`
        endfor: Span,  // `endfor`
        ending: Ending,  // `;` or `?>`
    },
}

#[derive(Debug, PartialEq, Eq)]
pub struct DoWhileStatement {
    pub do_keyword: Span,  // `do`
    pub body: Box<Statement>,  // `{ ... }`
    pub while_keyword: Span,  // `while`
    pub left_parenthesis: Span,  // `(`
    pub condition: Expression,  // `( *expression* )`
    pub right_parenthesis: Span,  // `)`
    pub semicolon: Span,  // `;`
}

#[derive(Debug, PartialEq, Eq)]
pub struct WhileStatement {
    pub while_keyword: Span,  // `while`
    pub left_parenthesis: Span,  // `(`
    pub condition: Expression,  // *expression*
    pub right_parenthesis: Span,  // `)`
    pub body: WhileStatementBody,  // `{ ... }`
}

#[derive(Debug, PartialEq, Eq)]
pub enum WhileStatementBody {
    Statement { statement: Box<Statement> },
    Block {
        colon: Span,  // `:`
        statements: Vec<Statement>,  // `*statements*`
        endwhile: Span,  // `endwhile`
        ending: Ending,  // `;` or `?>`
    },
}

/// How many loops a `break` or `continue` leaves.
#[derive(Debug, PartialEq, Eq)]
pub enum Level {
    Literal(LiteralInteger),
    Parenthesized {
        left_parenthesis: Span,  // `(`
        level: Box<Level>,
        right_parenthesis: Span,  // `)`
    },
}

#[derive(Debug, PartialEq, Eq)]
pub struct BreakStatement {
    pub break_keyword: Span,  // `break`
    pub level: Option<Level>,  // `3`
    pub ending: Ending,  // `;` or `?>`
}

#[derive(Debug, PartialEq, Eq)]
pub struct ContinueStatement {
    pub continue_keyword: Span,  // `continue`
    pub level: Option<Level>,  // `2`
    pub ending: Ending,  // `;` or `?>`
}

/// The atom of `&`, where there is one.
pub open spec fn reference_atoms(ampersand: Option<Span>) -> Seq<Atom> {
    match ampersand {
        Some(span) => seq![mark(TokenKind::Ampersand, span)],
        None => Seq::empty(),
    }
}

impl ForeachStatementIterator {
    /// Whether the `&` that the node keeps stood before the key: that is
    /// where it starts before `=>` does.
    pub open spec fn reference_leads(self) -> bool {
        match self {
            ForeachStatementIterator::Value { .. } => false,
            ForeachStatementIterator::KeyAndValue { ampersand, double_arrow, .. } => {
                ampersand matches Some(span) && span.start.offset < double_arrow.start.offset
            },
        }
    }

    pub open spec fn atoms(self) -> Seq<Atom> {
        match self {
            ForeachStatementIterator::Value { expression, as_keyword, ampersand, value } => {
                expression.atoms() + seq![mark(TokenKind::As, as_keyword)] + reference_atoms(
                    ampersand,
                ) + value.atoms()
            },
            ForeachStatementIterator::KeyAndValue {
                expression,
                as_keyword,
                ampersand,
                key,
                double_arrow,
                value,
            } => {
                expression.atoms() + seq![mark(TokenKind::As, as_keyword)] + (if self.reference_leads() {
                    reference_atoms(ampersand)
                } else {
                    Seq::empty()
                }) + key.atoms() + seq![mark(TokenKind::DoubleArrow, double_arrow)]
                    + (if self.reference_leads() {
                    Seq::empty()
                } else {
                    reference_atoms(ampersand)
                }) + value.atoms()
            },
        }
    }
}

impl ForeachStatementBody {
    #[verifier::opaque]
    pub open spec fn atoms(self) -> Seq<Atom>
        decreases self, 3int,
    {
        match self {
            ForeachStatementBody::Statement { statement } => statement.atoms(),
            ForeachStatementBody::Block { colon, statements, endforeach, ending } => seq![
                mark(TokenKind::Colon, colon),
            ] + statements_atoms(statements@) + seq![mark(TokenKind::EndForeach, endforeach)]
                + ending.atoms(),
        }
    }
}

/// The definition of `ForeachStatementBody::atoms`, unfolded once.
pub proof fn lemma_foreach_statement_body_atoms(node: ForeachStatementBody)
    ensures
        node.atoms() == {
            match node {
                ForeachStatementBody::Statement { statement } => statement.atoms(),
                ForeachStatementBody::Block { colon, statements, endforeach, ending } => seq![
                    mark(TokenKind::Colon, colon),
                ] + statements_atoms(statements@) + seq![mark(TokenKind::EndForeach, endforeach)]
                    + ending.atoms(),
            }
        },
{
    reveal_with_fuel(ForeachStatementBody::atoms, 1);
    reveal_with_fuel(statements_atoms, 1);
    reveal_with_fuel(Statement::atoms, 1);
}

impl ForeachStatement {
    #[verifier::opaque]
    pub open spec fn atoms(self) -> Seq<Atom>
        decreases self, 4int,
    {
        seq![mark(TokenKind::Foreach, self.foreach)] + seq![
            mark(TokenKind::LeftParen, self.left_parenthesis),
        ] + self.iterator.atoms() + seq![mark(TokenKind::RightParen, self.right_parenthesis)]
            + self.body.atoms()
    }
}

/// The definition of `ForeachStatement::atoms`, unfolded once.
pub proof fn lemma_foreach_statement_atoms(node: ForeachStatement)
    ensures
        node.atoms() == {
            seq![mark(TokenKind::Foreach, node.foreach)] + seq![
                mark(TokenKind::LeftParen, node.left_parenthesis),
            ] + node.iterator.atoms() + seq![mark(TokenKind::RightParen, node.right_parenthesis)]
                + node.body.atoms()
        },
{
    reveal_with_fuel(ForeachStatement::atoms, 1);
    reveal_with_fuel(ForeachStatementBody::atoms, 1);
}

impl ForStatementIterator {
    pub open spec fn atoms(self) -> Seq<Atom> {
        expressions_atoms(self.initializations) + seq![
            mark(TokenKind::SemiColon, self.initializations_semicolon),
        ] + expressions_atoms(self.conditions) + seq![
            mark(TokenKind::SemiColon, self.conditions_semicolon),
        ] + expressions_atoms(self.loop_list)
    }
}

impl ForStatementBody {
    #[verifier::opaque]
    pub open spec fn atoms(self) -> Seq<Atom>
        decreases self, 3int,
    {
        match self {
            ForStatementBody::Statement { statement } => statement.atoms(),
            ForStatementBody::Block { colon, statements, endfor, ending } => seq![
                mark(TokenKind::Colon, colon),
            ] + statements_atoms(statements@) + seq![mark(TokenKind::EndFor, endfor)]
                + ending.atoms(),
        }
    }
}

/// The definition of `ForStatementBody::atoms`, unfolded once.
pub proof fn lemma_for_statement_body_atoms(node: ForStatementBody)
    ensures
        node.atoms() == {
            match node {
                ForStatementBody::Statement { statement } => statement.atoms(),
                ForStatementBody::Block { colon, statements, endfor, ending } => seq![
                    mark(TokenKind::Colon, colon),
                ] + statements_atoms(statements@) + seq![mark(TokenKind::EndFor, endfor)]
                    + ending.atoms(),
            }
        },
{
    reveal_with_fuel(ForStatementBody::atoms, 1);
    reveal_with_fuel(statements_atoms, 1);
    reveal_with_fuel(Statement::atoms, 1);
}

impl ForStatement {
    #[verifier::opaque]
    pub open spec fn atoms(self) -> Seq<Atom>
        decreases self, 4int,
    {
        seq![mark(TokenKind::For, self.for_keyword)] + seq![
            mark(TokenKind::LeftParen, self.left_parenthesis),
        ] + self.iterator.atoms() + seq![mark(TokenKind::RightParen, self.right_parenthesis)]
            + self.body.atoms()
    }
}

/// The definition of `ForStatement::atoms`, unfolded once.
pub proof fn lemma_for_statement_atoms(node: ForStatement)
    ensures
        node.atoms() == {
            seq![mark(TokenKind::For, node.for_keyword)] + seq![
                mark(TokenKind::LeftParen, node.left_parenthesis),
            ] + node.iterator.atoms() + seq![mark(TokenKind::RightParen, node.right_parenthesis)]
                + node.body.atoms()
        },
{
    reveal_with_fuel(ForStatement::atoms, 1);
    reveal_with_fuel(ForStatementBody::atoms, 1);
}

impl DoWhileStatement {
    #[verifier::opaque]
    pub open spec fn atoms(self) -> Seq<Atom>
        decreases self, 4int,
    {
        seq![mark(TokenKind::Do, self.do_keyword)] + self.body.atoms() + seq![
            mark(TokenKind::While, self.while_keyword),
        ] + seq![mark(TokenKind::LeftParen, self.left_parenthesis)] + self.condition.atoms()
            + seq![mark(TokenKind::RightParen, self.right_parenthesis)] + seq![
            mark(TokenKind::SemiColon, self.semicolon),
        ]
    }
}

/// The definition of `DoWhileStatement::atoms`, unfolded once.
pub proof fn lemma_do_while_statement_atoms(node: DoWhileStatement)
    ensures
        node.atoms() == {
            seq![mark(TokenKind::Do, node.do_keyword)] + node.body.atoms() + seq![
                mark(TokenKind::While, node.while_keyword),
            ] + seq![mark(TokenKind::LeftParen, node.left_parenthesis)] + node.condition.atoms()
                + seq![mark(TokenKind::RightParen, node.right_parenthesis)] + seq![
                mark(TokenKind::SemiColon, node.semicolon),
            ]
        },
{
    reveal_with_fuel(DoWhileStatement::atoms, 1);
    reveal_with_fuel(Statement::atoms, 1);
}

impl WhileStatementBody {
    #[verifier::opaque]
    pub open spec fn atoms(self) -> Seq<Atom>
        decreases self, 3int,
    {
        match self {
            WhileStatementBody::Statement { statement } => statement.atoms(),
            WhileStatementBody::Block { colon, statements, endwhile, ending } => seq![
                mark(TokenKind::Colon, colon),
            ] + statements_atoms(statements@) + seq![mark(TokenKind::EndWhile, endwhile)]
                + ending.atoms(),
        }
    }
}

/// The definition of `WhileStatementBody::atoms`, unfolded once.
pub proof fn lemma_while_statement_body_atoms(node: WhileStatementBody)
    ensures
        node.atoms() == {
            match node {
                WhileStatementBody::Statement { statement } => statement.atoms(),
                WhileStatementBody::Block { colon, statements, endwhile, ending } => seq![
                    mark(TokenKind::Colon, colon),
                ] + statements_atoms(statements@) + seq![mark(TokenKind::EndWhile, endwhile)]
                    + ending.atoms(),
            }
        },
{
    reveal_with_fuel(WhileStatementBody::atoms, 1);
    reveal_with_fuel(statements_atoms, 1);
    reveal_with_fuel(Statement::atoms, 1);
}

impl WhileStatement {
    #[verifier::opaque]
    pub open spec fn atoms(self) -> Seq<Atom>
        decreases self, 4int,
    {
        seq![mark(TokenKind::While, self.while_keyword)] + seq![
            mark(TokenKind::LeftParen, self.left_parenthesis),
        ] + self.condition.atoms() + seq![mark(TokenKind::RightParen, self.right_parenthesis)]
            + self.body.atoms()
    }
}

/// The definition of `WhileStatement::atoms`, unfolded once.
pub proof fn lemma_while_statement_atoms(node: WhileStatement)
    ensures
        node.atoms() == {
            seq![mark(TokenKind::While, node.while_keyword)] + seq![
                mark(TokenKind::LeftParen, node.left_parenthesis),
            ] + node.condition.atoms() + seq![mark(TokenKind::RightParen, node.right_parenthesis)]
                + node.body.atoms()
        },
{
    reveal_with_fuel(WhileStatement::atoms, 1);
    reveal_with_fuel(WhileStatementBody::atoms, 1);
}

impl Level {
    pub open spec fn atoms(self) -> Seq<Atom>
        decreases self,
    {
        match self {
            Level::Literal(literal) => literal.atoms(),
            Level::Parenthesized { left_parenthesis, level, right_parenthesis } => seq![
                mark(TokenKind::LeftParen, left_parenthesis),
            ] + level.atoms() + seq![mark(TokenKind::RightParen, right_parenthesis)],
        }
    }
}

/// The atoms of a level, where there is one.
pub open spec fn level_atoms(level: Option<Level>) -> Seq<Atom> {
    match level {
        Some(level) => level.atoms(),
        None => Seq::empty(),
    }
}

impl BreakStatement {
    pub open spec fn atoms(self) -> Seq<Atom> {
        seq![mark(TokenKind::Break, self.break_keyword)] + level_atoms(self.level)
            + self.ending.atoms()
    }
}

impl ContinueStatement {
    pub open spec fn atoms(self) -> Seq<Atom> {
        seq![mark(TokenKind::Continue, self.continue_keyword)] + level_atoms(self.level)
            + self.ending.atoms()
    }
}

} // verus!
