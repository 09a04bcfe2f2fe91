//! Runs of statements.

use vstd::prelude::*;
use crate::ast::atom::mark;
use crate::ast::statements::BlockStatement;
use crate::ast::statements::Statement;
use crate::ast::statements::lemma_block_statement_atoms;
use crate::ast::statements::lemma_statement_atoms;
use crate::ast::statements::lemma_statements_atoms;
use crate::ast::statements::statements_atoms;
use crate::parser::error::Expectation;
use crate::parser::error::Extent;
use crate::parser::error::ParseResult;
use crate::parser::error::kind_at;
use crate::parser::error::span_at;
use crate::parser::error::stopped;
use crate::parser::lossless::lemma_lossless_join3;
use crate::parser::lossless::lemma_lossless_join;
use crate::parser::lossless::lemma_lossless_mark;
use crate::parser::lossless::lemma_lossless_nothing;
use crate::parser::lossless::lossless;
use crate::parser::state::State;
use crate::parser::state::parsed;
use crate::parser::statements::statement;
use crate::parser::statements::statement_extent;
use crate::parser::utils::after;
use crate::parser::utils::closing;
use crate::parser::utils::remaining;
use crate::parser::utils::skip_left_brace;
use crate::parser::utils::skip_right_brace;
use crate::token::Token;
use crate::token::TokenKind;

verus! {

/// Statements, one after the other, up to a token of kind `until`, which is
/// left in place. (The test on what a statement takes makes the definition
/// well-founded. It never fails: see `lemma_statement_takes_tokens`.)
#[verifier::opaque]
pub open spec fn statements_until_extent(tokens: Seq<Token>, pos: int, until: TokenKind) -> Extent
    decreases remaining(tokens, pos), 2int,
{
    if kind_at(tokens, pos) == until {
        Ok(0)
    } else {
        match statement_extent(tokens, pos) {
            Err(e) => Err(e),
            Ok(n) => if 0 < n && pos < tokens.len() {
                after(n, statements_until_extent(tokens, pos + n, until))
            } else {
                Ok(n)
            },
        }
    }
}

/// The definition of `statements_until_extent`, unfolded once.
pub proof fn lemma_statements_until_extent(tokens: Seq<Token>, pos: int, until: TokenKind)
    ensures
        statements_until_extent(tokens, pos, until) == {
            if kind_at(tokens, pos) == until {
                Ok(0)
            } else {
                match statement_extent(tokens, pos) {
                    Err(e) => Err(e),
                    Ok(n) => if 0 < n && pos < tokens.len() {
                        after(n, statements_until_extent(tokens, pos + n, until))
                    } else {
                        Ok(n)
                    },
                }
            }
        },
{
    reveal_with_fuel(statements_until_extent, 1);
    reveal_with_fuel(statement_extent, 1);
}

/// Where statement `i` of a run starts, if the run starts at `pos`.
pub open spec fn statement_start(tokens: Seq<Token>, pos: int, i: nat) -> int
    decreases i,
{
    if i == 0 {
        pos
    } else {
        let before = statement_start(tokens, pos, (i - 1) as nat);
        match statement_extent(tokens, before) {
            Ok(n) => before + n,
            Err(_) => before,
        }
    }
}

/// Each of the statements is the tree of the statement that starts where
/// the one before it ends, the first of them at `pos`.
#[verifier::opaque]
pub open spec fn statements_stand_at(
    statements: Seq<Statement>,
    tokens: Seq<Token>,
    pos: int,
) -> bool
    decreases statements, 0int,
{
    if statements.len() == 0 {
        true
    } else {
        &&& statements_stand_at(statements.drop_last(), tokens, pos)
        &&& statements.last().stands_at(
            tokens,
            statement_start(tokens, pos, (statements.len() - 1) as nat),
        )
    }
}

/// The definition of `statements_stand_at`, unfolded once.
pub proof fn lemma_statements_stand_at(statements: Seq<Statement>, tokens: Seq<Token>, pos: int)
    ensures
        statements_stand_at(statements, tokens, pos) == {
            if statements.len() == 0 {
                true
            } else {
                &&& statements_stand_at(statements.drop_last(), tokens, pos)
                &&& statements.last().stands_at(
                    tokens,
                    statement_start(tokens, pos, (statements.len() - 1) as nat),
                )
            }
        },
{
    reveal_with_fuel(statements_stand_at, 1);
    reveal_with_fuel(Statement::stands_at, 1);
}

/// `{`, statements, `}`.
#[verifier::opaque]
pub open spec fn block_statement_extent(tokens: Seq<Token>, pos: int) -> Extent
    decreases remaining(tokens, pos), 0int,
{
    if kind_at(tokens, pos) == TokenKind::LeftBrace {
        after(
            1,
            closing(
                tokens,
                pos + 1,
                statements_until_extent(tokens, pos + 1, TokenKind::RightBrace),
                TokenKind::RightBrace,
            ),
        )
    } else {
        stopped(tokens, pos, pos, Expectation::Token(TokenKind::LeftBrace))
    }
}

/// The definition of `block_statement_extent`, unfolded once.
pub proof fn lemma_block_statement_extent(tokens: Seq<Token>, pos: int)
    ensures
        block_statement_extent(tokens, pos) == {
            if kind_at(tokens, pos) == TokenKind::LeftBrace {
                after(
                    1,
                    closing(
                        tokens,
                        pos + 1,
                        statements_until_extent(tokens, pos + 1, TokenKind::RightBrace),
                        TokenKind::RightBrace,
                    ),
                )
            } else {
                stopped(tokens, pos, pos, Expectation::Token(TokenKind::LeftBrace))
            }
        },
{
    reveal_with_fuel(block_statement_extent, 1);
    reveal_with_fuel(statements_until_extent, 1);
}

impl BlockStatement {
    /// The node is the tree of the block that starts at `pos`.
    #[verifier::opaque]
    pub open spec fn stands_at(self, tokens: Seq<Token>, pos: int) -> bool
        decreases self, 1int,
    {
        let end = statement_start(tokens, pos + 1, self.statements@.len());
        &&& self.left_brace == span_at(tokens, pos)
        &&& statements_stand_at(self.statements@, tokens, pos + 1)
        &&& kind_at(tokens, end) == TokenKind::RightBrace
        &&& self.right_brace == span_at(tokens, end)
    }
}

/// The definition of `BlockStatement::stands_at`, unfolded once.
pub proof fn lemma_block_statement_stands_at(node: BlockStatement, tokens: Seq<Token>, pos: int)
    ensures
        node.stands_at(tokens, pos) == {
            let end = statement_start(tokens, pos + 1, node.statements@.len());
            &&& node.left_brace == span_at(tokens, pos)
            &&& statements_stand_at(node.statements@, tokens, pos + 1)
            &&& kind_at(tokens, end) == TokenKind::RightBrace
            &&& node.right_brace == span_at(tokens, end)
        },
{
    reveal_with_fuel(BlockStatement::stands_at, 1);
    reveal_with_fuel(statements_stand_at, 1);
}

/// Reads statements until the token under the cursor is of kind `until`.
pub fn multiple_statements_until(state: &mut State, until: TokenKind) -> (r: ParseResult<
    Vec<Statement>,
>)
    requires
        old(state).settled(),
    ensures
        parsed(
            *old(state),
            *final(state),
            statements_until_extent(old(state).tokens@, old(state).cursor as int, until),
            r,
        ),
        r matches Ok(statements) ==> {
            &&& final(state).settled()
            &&& statements_stand_at(statements@, old(state).tokens@, old(state).cursor as int)
            &&& final(state).cursor == statement_start(
                old(state).tokens@,
                old(state).cursor as int,
                statements@.len(),
            )
            &&& kind_at(old(state).tokens@, final(state).cursor as int) == until
        },
        r matches Ok(statements) ==> lossless(
            statements_atoms(statements@),
            old(state).tokens@,
            old(state).cursor as int,
            final(state).cursor as int,
        ),
    decreases remaining(old(state).tokens@, old(state).cursor as int), 2int,
{
    let ghost tokens = state.tokens@;
    let ghost start = state.cursor as int;
    let mut statements: Vec<Statement> = Vec::new();
    proof {
        lemma_statements_stand_at(statements@, tokens, start);
        lemma_statements_atoms(statements@);
        lemma_lossless_nothing(tokens, start);
    }
    while state.current().kind != until
        invariant
            state.settled(),
            state.tokens@ == tokens,
            tokens == old(state).tokens@,
            start == old(state).cursor,
            start <= state.cursor,
            state.cursor == statement_start(tokens, start, statements@.len()),
            statements_stand_at(statements@, tokens, start),
            statements_until_extent(tokens, start, until) == after(
                (state.cursor - start) as nat,
                statements_until_extent(tokens, state.cursor as int, until),
            ),
            lossless(statements_atoms(statements@), tokens, start, state.cursor as int),
        decreases tokens.len() - state.cursor,
    {
        let ghost before = statements@;
        let ghost here = state.cursor as int;
        proof {
            lemma_statements_until_extent(tokens, here, until);
        }
        let next = statement(state)?;
        let ghost read = next.atoms();
        statements.push(next);
        proof {
            assert(statements@.drop_last() =~= before);
            assert(statement_start(tokens, start, before.len()) == here);
            lemma_statements_stand_at(statements@, tokens, start);
            lemma_statements_atoms(statements@);
            lemma_lossless_join(
                statements_atoms(before),
                read,
                tokens,
                start,
                here,
                state.cursor as int,
            );
        }
    }
    proof {
        lemma_statements_until_extent(tokens, state.cursor as int, until);
    }
    Ok(statements)
}

/// Reads `{`, statements, `}`.
pub fn block_statement(state: &mut State) -> (r: ParseResult<Statement>)
    requires
        old(state).settled(),
    ensures
        parsed(
            *old(state),
            *final(state),
            block_statement_extent(old(state).tokens@, old(state).cursor as int),
            r,
        ),
        r matches Ok(node) ==> {
            &&& final(state).settled()
            &&& old(state).cursor < final(state).cursor
            &&& node matches Statement::Block(inner) && inner.stands_at(
                old(state).tokens@,
                old(state).cursor as int,
            )
        },
        r matches Ok(node) ==> lossless(
            node.atoms(),
            old(state).tokens@,
            old(state).cursor as int,
            final(state).cursor as int,
        ),
    decreases remaining(old(state).tokens@, old(state).cursor as int), 0int,
{
    let ghost tokens = state.tokens@;
    let ghost pos = state.cursor as int;
    proof {
        lemma_block_statement_extent(tokens, pos);
    }
    let left_brace = skip_left_brace(state)?;
    let statements = multiple_statements_until(state, TokenKind::RightBrace)?;
    let ghost close = state.cursor as int;
    let right_brace = skip_right_brace(state)?;
    let node = BlockStatement { left_brace, statements, right_brace };
    proof {
        lemma_block_statement_stands_at(node, tokens, pos);
        lemma_lossless_mark(TokenKind::LeftBrace, left_brace, tokens, pos);
        lemma_lossless_mark(TokenKind::RightBrace, right_brace, tokens, close);
        lemma_lossless_join3(
            seq![mark(TokenKind::LeftBrace, left_brace)],
            statements_atoms(node.statements@),
            seq![mark(TokenKind::RightBrace, right_brace)],
            tokens,
            pos,
            pos + 1,
            close,
            close + 1,
        );
        lemma_block_statement_atoms(node);
        lemma_statement_atoms(Statement::Block(node));
    }
    Ok(Statement::Block(node))
}

} // verus!
