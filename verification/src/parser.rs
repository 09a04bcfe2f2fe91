//! The parser: a cursor over the token stream, and one production for each
//! nonterminal of the grammar.
//!
//! Parsing fails fast: a production hands the first error on as it is, and
//! `parse` returns it in place of the program. There is no list of errors,
//! and nothing is read behind the first.

pub mod error;
pub mod state;
pub mod lossless;
pub mod utils;
pub mod variables;
pub mod expressions;
pub mod blocks;
pub mod statements;
pub mod loops;
pub mod identifiers;
pub mod traits;
pub mod attributes;
pub mod modifiers;
pub mod properties;
pub mod constants;
pub mod functions;

use vstd::prelude::*;
use crate::ast::atom::covers;
use crate::ast::atom::in_order;
use crate::ast::atom::spans_in_order;
use crate::ast::statements::Statement;
use crate::ast::statements::statements_atoms;
use crate::parser::blocks::multiple_statements_until;
use crate::parser::blocks::statement_start;
use crate::parser::blocks::statements_stand_at;
use crate::parser::blocks::statements_until_extent;
use crate::parser::error::Extent;
use crate::parser::error::Failure;
use crate::parser::error::ParseResult;
use crate::parser::error::kind_at;
use crate::parser::lossless::faithful;
use crate::parser::lossless::lemma_lossless_covers;
use crate::parser::lossless::lemma_lossless_placed;
use crate::parser::lossless::lemma_placed_in_order;
use crate::parser::lossless::lossless;
use crate::parser::state::State;
use crate::parser::state::closed;
use crate::parser::state::parsed;
use crate::token::Token;
use crate::token::TokenKind;

verus! {

/// A program is statements up to the sentinel that closes the stream.
pub open spec fn program_extent(tokens: Seq<Token>, pos: int) -> Extent {
    statements_until_extent(tokens, pos, TokenKind::Eof)
}

/// Reads statements up to the end of the stream. It stops at the first
/// error. After success the cursor is on the sentinel.
pub fn program(state: &mut State) -> (r: ParseResult<Vec<Statement>>)
    requires
        old(state).settled(),
    ensures
        parsed(
            *old(state),
            *final(state),
            program_extent(old(state).tokens@, old(state).cursor as int),
            r,
        ),
        r matches Ok(statements) ==> {
            &&& final(state).settled()
            &&& kind_at(final(state).tokens@, final(state).cursor as int) == TokenKind::Eof
            &&& statements_stand_at(statements@, old(state).tokens@, old(state).cursor as int)
            &&& final(state).cursor == statement_start(
                old(state).tokens@,
                old(state).cursor as int,
                statements@.len(),
            )
            &&& lossless(
                statements_atoms(statements@),
                old(state).tokens@,
                old(state).cursor as int,
                final(state).cursor as int,
            )
        },
{
    multiple_statements_until(state, TokenKind::Eof)
}

/// Reads a whole stream of tokens into the statements of the program, or
/// reports the first error in it.
pub fn parse(tokens: Vec<Token>) -> (r: ParseResult<Vec<Statement>>)
    requires
        closed(tokens@),
    ensures
        match r {
            Ok(statements) => {
                let end = statement_start(tokens@, 0, statements@.len());
                &&& program_extent(tokens@, 0) == Ok::<nat, Failure>(end as nat)
                &&& kind_at(tokens@, end) == TokenKind::Eof
                &&& statements_stand_at(statements@, tokens@, 0)
                &&& faithful(tokens@, 0, end) ==> covers(
                    statements_atoms(statements@),
                    tokens@,
                    0,
                    end,
                )
                &&& spans_in_order(tokens@, 0, end) ==> in_order(statements_atoms(statements@))
            },
            Err(e) => program_extent(tokens@, 0) matches Err(failure) && failure.error == e,
        },
{
    let mut state = State::new(tokens);
    let r = program(&mut state);
    proof {
        if r is Ok && faithful(state.tokens@, 0, state.cursor as int) {
            lemma_lossless_covers(
                statements_atoms(r->Ok_0@),
                state.tokens@,
                0,
                state.cursor as int,
            );
        }
        if r is Ok && spans_in_order(state.tokens@, 0, state.cursor as int) {
            lemma_lossless_placed(
                statements_atoms(r->Ok_0@),
                state.tokens@,
                0,
                state.cursor as int,
            );
            lemma_placed_in_order(
                statements_atoms(r->Ok_0@),
                state.tokens@,
                0,
                state.cursor as int,
            );
        }
    }
    r
}

} // verus!
