//! Statements.

use vstd::prelude::*;
use crate::ast::atom::Atom;
use crate::ast::attributes::groups_atoms;
use crate::ast::loops::DoWhileStatement;
use crate::ast::loops::ForStatement;
use crate::ast::loops::ForeachStatement;
use crate::ast::loops::WhileStatement;
use crate::ast::statements::BlockStatement;
use crate::ast::statements::ExpressionStatement;
use crate::ast::statements::Statement;
use crate::ast::statements::lemma_statement_atoms;
use crate::ast::traits::TraitStatement;
use crate::ast::traits::lemma_trait_statement_atoms;
use crate::parser::blocks::block_statement;
use crate::parser::blocks::block_statement_extent;
use crate::parser::blocks::lemma_block_statement_extent;
use crate::parser::error::Extent;
use crate::parser::error::ParseResult;
use crate::parser::error::kind_at;
use crate::parser::error::span_at;
use crate::parser::expressions::create;
use crate::parser::expressions::expression_extent;
use crate::parser::loops::break_statement;
use crate::parser::loops::continue_statement;
use crate::parser::loops::do_while_statement;
use crate::parser::loops::do_while_statement_extent;
use crate::parser::loops::for_statement;
use crate::parser::loops::for_statement_extent;
use crate::parser::loops::foreach_statement;
use crate::parser::loops::foreach_statement_extent;
use crate::parser::loops::leave_extent;
use crate::parser::loops::lemma_do_while_statement_extent;
use crate::parser::loops::lemma_for_statement_extent;
use crate::parser::loops::lemma_foreach_statement_extent;
use crate::parser::loops::lemma_while_statement_extent;
use crate::parser::loops::while_statement;
use crate::parser::loops::while_statement_extent;
use crate::parser::lossless::lemma_lossless_join;
use crate::parser::lossless::lemma_lossless_mark;
use crate::parser::lossless::lossless;
use crate::parser::state::State;
use crate::parser::state::parsed;
use crate::parser::traits::lemma_trait_extent;
use crate::parser::traits::trait_extent;
use crate::parser::utils::ending_after;
use crate::parser::utils::remaining;
use crate::parser::utils::skip_ending;
use crate::token::Token;
use crate::token::TokenKind;

verus! {

/// A statement is told by its first token: a loop, a statement that
/// leaves one, a trait, a block, an empty statement `;`, or else an
/// expression with its ending.
#[verifier::opaque]
pub open spec fn statement_extent(tokens: Seq<Token>, pos: int) -> Extent
    decreases remaining(tokens, pos), 1int,
{
    match kind_at(tokens, pos) {
        TokenKind::Foreach => foreach_statement_extent(tokens, pos),
        TokenKind::For => for_statement_extent(tokens, pos),
        TokenKind::Do => do_while_statement_extent(tokens, pos),
        TokenKind::While => while_statement_extent(tokens, pos),
        TokenKind::Break => leave_extent(tokens, pos, TokenKind::Break),
        TokenKind::Continue => leave_extent(tokens, pos, TokenKind::Continue),
        TokenKind::Trait => trait_extent(tokens, pos),
        TokenKind::LeftBrace => block_statement_extent(tokens, pos),
        TokenKind::SemiColon => Ok(1),
        _ => ending_after(tokens, pos, expression_extent(tokens, pos)),
    }
}

/// The definition of `statement_extent`, unfolded once.
pub proof fn lemma_statement_extent(tokens: Seq<Token>, pos: int)
    ensures
        statement_extent(tokens, pos) == {
            match kind_at(tokens, pos) {
                TokenKind::Foreach => foreach_statement_extent(tokens, pos),
                TokenKind::For => for_statement_extent(tokens, pos),
                TokenKind::Do => do_while_statement_extent(tokens, pos),
                TokenKind::While => while_statement_extent(tokens, pos),
                TokenKind::Break => leave_extent(tokens, pos, TokenKind::Break),
                TokenKind::Continue => leave_extent(tokens, pos, TokenKind::Continue),
                TokenKind::Trait => trait_extent(tokens, pos),
                TokenKind::LeftBrace => block_statement_extent(tokens, pos),
                TokenKind::SemiColon => Ok(1),
                _ => ending_after(tokens, pos, expression_extent(tokens, pos)),
            }
        },
{
    reveal_with_fuel(statement_extent, 1);
    reveal_with_fuel(foreach_statement_extent, 1);
    reveal_with_fuel(for_statement_extent, 1);
    reveal_with_fuel(do_while_statement_extent, 1);
    reveal_with_fuel(while_statement_extent, 1);
    reveal_with_fuel(block_statement_extent, 1);
    reveal_with_fuel(trait_extent, 1);
}

/// The kinds of token by which a statement other than an expression
/// statement is told.
pub open spec fn opens_statement(kind: TokenKind) -> bool {
    match kind {
        TokenKind::Foreach
        | TokenKind::For
        | TokenKind::Do
        | TokenKind::While
        | TokenKind::Break
        | TokenKind::Continue
        | TokenKind::Trait
        | TokenKind::LeftBrace
        | TokenKind::SemiColon => true,
        _ => false,
    }
}

impl ExpressionStatement {
    /// The node is the tree of the expression statement that starts at `pos`.
    pub open spec fn stands_at(self, tokens: Seq<Token>, pos: int) -> bool {
        &&& self.expression.stands_at(tokens, pos)
        &&& expression_extent(tokens, pos) matches Ok(n) && self.ending.stands_at(tokens, pos + n)
    }
}

impl Statement {
    /// The node is the tree of the statement that starts at `pos`.
    #[verifier::opaque]
    pub open spec fn stands_at(self, tokens: Seq<Token>, pos: int) -> bool
        decreases self, 2int,
    {
        match self {
            Statement::Foreach(node) => kind_at(tokens, pos) == TokenKind::Foreach
                && node.stands_at(tokens, pos),
            Statement::For(node) => kind_at(tokens, pos) == TokenKind::For && node.stands_at(
                tokens,
                pos,
            ),
            Statement::DoWhile(node) => kind_at(tokens, pos) == TokenKind::Do && node.stands_at(
                tokens,
                pos,
            ),
            Statement::While(node) => kind_at(tokens, pos) == TokenKind::While && node.stands_at(
                tokens,
                pos,
            ),
            Statement::Break(node) => kind_at(tokens, pos) == TokenKind::Break && node.stands_at(
                tokens,
                pos,
            ),
            Statement::Continue(node) => kind_at(tokens, pos) == TokenKind::Continue
                && node.stands_at(tokens, pos),
            Statement::Block(node) => kind_at(tokens, pos) == TokenKind::LeftBrace
                && node.stands_at(tokens, pos),
            Statement::Noop(span) => kind_at(tokens, pos) == TokenKind::SemiColon && span
                == span_at(tokens, pos),
            Statement::Trait(node) => kind_at(tokens, pos) == TokenKind::Trait
                && node.attributes@.len() == 0 && node.stands_at(tokens, pos),
            Statement::Expression(node) => !opens_statement(kind_at(tokens, pos))
                && node.stands_at(tokens, pos),
        }
    }
}

/// The definition of `Statement::stands_at`, unfolded once.
pub proof fn lemma_statement_stands_at(node: Statement, tokens: Seq<Token>, pos: int)
    ensures
        node.stands_at(tokens, pos) == {
            match node {
                Statement::Foreach(node) => kind_at(tokens, pos) == TokenKind::Foreach
                    && node.stands_at(tokens, pos),
                Statement::For(node) => kind_at(tokens, pos) == TokenKind::For && node.stands_at(
                    tokens,
                    pos,
                ),
                Statement::DoWhile(node) => kind_at(tokens, pos) == TokenKind::Do && node.stands_at(
                    tokens,
                    pos,
                ),
                Statement::While(node) => kind_at(tokens, pos) == TokenKind::While && node.stands_at(
                    tokens,
                    pos,
                ),
                Statement::Break(node) => kind_at(tokens, pos) == TokenKind::Break && node.stands_at(
                    tokens,
                    pos,
                ),
                Statement::Continue(node) => kind_at(tokens, pos) == TokenKind::Continue
                    && node.stands_at(tokens, pos),
                Statement::Block(node) => kind_at(tokens, pos) == TokenKind::LeftBrace
                    && node.stands_at(tokens, pos),
                Statement::Noop(span) => kind_at(tokens, pos) == TokenKind::SemiColon && span
                    == span_at(tokens, pos),
                Statement::Trait(node) => kind_at(tokens, pos) == TokenKind::Trait
                    && node.attributes@.len() == 0 && node.stands_at(tokens, pos),
                Statement::Expression(node) => !opens_statement(kind_at(tokens, pos))
                    && node.stands_at(tokens, pos),
            }
        },
{
    reveal_with_fuel(Statement::stands_at, 1);
    reveal_with_fuel(ForeachStatement::stands_at, 1);
    reveal_with_fuel(ForStatement::stands_at, 1);
    reveal_with_fuel(DoWhileStatement::stands_at, 1);
    reveal_with_fuel(WhileStatement::stands_at, 1);
    reveal_with_fuel(BlockStatement::stands_at, 1);
    reveal_with_fuel(TraitStatement::stands_at, 1);
}

/// Reads one statement.
pub fn statement(state: &mut State) -> (r: ParseResult<Statement>)
    requires
        old(state).settled(),
    ensures
        parsed(
            *old(state),
            *final(state),
            statement_extent(old(state).tokens@, old(state).cursor as int),
            r,
        ),
        r matches Ok(node) ==> {
            &&& final(state).settled()
            &&& old(state).cursor < final(state).cursor
            &&& node.stands_at(old(state).tokens@, old(state).cursor as int)
        },
        r matches Ok(node) ==> lossless(
            node.atoms(),
            old(state).tokens@,
            old(state).cursor as int,
            final(state).cursor as int,
        ),
    decreases remaining(old(state).tokens@, old(state).cursor as int), 1int,
{
    let ghost tokens = state.tokens@;
    let ghost pos = state.cursor as int;
    proof {
        lemma_statement_extent(tokens, pos);
    }
    let current = state.current();
    let kind = current.kind;
    let span = current.span;
    match kind {
        TokenKind::Foreach => {
            let r = foreach_statement(state);
            proof {
                if r is Ok {
                    lemma_statement_stands_at(r->Ok_0, tokens, pos);
                }
            }
            r
        },
        TokenKind::For => {
            let r = for_statement(state);
            proof {
                if r is Ok {
                    lemma_statement_stands_at(r->Ok_0, tokens, pos);
                }
            }
            r
        },
        TokenKind::Do => {
            let r = do_while_statement(state);
            proof {
                if r is Ok {
                    lemma_statement_stands_at(r->Ok_0, tokens, pos);
                }
            }
            r
        },
        TokenKind::While => {
            let r = while_statement(state);
            proof {
                if r is Ok {
                    lemma_statement_stands_at(r->Ok_0, tokens, pos);
                }
            }
            r
        },
        TokenKind::Break => {
            let r = break_statement(state);
            proof {
                if r is Ok {
                    lemma_statement_stands_at(r->Ok_0, tokens, pos);
                }
            }
            r
        },
        TokenKind::Continue => {
            let r = continue_statement(state);
            proof {
                if r is Ok {
                    lemma_statement_stands_at(r->Ok_0, tokens, pos);
                }
            }
            r
        },
        TokenKind::Trait => {
            let r = crate::parser::traits::parse(state);
            proof {
                if r is Ok {
                    let node = r->Ok_0;
                    let declaration = node->Trait_0;
                    lemma_statement_stands_at(node, tokens, pos);
                    lemma_statement_atoms(node);
                    lemma_trait_statement_atoms(declaration);
                    assert(groups_atoms(declaration.attributes@) =~= Seq::<Atom>::empty());
                    assert(node.atoms() =~= declaration.own_atoms());
                }
            }
            r
        },
        TokenKind::LeftBrace => {
            let r = block_statement(state);
            proof {
                if r is Ok {
                    lemma_statement_stands_at(r->Ok_0, tokens, pos);
                }
            }
            r
        },
        TokenKind::SemiColon => {
            state.next();
            let node = Statement::Noop(span);
            proof {
                lemma_statement_stands_at(node, tokens, pos);
                lemma_lossless_mark(TokenKind::SemiColon, span, tokens, pos);
                lemma_statement_atoms(node);
            }
            Ok(node)
        },
        _ => {
            let expression = create(state)?;
            let ghost read = expression.atoms();
            let ghost p_ending = state.cursor as int;
            let ending = skip_ending(state)?;
            let node = Statement::Expression(ExpressionStatement { expression, ending });
            proof {
                lemma_statement_stands_at(node, tokens, pos);
                lemma_lossless_join(
                    read,
                    ending.atoms(),
                    tokens,
                    pos,
                    p_ending,
                    state.cursor as int,
                );
                lemma_statement_atoms(node);
            }
            Ok(node)
        },
    }
}

/// A statement takes at least one token, and none from behind the end of
/// the stream.
pub proof fn lemma_statement_takes_tokens(tokens: Seq<Token>, pos: int)
    requires
        0 <= pos,
        statement_extent(tokens, pos) is Ok,
    ensures
        statement_extent(tokens, pos)->Ok_0 > 0,
        pos < tokens.len(),
{
    lemma_statement_extent(tokens, pos);
    lemma_foreach_statement_extent(tokens, pos);
    lemma_for_statement_extent(tokens, pos);
    lemma_do_while_statement_extent(tokens, pos);
    lemma_while_statement_extent(tokens, pos);
    lemma_block_statement_extent(tokens, pos);
    lemma_trait_extent(tokens, pos);
}

} // verus!
