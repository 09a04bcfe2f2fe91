//! Loops, and the statements that leave them.

use vstd::prelude::*;
use crate::ast::atom::Atom;
use crate::ast::atom::mark;
use crate::ast::atom::spans_in_order;
use crate::ast::literals::LiteralInteger;
use crate::ast::loops::BreakStatement;
use crate::ast::loops::ContinueStatement;
use crate::ast::loops::DoWhileStatement;
use crate::ast::loops::ForStatement;
use crate::ast::loops::ForStatementBody;
use crate::ast::loops::ForStatementIterator;
use crate::ast::loops::ForeachStatement;
use crate::ast::loops::ForeachStatementBody;
use crate::ast::loops::ForeachStatementIterator;
use crate::ast::loops::Level;
use crate::ast::loops::WhileStatement;
use crate::ast::loops::WhileStatementBody;
use crate::ast::loops::lemma_do_while_statement_atoms;
use crate::ast::loops::lemma_for_statement_atoms;
use crate::ast::loops::lemma_for_statement_body_atoms;
use crate::ast::loops::lemma_foreach_statement_atoms;
use crate::ast::loops::lemma_foreach_statement_body_atoms;
use crate::ast::loops::lemma_while_statement_atoms;
use crate::ast::loops::lemma_while_statement_body_atoms;
use crate::ast::loops::level_atoms;
use crate::ast::loops::reference_atoms;
use crate::ast::statements::Statement;
use crate::ast::statements::lemma_statement_atoms;
use crate::ast::statements::statements_atoms;
use crate::ast::utils::expressions_atoms;
use crate::parser::blocks::multiple_statements_until;
use crate::parser::blocks::statement_start;
use crate::parser::blocks::statements_stand_at;
use crate::parser::blocks::statements_until_extent;
use crate::parser::error::Expectation;
use crate::parser::error::Extent;
use crate::parser::error::ParseResult;
use crate::parser::error::kind_at;
use crate::parser::error::later;
use crate::parser::error::span_at;
use crate::parser::error::stopped;
use crate::parser::expressions::create;
use crate::parser::expressions::expression_extent;
use crate::parser::lossless::double_reference;
use crate::parser::lossless::faithful;
use crate::parser::lossless::kept;
use crate::parser::lossless::lemma_lossless_join3;
use crate::parser::lossless::lemma_lossless_join4;
use crate::parser::lossless::lemma_lossless_join5;
use crate::parser::lossless::lemma_lossless_join7;
use crate::parser::lossless::lemma_lossless_lexeme;
use crate::parser::lossless::lemma_lossless_mark;
use crate::parser::lossless::lemma_lossless_nothing;
use crate::parser::lossless::lemma_lossless_placed;
use crate::parser::lossless::lemma_lossless_unfaithful;
use crate::parser::lossless::lemma_placed_around;
use crate::parser::lossless::lemma_placed_join7;
use crate::parser::lossless::lemma_placed_nothing;
use crate::parser::lossless::lemma_placed_unordered;
use crate::parser::lossless::lossless;
use crate::parser::state::State;
use crate::parser::state::parsed;
use crate::parser::statements::statement;
use crate::parser::statements::statement_extent;
use crate::parser::utils::after;
use crate::parser::utils::closing;
use crate::parser::utils::comma_separated_extent;
use crate::parser::utils::comma_separated_no_trailing;
use crate::parser::utils::ending_after;
use crate::parser::utils::ending_extent;
use crate::parser::utils::opening;
use crate::parser::utils::parenthesized;
use crate::parser::utils::parenthesized_extent;
use crate::parser::utils::remaining;
use crate::parser::utils::semicolon_terminated;
use crate::parser::utils::semicolon_terminated_extent;
use crate::parser::utils::skip;
use crate::parser::utils::skip_colon;
use crate::parser::utils::skip_ending;
use crate::parser::utils::skip_left_parenthesis;
use crate::parser::utils::skip_right_parenthesis;
use crate::parser::utils::skip_semicolon;
use crate::parser::utils::value_at;
use crate::span::Span;
use crate::token::Token;
use crate::token::TokenKind;

verus! {

/// The body of a loop: after `:`, statements up to the keyword `end` that
/// closes the loop, that keyword and an ending; otherwise one statement.
#[verifier::opaque]
pub open spec fn loop_body_extent(tokens: Seq<Token>, pos: int, end: TokenKind) -> Extent
    decreases remaining(tokens, pos), 2int,
{
    if kind_at(tokens, pos) == TokenKind::Colon {
        after(
            1,
            ending_after(
                tokens,
                pos + 1,
                closing(tokens, pos + 1, statements_until_extent(tokens, pos + 1, end), end),
            ),
        )
    } else {
        statement_extent(tokens, pos)
    }
}

/// The definition of `loop_body_extent`, unfolded once.
pub proof fn lemma_loop_body_extent(tokens: Seq<Token>, pos: int, end: TokenKind)
    ensures
        loop_body_extent(tokens, pos, end) == {
            if kind_at(tokens, pos) == TokenKind::Colon {
                after(
                    1,
                    ending_after(
                        tokens,
                        pos + 1,
                        closing(tokens, pos + 1, statements_until_extent(tokens, pos + 1, end), end),
                    ),
                )
            } else {
                statement_extent(tokens, pos)
            }
        },
{
    reveal_with_fuel(loop_body_extent, 1);
    reveal_with_fuel(statements_until_extent, 1);
    reveal_with_fuel(statement_extent, 1);
}

/// `while`, a condition in parentheses, and the body.
#[verifier::opaque]
pub open spec fn while_statement_extent(tokens: Seq<Token>, pos: int) -> Extent
    decreases remaining(tokens, pos), 0int,
{
    if kind_at(tokens, pos) == TokenKind::While {
        match parenthesized_extent(tokens, pos + 1) {
            Err(e) => later(1, e),
            Ok(n) => after(1 + n, loop_body_extent(tokens, pos + 1 + n, TokenKind::EndWhile)),
        }
    } else {
        stopped(tokens, pos, pos, Expectation::Token(TokenKind::While))
    }
}

/// The definition of `while_statement_extent`, unfolded once.
pub proof fn lemma_while_statement_extent(tokens: Seq<Token>, pos: int)
    ensures
        while_statement_extent(tokens, pos) == {
            if kind_at(tokens, pos) == TokenKind::While {
                match parenthesized_extent(tokens, pos + 1) {
                    Err(e) => later(1, e),
                    Ok(n) => after(1 + n, loop_body_extent(tokens, pos + 1 + n, TokenKind::EndWhile)),
                }
            } else {
                stopped(tokens, pos, pos, Expectation::Token(TokenKind::While))
            }
        },
{
    reveal_with_fuel(while_statement_extent, 1);
    reveal_with_fuel(loop_body_extent, 1);
}

impl WhileStatementBody {
    /// The node is the tree of the loop body that starts at `pos`: a block
    /// if and only if `:` stands there.
    #[verifier::opaque]
    pub open spec fn stands_at(self, tokens: Seq<Token>, pos: int) -> bool
        decreases self, 3int,
    {
        match self {
            WhileStatementBody::Statement { statement } => kind_at(tokens, pos)
                != TokenKind::Colon && statement.stands_at(tokens, pos),
            WhileStatementBody::Block { colon, statements, endwhile, ending } => {
                let end = statement_start(tokens, pos + 1, statements@.len());
                &&& kind_at(tokens, pos) == TokenKind::Colon
                &&& colon == span_at(tokens, pos)
                &&& statements_stand_at(statements@, tokens, pos + 1)
                &&& kind_at(tokens, end) == TokenKind::EndWhile
                &&& endwhile == span_at(tokens, end)
                &&& ending.stands_at(tokens, end + 1)
            },
        }
    }
}

/// The definition of `WhileStatementBody::stands_at`, unfolded once.
pub proof fn lemma_while_statement_body_stands_at(
    node: WhileStatementBody,
    tokens: Seq<Token>,
    pos: int,
)
    ensures
        node.stands_at(tokens, pos) == {
            match node {
                WhileStatementBody::Statement { statement } => kind_at(tokens, pos)
                    != TokenKind::Colon && statement.stands_at(tokens, pos),
                WhileStatementBody::Block { colon, statements, endwhile, ending } => {
                    let end = statement_start(tokens, pos + 1, statements@.len());
                    &&& kind_at(tokens, pos) == TokenKind::Colon
                    &&& colon == span_at(tokens, pos)
                    &&& statements_stand_at(statements@, tokens, pos + 1)
                    &&& kind_at(tokens, end) == TokenKind::EndWhile
                    &&& endwhile == span_at(tokens, end)
                    &&& ending.stands_at(tokens, end + 1)
                },
            }
        },
{
    reveal_with_fuel(WhileStatementBody::stands_at, 1);
    reveal_with_fuel(statements_stand_at, 1);
    reveal_with_fuel(Statement::stands_at, 1);
}

impl WhileStatement {
    /// The node is the tree of the `while` loop that starts at `pos`.
    #[verifier::opaque]
    pub open spec fn stands_at(self, tokens: Seq<Token>, pos: int) -> bool
        decreases self, 4int,
    {
        &&& self.while_keyword == span_at(tokens, pos)
        &&& self.left_parenthesis == span_at(tokens, pos + 1)
        &&& self.condition.stands_at(tokens, pos + 2)
        &&& expression_extent(tokens, pos + 2) matches Ok(n) && {
            &&& self.right_parenthesis == span_at(tokens, pos + 2 + n)
            &&& self.body.stands_at(tokens, pos + 3 + n)
        }
    }
}

/// The definition of `WhileStatement::stands_at`, unfolded once.
pub proof fn lemma_while_statement_stands_at(node: WhileStatement, tokens: Seq<Token>, pos: int)
    ensures
        node.stands_at(tokens, pos) == {
            &&& node.while_keyword == span_at(tokens, pos)
            &&& node.left_parenthesis == span_at(tokens, pos + 1)
            &&& node.condition.stands_at(tokens, pos + 2)
            &&& expression_extent(tokens, pos + 2) matches Ok(n) && {
                &&& node.right_parenthesis == span_at(tokens, pos + 2 + n)
                &&& node.body.stands_at(tokens, pos + 3 + n)
            }
        },
{
    reveal_with_fuel(WhileStatement::stands_at, 1);
    reveal_with_fuel(WhileStatementBody::stands_at, 1);
}

/// Reads the body of a `while` loop.
pub fn while_statement_body(state: &mut State) -> (r: ParseResult<WhileStatementBody>)
    requires
        old(state).settled(),
    ensures
        parsed(
            *old(state),
            *final(state),
            loop_body_extent(old(state).tokens@, old(state).cursor as int, TokenKind::EndWhile),
            r,
        ),
        r matches Ok(body) ==> {
            &&& final(state).settled()
            &&& body.stands_at(old(state).tokens@, old(state).cursor as int)
            &&& body is Block <==> kind_at(old(state).tokens@, old(state).cursor as int)
                == TokenKind::Colon
        },
        r matches Ok(body) ==> lossless(
            body.atoms(),
            old(state).tokens@,
            old(state).cursor as int,
            final(state).cursor as int,
        ),
    decreases remaining(old(state).tokens@, old(state).cursor as int), 2int,
{
    let ghost tokens = state.tokens@;
    let ghost pos = state.cursor as int;
    proof {
        lemma_loop_body_extent(tokens, pos, TokenKind::EndWhile);
    }
    if state.current().kind == TokenKind::Colon {
        let colon = skip_colon(state)?;
        let statements = multiple_statements_until(state, TokenKind::EndWhile)?;
        let ghost close = state.cursor as int;
        let ghost inner = statements_atoms(statements@);
        let endwhile = skip(state, TokenKind::EndWhile)?;
        let ending = skip_ending(state)?;
        let body = WhileStatementBody::Block { colon, statements, endwhile, ending };
        proof {
            lemma_while_statement_body_stands_at(body, tokens, pos);
            lemma_lossless_mark(TokenKind::Colon, colon, tokens, pos);
            lemma_lossless_mark(TokenKind::EndWhile, endwhile, tokens, close);
            lemma_lossless_join4(
                seq![mark(TokenKind::Colon, colon)],
                inner,
                seq![mark(TokenKind::EndWhile, endwhile)],
                ending.atoms(),
                tokens,
                pos,
                pos + 1,
                close,
                close + 1,
                state.cursor as int,
            );
            lemma_while_statement_body_atoms(body);
        }
        Ok(body)
    } else {
        let inner = statement(state)?;
        let body = WhileStatementBody::Statement { statement: Box::new(inner) };
        proof {
            lemma_while_statement_body_stands_at(body, tokens, pos);
            lemma_while_statement_body_atoms(body);
        }
        Ok(body)
    }
}

/// Reads a `while` loop.
pub fn while_statement(state: &mut State) -> (r: ParseResult<Statement>)
    requires
        old(state).settled(),
    ensures
        parsed(
            *old(state),
            *final(state),
            while_statement_extent(old(state).tokens@, old(state).cursor as int),
            r,
        ),
        r matches Ok(node) ==> {
            &&& final(state).settled()
            &&& old(state).cursor < final(state).cursor
            &&& node matches Statement::While(inner) && inner.stands_at(
                old(state).tokens@,
                old(state).cursor as int,
            )
        },
        r matches Ok(node) ==> lossless(
            node.atoms(),
            old(state).tokens@,
            old(state).cursor as int,
            final(state).cursor as int,
        ),
    decreases remaining(old(state).tokens@, old(state).cursor as int), 0int,
{
    let ghost tokens = state.tokens@;
    let ghost pos = state.cursor as int;
    proof {
        lemma_while_statement_extent(tokens, pos);
    }
    let while_keyword = skip(state, TokenKind::While)?;
    let (left_parenthesis, condition, right_parenthesis) = parenthesized(state)?;
    let ghost p_body = state.cursor as int;
    let body = while_statement_body(state)?;
    let node = WhileStatement {
        while_keyword,
        left_parenthesis,
        condition,
        right_parenthesis,
        body,
    };
    proof {
        lemma_while_statement_stands_at(node, tokens, pos);
        lemma_lossless_mark(TokenKind::While, while_keyword, tokens, pos);
        lemma_lossless_mark(TokenKind::LeftParen, left_parenthesis, tokens, pos + 1);
        lemma_lossless_mark(TokenKind::RightParen, right_parenthesis, tokens, p_body - 1);
        lemma_lossless_join5(
            seq![mark(TokenKind::While, while_keyword)],
            seq![mark(TokenKind::LeftParen, left_parenthesis)],
            node.condition.atoms(),
            seq![mark(TokenKind::RightParen, right_parenthesis)],
            node.body.atoms(),
            tokens,
            pos,
            pos + 1,
            pos + 2,
            p_body - 1,
            p_body,
            state.cursor as int,
        );
        lemma_while_statement_atoms(node);
        lemma_statement_atoms(Statement::While(node));
    }
    Ok(Statement::While(node))
}

/// One token if the token at `pos` is of the given kind, none otherwise.
pub open spec fn optional(tokens: Seq<Token>, pos: int, kind: TokenKind) -> nat {
    if kind_at(tokens, pos) == kind {
        1
    } else {
        0
    }
}

/// The span of the token at `pos` if it is of the given kind.
pub open spec fn optional_span(tokens: Seq<Token>, pos: int, kind: TokenKind) -> Option<Span> {
    if kind_at(tokens, pos) == kind {
        Some(span_at(tokens, pos))
    } else {
        None
    }
}

/// What stands between the parentheses of `foreach`: an expression, `as`,
/// and a target, which is an expression, or a key, `=>` and a value; `&`
/// may stand before the target and before the value.
pub open spec fn foreach_iterator_extent(tokens: Seq<Token>, pos: int) -> Extent {
    match expression_extent(tokens, pos) {
        Err(e) => Err(e),
        Ok(a) => if kind_at(tokens, pos + a) != TokenKind::As {
            stopped(tokens, pos, pos + a, Expectation::Token(TokenKind::As))
        } else {
            let first = pos + a + 1 + optional(tokens, pos + a + 1, TokenKind::Ampersand);
            match expression_extent(tokens, first) {
                Err(e) => later((first - pos) as nat, e),
                Ok(b) => if kind_at(tokens, first + b) != TokenKind::DoubleArrow {
                    Ok((first + b - pos) as nat)
                } else {
                    let second = first + b + 1 + optional(
                        tokens,
                        first + b + 1,
                        TokenKind::Ampersand,
                    );
                    match expression_extent(tokens, second) {
                        Err(e) => later((second - pos) as nat, e),
                        Ok(c) => Ok((second + c - pos) as nat),
                    }
                },
            }
        },
    }
}

/// `(`, what `foreach` iterates over and binds, `)`.
pub open spec fn foreach_header_extent(tokens: Seq<Token>, pos: int) -> Extent {
    opening(
        tokens,
        pos,
        TokenKind::LeftParen,
        closing(tokens, pos + 1, foreach_iterator_extent(tokens, pos + 1), TokenKind::RightParen),
    )
}

/// `foreach`, its header, and the body.
#[verifier::opaque]
pub open spec fn foreach_statement_extent(tokens: Seq<Token>, pos: int) -> Extent
    decreases remaining(tokens, pos), 0int,
{
    if kind_at(tokens, pos) == TokenKind::Foreach {
        match foreach_header_extent(tokens, pos + 1) {
            Err(e) => later(1, e),
            Ok(n) => after(1 + n, loop_body_extent(tokens, pos + 1 + n, TokenKind::EndForeach)),
        }
    } else {
        stopped(tokens, pos, pos, Expectation::Token(TokenKind::Foreach))
    }
}

/// The definition of `foreach_statement_extent`, unfolded once.
pub proof fn lemma_foreach_statement_extent(tokens: Seq<Token>, pos: int)
    ensures
        foreach_statement_extent(tokens, pos) == {
            if kind_at(tokens, pos) == TokenKind::Foreach {
                match foreach_header_extent(tokens, pos + 1) {
                    Err(e) => later(1, e),
                    Ok(n) => after(1 + n, loop_body_extent(tokens, pos + 1 + n, TokenKind::EndForeach)),
                }
            } else {
                stopped(tokens, pos, pos, Expectation::Token(TokenKind::Foreach))
            }
        },
{
    reveal_with_fuel(foreach_statement_extent, 1);
    reveal_with_fuel(loop_body_extent, 1);
}

impl ForeachStatementIterator {
    /// The node is the tree of the iterator that starts at `pos`. With a
    /// key, the two expressions stand in the order of the source, and the
    /// `&` kept is the one before the value, or else the one before the key.
    pub open spec fn stands_at(self, tokens: Seq<Token>, pos: int) -> bool {
        match self {
            ForeachStatementIterator::Value { expression, as_keyword, ampersand, value } => {
                &&& expression.stands_at(tokens, pos)
                &&& expression_extent(tokens, pos) matches Ok(a) && {
                    let first = pos + a + 1 + optional(tokens, pos + a + 1, TokenKind::Ampersand);
                    &&& as_keyword == span_at(tokens, pos + a)
                    &&& ampersand == optional_span(tokens, pos + a + 1, TokenKind::Ampersand)
                    &&& value.stands_at(tokens, first)
                    &&& expression_extent(tokens, first) matches Ok(b) && kind_at(
                        tokens,
                        first + b,
                    ) != TokenKind::DoubleArrow
                }
            },
            ForeachStatementIterator::KeyAndValue {
                expression,
                as_keyword,
                ampersand,
                key,
                double_arrow,
                value,
            } => {
                &&& expression.stands_at(tokens, pos)
                &&& expression_extent(tokens, pos) matches Ok(a) && {
                    let first = pos + a + 1 + optional(tokens, pos + a + 1, TokenKind::Ampersand);
                    &&& as_keyword == span_at(tokens, pos + a)
                    &&& key.stands_at(tokens, first)
                    &&& expression_extent(tokens, first) matches Ok(b) && {
                        let second = first + b + 1 + optional(
                            tokens,
                            first + b + 1,
                            TokenKind::Ampersand,
                        );
                        &&& kind_at(tokens, first + b) == TokenKind::DoubleArrow
                        &&& double_arrow == span_at(tokens, first + b)
                        &&& ampersand == (match optional_span(
                            tokens,
                            first + b + 1,
                            TokenKind::Ampersand,
                        ) {
                            Some(span) => Some(span),
                            None => optional_span(tokens, pos + a + 1, TokenKind::Ampersand),
                        })
                        &&& value.stands_at(tokens, second)
                    }
                }
            },
        }
    }
}

impl ForeachStatementBody {
    /// The node is the tree of the loop body that starts at `pos`: a block
    /// if and only if `:` stands there.
    #[verifier::opaque]
    pub open spec fn stands_at(self, tokens: Seq<Token>, pos: int) -> bool
        decreases self, 3int,
    {
        match self {
            ForeachStatementBody::Statement { statement } => kind_at(tokens, pos)
                != TokenKind::Colon && statement.stands_at(tokens, pos),
            ForeachStatementBody::Block { colon, statements, endforeach, ending } => {
                let end = statement_start(tokens, pos + 1, statements@.len());
                &&& kind_at(tokens, pos) == TokenKind::Colon
                &&& colon == span_at(tokens, pos)
                &&& statements_stand_at(statements@, tokens, pos + 1)
                &&& kind_at(tokens, end) == TokenKind::EndForeach
                &&& endforeach == span_at(tokens, end)
                &&& ending.stands_at(tokens, end + 1)
            },
        }
    }
}

/// The definition of `ForeachStatementBody::stands_at`, unfolded once.
pub proof fn lemma_foreach_statement_body_stands_at(
    node: ForeachStatementBody,
    tokens: Seq<Token>,
    pos: int,
)
    ensures
        node.stands_at(tokens, pos) == {
            match node {
                ForeachStatementBody::Statement { statement } => kind_at(tokens, pos)
                    != TokenKind::Colon && statement.stands_at(tokens, pos),
                ForeachStatementBody::Block { colon, statements, endforeach, ending } => {
                    let end = statement_start(tokens, pos + 1, statements@.len());
                    &&& kind_at(tokens, pos) == TokenKind::Colon
                    &&& colon == span_at(tokens, pos)
                    &&& statements_stand_at(statements@, tokens, pos + 1)
                    &&& kind_at(tokens, end) == TokenKind::EndForeach
                    &&& endforeach == span_at(tokens, end)
                    &&& ending.stands_at(tokens, end + 1)
                },
            }
        },
{
    reveal_with_fuel(ForeachStatementBody::stands_at, 1);
    reveal_with_fuel(statements_stand_at, 1);
    reveal_with_fuel(Statement::stands_at, 1);
}

impl ForeachStatement {
    /// The node is the tree of the `foreach` loop that starts at `pos`.
    #[verifier::opaque]
    pub open spec fn stands_at(self, tokens: Seq<Token>, pos: int) -> bool
        decreases self, 4int,
    {
        &&& self.foreach == span_at(tokens, pos)
        &&& self.left_parenthesis == span_at(tokens, pos + 1)
        &&& self.iterator.stands_at(tokens, pos + 2)
        &&& foreach_iterator_extent(tokens, pos + 2) matches Ok(n) && {
            &&& self.right_parenthesis == span_at(tokens, pos + 2 + n)
            &&& self.body.stands_at(tokens, pos + 3 + n)
        }
    }
}

/// The definition of `ForeachStatement::stands_at`, unfolded once.
pub proof fn lemma_foreach_statement_stands_at(node: ForeachStatement, tokens: Seq<Token>, pos: int)
    ensures
        node.stands_at(tokens, pos) == {
            &&& node.foreach == span_at(tokens, pos)
            &&& node.left_parenthesis == span_at(tokens, pos + 1)
            &&& node.iterator.stands_at(tokens, pos + 2)
            &&& foreach_iterator_extent(tokens, pos + 2) matches Ok(n) && {
                &&& node.right_parenthesis == span_at(tokens, pos + 2 + n)
                &&& node.body.stands_at(tokens, pos + 3 + n)
            }
        },
{
    reveal_with_fuel(ForeachStatement::stands_at, 1);
    reveal_with_fuel(ForeachStatementBody::stands_at, 1);
}

/// Consumes `&` if it stands under the cursor, and returns its span.
fn skip_ampersand(state: &mut State) -> (r: Option<Span>)
    requires
        old(state).wf(),
    ensures
        final(state).wf(),
        final(state).tokens@ == old(state).tokens@,
        final(state).attributes@ == old(state).attributes@,
        final(state).cursor == old(state).cursor + optional(
            old(state).tokens@,
            old(state).cursor as int,
            TokenKind::Ampersand,
        ),
        r == optional_span(old(state).tokens@, old(state).cursor as int, TokenKind::Ampersand),
        lossless(
            reference_atoms(r),
            old(state).tokens@,
            old(state).cursor as int,
            final(state).cursor as int,
        ),
{
    let ghost tokens = state.tokens@;
    let ghost pos = state.cursor as int;
    let current = state.current();
    if current.kind == TokenKind::Ampersand {
        let span = current.span;
        state.next();
        proof {
            lemma_lossless_mark(TokenKind::Ampersand, span, tokens, pos);
        }
        Some(span)
    } else {
        proof {
            lemma_lossless_nothing(tokens, pos);
        }
        None
    }
}

/// Reads what stands between the parentheses of `foreach`.
pub fn foreach_statement_iterator(state: &mut State) -> (r: ParseResult<ForeachStatementIterator>)
    requires
        old(state).wf(),
    ensures
        parsed(
            *old(state),
            *final(state),
            foreach_iterator_extent(old(state).tokens@, old(state).cursor as int),
            r,
        ),
        final(state).attributes@ == old(state).attributes@,
        r matches Ok(iterator) ==> iterator.stands_at(
            old(state).tokens@,
            old(state).cursor as int,
        ),
        r matches Ok(node) ==> lossless(
            node.atoms(),
            old(state).tokens@,
            old(state).cursor as int,
            final(state).cursor as int,
        ),
{
    let ghost tokens = state.tokens@;
    let ghost pos = state.cursor as int;
    let expression = create(state)?;
    let ghost expression_atoms = expression.atoms();
    let ghost p_as = state.cursor as int;
    let as_keyword = skip(state, TokenKind::As)?;
    let ghost p_first = state.cursor as int;
    let first = skip_ampersand(state);
    let ghost p_target = state.cursor as int;
    let target = create(state)?;
    let ghost target_atoms = target.atoms();
    let ghost p_arrow = state.cursor as int;
    let current = state.current();
    if current.kind == TokenKind::DoubleArrow {
        let double_arrow = current.span;
        state.next();
        let ghost p_second = state.cursor as int;
        let second = skip_ampersand(state);
        let ghost p_value = state.cursor as int;
        let value = create(state)?;
        let ghost value_atoms = value.atoms();
        let ghost end = state.cursor as int;
        let ampersand = match second {
            Some(span) => Some(span),
            None => first,
        };
        let node = ForeachStatementIterator::KeyAndValue {
            expression,
            as_keyword,
            ampersand,
            key: target,
            double_arrow,
            value,
        };
        proof {
            let as_atoms = seq![mark(TokenKind::As, as_keyword)];
            let arrow_atoms = seq![mark(TokenKind::DoubleArrow, double_arrow)];
            lemma_lossless_mark(TokenKind::As, as_keyword, tokens, p_as);
            lemma_lossless_mark(TokenKind::DoubleArrow, double_arrow, tokens, p_arrow);
            if spans_in_order(tokens, pos, end) {
                if first is Some {
                    assert(tokens[p_first].span.start.offset < tokens[p_first].span.end.offset);
                    assert(tokens[p_first].span.end.offset <= tokens[p_arrow].span.start.offset);
                }
                if second is Some {
                    assert(tokens[p_arrow].span.start.offset < tokens[p_arrow].span.end.offset);
                    assert(tokens[p_arrow].span.end.offset <= tokens[p_second].span.start.offset);
                }
                assert(node.reference_leads() == (first is Some && second is None));
            }
            if faithful(tokens, pos, end) {
                assert(kept(tokens, p_as));
                assert(!double_reference(tokens, p_as));
                lemma_lossless_join7(
                    expression_atoms,
                    as_atoms,
                    reference_atoms(first),
                    target_atoms,
                    arrow_atoms,
                    reference_atoms(second),
                    value_atoms,
                    tokens,
                    pos,
                    p_as,
                    p_first,
                    p_target,
                    p_arrow,
                    p_second,
                    p_value,
                    end,
                );
            } else {
                if !spans_in_order(tokens, pos, end) {
                    lemma_placed_unordered(node.atoms(), tokens, pos, end);
                } else {
                    // of two `&`, the one before the key is dropped
                    let lead = if first is Some && second is Some {
                        Seq::<Atom>::empty()
                    } else {
                        reference_atoms(first)
                    };
                    lemma_placed_nothing(tokens, p_first);
                    lemma_placed_around(
                        Seq::<Atom>::empty(),
                        tokens,
                        p_first,
                        p_first,
                        p_first,
                        p_target,
                    );
                    lemma_lossless_placed(reference_atoms(first), tokens, p_first, p_target);
                    lemma_lossless_placed(expression_atoms, tokens, pos, p_as);
                    lemma_lossless_placed(as_atoms, tokens, p_as, p_first);
                    lemma_lossless_placed(target_atoms, tokens, p_target, p_arrow);
                    lemma_lossless_placed(arrow_atoms, tokens, p_arrow, p_second);
                    lemma_lossless_placed(reference_atoms(second), tokens, p_second, p_value);
                    lemma_lossless_placed(value_atoms, tokens, p_value, end);
                    lemma_placed_join7(
                        expression_atoms,
                        as_atoms,
                        lead,
                        target_atoms,
                        arrow_atoms,
                        reference_atoms(second),
                        value_atoms,
                        tokens,
                        pos,
                        p_as,
                        p_first,
                        p_target,
                        p_arrow,
                        p_second,
                        p_value,
                        end,
                    );
                }
                lemma_lossless_unfaithful(node.atoms(), tokens, pos, end);
            }
        }
        Ok(node)
    } else {
        proof {
            lemma_lossless_mark(TokenKind::As, as_keyword, tokens, p_as);
            lemma_lossless_join4(
                expression_atoms,
                seq![mark(TokenKind::As, as_keyword)],
                reference_atoms(first),
                target_atoms,
                tokens,
                pos,
                p_as,
                p_first,
                p_target,
                p_arrow,
            );
        }
        Ok(
            ForeachStatementIterator::Value {
                expression,
                as_keyword,
                ampersand: first,
                value: target,
            },
        )
    }
}

/// Reads the header of a `foreach` loop: its iterator between `(` and `)`.
pub fn foreach_statement_header(state: &mut State) -> (r: ParseResult<
    (Span, ForeachStatementIterator, Span),
>)
    requires
        old(state).wf(),
    ensures
        parsed(
            *old(state),
            *final(state),
            foreach_header_extent(old(state).tokens@, old(state).cursor as int),
            r,
        ),
        final(state).attributes@ == old(state).attributes@,
        r matches Ok((left, iterator, right)) ==> {
            let tokens = old(state).tokens@;
            let pos = old(state).cursor as int;
            &&& left == span_at(tokens, pos)
            &&& iterator.stands_at(tokens, pos + 1)
            &&& foreach_iterator_extent(tokens, pos + 1) matches Ok(n) && right == span_at(
                tokens,
                pos + 1 + n,
            )
        },
        r matches Ok((left, iterator, right)) ==> {
            let tokens = old(state).tokens@;
            let pos = old(state).cursor as int;
            &&& final(state).cursor >= pos + 2
            &&& lossless(iterator.atoms(), tokens, pos + 1, final(state).cursor - 1)
            &&& kind_at(tokens, pos) == TokenKind::LeftParen
            &&& kind_at(tokens, final(state).cursor - 1) == TokenKind::RightParen
            &&& right == span_at(tokens, final(state).cursor - 1)
        },
{
    let left = skip_left_parenthesis(state)?;
    let iterator = foreach_statement_iterator(state)?;
    let right = skip_right_parenthesis(state)?;
    Ok((left, iterator, right))
}

/// Reads the body of a `foreach` loop.
pub fn foreach_statement_body(state: &mut State) -> (r: ParseResult<ForeachStatementBody>)
    requires
        old(state).settled(),
    ensures
        parsed(
            *old(state),
            *final(state),
            loop_body_extent(old(state).tokens@, old(state).cursor as int, TokenKind::EndForeach),
            r,
        ),
        r matches Ok(body) ==> {
            &&& final(state).settled()
            &&& body.stands_at(old(state).tokens@, old(state).cursor as int)
            &&& body is Block <==> kind_at(old(state).tokens@, old(state).cursor as int)
                == TokenKind::Colon
        },
        r matches Ok(body) ==> lossless(
            body.atoms(),
            old(state).tokens@,
            old(state).cursor as int,
            final(state).cursor as int,
        ),
    decreases remaining(old(state).tokens@, old(state).cursor as int), 2int,
{
    let ghost tokens = state.tokens@;
    let ghost pos = state.cursor as int;
    proof {
        lemma_loop_body_extent(tokens, pos, TokenKind::EndForeach);
    }
    if state.current().kind == TokenKind::Colon {
        let colon = skip_colon(state)?;
        let statements = multiple_statements_until(state, TokenKind::EndForeach)?;
        let ghost close = state.cursor as int;
        let ghost inner = statements_atoms(statements@);
        let endforeach = skip(state, TokenKind::EndForeach)?;
        let ending = skip_ending(state)?;
        let body = ForeachStatementBody::Block { colon, statements, endforeach, ending };
        proof {
            lemma_foreach_statement_body_stands_at(body, tokens, pos);
            lemma_lossless_mark(TokenKind::Colon, colon, tokens, pos);
            lemma_lossless_mark(TokenKind::EndForeach, endforeach, tokens, close);
            lemma_lossless_join4(
                seq![mark(TokenKind::Colon, colon)],
                inner,
                seq![mark(TokenKind::EndForeach, endforeach)],
                ending.atoms(),
                tokens,
                pos,
                pos + 1,
                close,
                close + 1,
                state.cursor as int,
            );
            lemma_foreach_statement_body_atoms(body);
        }
        Ok(body)
    } else {
        let inner = statement(state)?;
        let body = ForeachStatementBody::Statement { statement: Box::new(inner) };
        proof {
            lemma_foreach_statement_body_stands_at(body, tokens, pos);
            lemma_foreach_statement_body_atoms(body);
        }
        Ok(body)
    }
}

/// Reads a `foreach` loop.
pub fn foreach_statement(state: &mut State) -> (r: ParseResult<Statement>)
    requires
        old(state).settled(),
    ensures
        parsed(
            *old(state),
            *final(state),
            foreach_statement_extent(old(state).tokens@, old(state).cursor as int),
            r,
        ),
        r matches Ok(node) ==> {
            &&& final(state).settled()
            &&& old(state).cursor < final(state).cursor
            &&& node matches Statement::Foreach(inner) && inner.stands_at(
                old(state).tokens@,
                old(state).cursor as int,
            )
        },
        r matches Ok(node) ==> lossless(
            node.atoms(),
            old(state).tokens@,
            old(state).cursor as int,
            final(state).cursor as int,
        ),
    decreases remaining(old(state).tokens@, old(state).cursor as int), 0int,
{
    let ghost tokens = state.tokens@;
    let ghost pos = state.cursor as int;
    proof {
        lemma_foreach_statement_extent(tokens, pos);
    }
    let foreach = skip(state, TokenKind::Foreach)?;
    let (left_parenthesis, iterator, right_parenthesis) = foreach_statement_header(state)?;
    let ghost p_body = state.cursor as int;
    let body = foreach_statement_body(state)?;
    let node = ForeachStatement { foreach, left_parenthesis, iterator, right_parenthesis, body };
    proof {
        lemma_foreach_statement_stands_at(node, tokens, pos);
        lemma_lossless_mark(TokenKind::Foreach, foreach, tokens, pos);
        lemma_lossless_mark(TokenKind::LeftParen, left_parenthesis, tokens, pos + 1);
        lemma_lossless_mark(TokenKind::RightParen, right_parenthesis, tokens, p_body - 1);
        lemma_lossless_join5(
            seq![mark(TokenKind::Foreach, foreach)],
            seq![mark(TokenKind::LeftParen, left_parenthesis)],
            node.iterator.atoms(),
            seq![mark(TokenKind::RightParen, right_parenthesis)],
            node.body.atoms(),
            tokens,
            pos,
            pos + 1,
            pos + 2,
            p_body - 1,
            p_body,
            state.cursor as int,
        );
        lemma_foreach_statement_atoms(node);
        lemma_statement_atoms(Statement::Foreach(node));
    }
    Ok(Statement::Foreach(node))
}

/// What stands between the parentheses of `for`: three lists of
/// expressions, the first two closed by `;`.
pub open spec fn for_iterator_extent(tokens: Seq<Token>, pos: int) -> Extent {
    match semicolon_terminated_extent(tokens, pos) {
        Err(e) => Err(e),
        Ok(a) => match semicolon_terminated_extent(tokens, pos + a) {
            Err(e) => later(a, e),
            Ok(b) => after(
                a + b,
                comma_separated_extent(tokens, pos + a + b, TokenKind::RightParen),
            ),
        },
    }
}

/// `(`, the three lists of `for`, `)`.
pub open spec fn for_header_extent(tokens: Seq<Token>, pos: int) -> Extent {
    opening(
        tokens,
        pos,
        TokenKind::LeftParen,
        closing(tokens, pos + 1, for_iterator_extent(tokens, pos + 1), TokenKind::RightParen),
    )
}

/// `for`, its header, and the body.
#[verifier::opaque]
pub open spec fn for_statement_extent(tokens: Seq<Token>, pos: int) -> Extent
    decreases remaining(tokens, pos), 0int,
{
    if kind_at(tokens, pos) == TokenKind::For {
        match for_header_extent(tokens, pos + 1) {
            Err(e) => later(1, e),
            Ok(n) => after(1 + n, loop_body_extent(tokens, pos + 1 + n, TokenKind::EndFor)),
        }
    } else {
        stopped(tokens, pos, pos, Expectation::Token(TokenKind::For))
    }
}

/// The definition of `for_statement_extent`, unfolded once.
pub proof fn lemma_for_statement_extent(tokens: Seq<Token>, pos: int)
    ensures
        for_statement_extent(tokens, pos) == {
            if kind_at(tokens, pos) == TokenKind::For {
                match for_header_extent(tokens, pos + 1) {
                    Err(e) => later(1, e),
                    Ok(n) => after(1 + n, loop_body_extent(tokens, pos + 1 + n, TokenKind::EndFor)),
                }
            } else {
                stopped(tokens, pos, pos, Expectation::Token(TokenKind::For))
            }
        },
{
    reveal_with_fuel(for_statement_extent, 1);
    reveal_with_fuel(loop_body_extent, 1);
}

impl ForStatementIterator {
    /// The node is the tree of the three lists that start at `pos`.
    pub open spec fn stands_at(self, tokens: Seq<Token>, pos: int) -> bool {
        &&& self.initializations.stands_at(tokens, pos, TokenKind::SemiColon)
        &&& comma_separated_extent(tokens, pos, TokenKind::SemiColon) matches Ok(a) && {
            &&& self.initializations_semicolon == span_at(tokens, pos + a)
            &&& self.conditions.stands_at(tokens, pos + a + 1, TokenKind::SemiColon)
            &&& comma_separated_extent(tokens, pos + a + 1, TokenKind::SemiColon) matches Ok(b)
                && {
                &&& self.conditions_semicolon == span_at(tokens, pos + a + 1 + b)
                &&& self.loop_list.stands_at(tokens, pos + a + b + 2, TokenKind::RightParen)
            }
        }
    }
}

impl ForStatementBody {
    /// The node is the tree of the loop body that starts at `pos`: a block
    /// if and only if `:` stands there.
    #[verifier::opaque]
    pub open spec fn stands_at(self, tokens: Seq<Token>, pos: int) -> bool
        decreases self, 3int,
    {
        match self {
            ForStatementBody::Statement { statement } => kind_at(tokens, pos) != TokenKind::Colon
                && statement.stands_at(tokens, pos),
            ForStatementBody::Block { colon, statements, endfor, ending } => {
                let end = statement_start(tokens, pos + 1, statements@.len());
                &&& kind_at(tokens, pos) == TokenKind::Colon
                &&& colon == span_at(tokens, pos)
                &&& statements_stand_at(statements@, tokens, pos + 1)
                &&& kind_at(tokens, end) == TokenKind::EndFor
                &&& endfor == span_at(tokens, end)
                &&& ending.stands_at(tokens, end + 1)
            },
        }
    }
}

/// The definition of `ForStatementBody::stands_at`, unfolded once.
pub proof fn lemma_for_statement_body_stands_at(
    node: ForStatementBody,
    tokens: Seq<Token>,
    pos: int,
)
    ensures
        node.stands_at(tokens, pos) == {
            match node {
                ForStatementBody::Statement { statement } => kind_at(tokens, pos) != TokenKind::Colon
                    && statement.stands_at(tokens, pos),
                ForStatementBody::Block { colon, statements, endfor, ending } => {
                    let end = statement_start(tokens, pos + 1, statements@.len());
                    &&& kind_at(tokens, pos) == TokenKind::Colon
                    &&& colon == span_at(tokens, pos)
                    &&& statements_stand_at(statements@, tokens, pos + 1)
                    &&& kind_at(tokens, end) == TokenKind::EndFor
                    &&& endfor == span_at(tokens, end)
                    &&& ending.stands_at(tokens, end + 1)
                },
            }
        },
{
    reveal_with_fuel(ForStatementBody::stands_at, 1);
    reveal_with_fuel(statements_stand_at, 1);
    reveal_with_fuel(Statement::stands_at, 1);
}

impl ForStatement {
    /// The node is the tree of the `for` loop that starts at `pos`.
    #[verifier::opaque]
    pub open spec fn stands_at(self, tokens: Seq<Token>, pos: int) -> bool
        decreases self, 4int,
    {
        &&& self.for_keyword == span_at(tokens, pos)
        &&& self.left_parenthesis == span_at(tokens, pos + 1)
        &&& self.iterator.stands_at(tokens, pos + 2)
        &&& for_iterator_extent(tokens, pos + 2) matches Ok(n) && {
            &&& self.right_parenthesis == span_at(tokens, pos + 2 + n)
            &&& self.body.stands_at(tokens, pos + 3 + n)
        }
    }
}

/// The definition of `ForStatement::stands_at`, unfolded once.
pub proof fn lemma_for_statement_stands_at(node: ForStatement, tokens: Seq<Token>, pos: int)
    ensures
        node.stands_at(tokens, pos) == {
            &&& node.for_keyword == span_at(tokens, pos)
            &&& node.left_parenthesis == span_at(tokens, pos + 1)
            &&& node.iterator.stands_at(tokens, pos + 2)
            &&& for_iterator_extent(tokens, pos + 2) matches Ok(n) && {
                &&& node.right_parenthesis == span_at(tokens, pos + 2 + n)
                &&& node.body.stands_at(tokens, pos + 3 + n)
            }
        },
{
    reveal_with_fuel(ForStatement::stands_at, 1);
    reveal_with_fuel(ForStatementBody::stands_at, 1);
}

/// Reads what stands between the parentheses of `for`.
pub fn for_statement_iterator(state: &mut State) -> (r: ParseResult<ForStatementIterator>)
    requires
        old(state).wf(),
    ensures
        parsed(
            *old(state),
            *final(state),
            for_iterator_extent(old(state).tokens@, old(state).cursor as int),
            r,
        ),
        final(state).attributes@ == old(state).attributes@,
        r matches Ok(iterator) ==> {
            &&& iterator.stands_at(old(state).tokens@, old(state).cursor as int)
            &&& iterator.initializations.no_trailing()
            &&& iterator.conditions.no_trailing()
            &&& iterator.loop_list.no_trailing()
        },
        r matches Ok(node) ==> lossless(
            node.atoms(),
            old(state).tokens@,
            old(state).cursor as int,
            final(state).cursor as int,
        ),
{
    let ghost tokens = state.tokens@;
    let ghost pos = state.cursor as int;
    let (initializations_semicolon, initializations) = semicolon_terminated(state)?;
    let ghost first_end = state.cursor as int;
    let (conditions_semicolon, conditions) = semicolon_terminated(state)?;
    let ghost second_end = state.cursor as int;
    let loop_list = comma_separated_no_trailing(state, TokenKind::RightParen)?;
    proof {
        lemma_lossless_mark(TokenKind::SemiColon, initializations_semicolon, tokens, first_end - 1);
        lemma_lossless_mark(TokenKind::SemiColon, conditions_semicolon, tokens, second_end - 1);
        lemma_lossless_join5(
            expressions_atoms(initializations),
            seq![mark(TokenKind::SemiColon, initializations_semicolon)],
            expressions_atoms(conditions),
            seq![mark(TokenKind::SemiColon, conditions_semicolon)],
            expressions_atoms(loop_list),
            tokens,
            pos,
            first_end - 1,
            first_end,
            second_end - 1,
            second_end,
            state.cursor as int,
        );
    }
    Ok(
        ForStatementIterator {
            initializations,
            initializations_semicolon,
            conditions,
            conditions_semicolon,
            loop_list,
        },
    )
}

/// Reads the header of a `for` loop: its three lists between `(` and `)`.
pub fn for_statement_header(state: &mut State) -> (r: ParseResult<
    (Span, ForStatementIterator, Span),
>)
    requires
        old(state).wf(),
    ensures
        parsed(
            *old(state),
            *final(state),
            for_header_extent(old(state).tokens@, old(state).cursor as int),
            r,
        ),
        final(state).attributes@ == old(state).attributes@,
        r matches Ok((left, iterator, right)) ==> {
            let tokens = old(state).tokens@;
            let pos = old(state).cursor as int;
            &&& left == span_at(tokens, pos)
            &&& iterator.stands_at(tokens, pos + 1)
            &&& iterator.initializations.no_trailing()
            &&& iterator.conditions.no_trailing()
            &&& iterator.loop_list.no_trailing()
            &&& for_iterator_extent(tokens, pos + 1) matches Ok(n) && right == span_at(
                tokens,
                pos + 1 + n,
            )
        },
        r matches Ok((left, iterator, right)) ==> {
            let tokens = old(state).tokens@;
            let pos = old(state).cursor as int;
            &&& final(state).cursor >= pos + 2
            &&& lossless(iterator.atoms(), tokens, pos + 1, final(state).cursor - 1)
            &&& kind_at(tokens, pos) == TokenKind::LeftParen
            &&& kind_at(tokens, final(state).cursor - 1) == TokenKind::RightParen
            &&& right == span_at(tokens, final(state).cursor - 1)
        },
{
    let left = skip_left_parenthesis(state)?;
    let iterator = for_statement_iterator(state)?;
    let right = skip_right_parenthesis(state)?;
    Ok((left, iterator, right))
}

/// Reads the body of a `for` loop.
pub fn for_statement_body(state: &mut State) -> (r: ParseResult<ForStatementBody>)
    requires
        old(state).settled(),
    ensures
        parsed(
            *old(state),
            *final(state),
            loop_body_extent(old(state).tokens@, old(state).cursor as int, TokenKind::EndFor),
            r,
        ),
        r matches Ok(body) ==> {
            &&& final(state).settled()
            &&& body.stands_at(old(state).tokens@, old(state).cursor as int)
            &&& body is Block <==> kind_at(old(state).tokens@, old(state).cursor as int)
                == TokenKind::Colon
        },
        r matches Ok(body) ==> lossless(
            body.atoms(),
            old(state).tokens@,
            old(state).cursor as int,
            final(state).cursor as int,
        ),
    decreases remaining(old(state).tokens@, old(state).cursor as int), 2int,
{
    let ghost tokens = state.tokens@;
    let ghost pos = state.cursor as int;
    proof {
        lemma_loop_body_extent(tokens, pos, TokenKind::EndFor);
    }
    if state.current().kind == TokenKind::Colon {
        let colon = skip_colon(state)?;
        let statements = multiple_statements_until(state, TokenKind::EndFor)?;
        let ghost close = state.cursor as int;
        let ghost inner = statements_atoms(statements@);
        let endfor = skip(state, TokenKind::EndFor)?;
        let ending = skip_ending(state)?;
        let body = ForStatementBody::Block { colon, statements, endfor, ending };
        proof {
            lemma_for_statement_body_stands_at(body, tokens, pos);
            lemma_lossless_mark(TokenKind::Colon, colon, tokens, pos);
            lemma_lossless_mark(TokenKind::EndFor, endfor, tokens, close);
            lemma_lossless_join4(
                seq![mark(TokenKind::Colon, colon)],
                inner,
                seq![mark(TokenKind::EndFor, endfor)],
                ending.atoms(),
                tokens,
                pos,
                pos + 1,
                close,
                close + 1,
                state.cursor as int,
            );
            lemma_for_statement_body_atoms(body);
        }
        Ok(body)
    } else {
        let inner = statement(state)?;
        let body = ForStatementBody::Statement { statement: Box::new(inner) };
        proof {
            lemma_for_statement_body_stands_at(body, tokens, pos);
            lemma_for_statement_body_atoms(body);
        }
        Ok(body)
    }
}

/// Reads a `for` loop.
pub fn for_statement(state: &mut State) -> (r: ParseResult<Statement>)
    requires
        old(state).settled(),
    ensures
        parsed(
            *old(state),
            *final(state),
            for_statement_extent(old(state).tokens@, old(state).cursor as int),
            r,
        ),
        r matches Ok(node) ==> {
            &&& final(state).settled()
            &&& old(state).cursor < final(state).cursor
            &&& node matches Statement::For(inner) && inner.stands_at(
                old(state).tokens@,
                old(state).cursor as int,
            )
        },
        r matches Ok(node) ==> lossless(
            node.atoms(),
            old(state).tokens@,
            old(state).cursor as int,
            final(state).cursor as int,
        ),
    decreases remaining(old(state).tokens@, old(state).cursor as int), 0int,
{
    let ghost tokens = state.tokens@;
    let ghost pos = state.cursor as int;
    proof {
        lemma_for_statement_extent(tokens, pos);
    }
    let for_keyword = skip(state, TokenKind::For)?;
    let (left_parenthesis, iterator, right_parenthesis) = for_statement_header(state)?;
    let ghost p_body = state.cursor as int;
    let body = for_statement_body(state)?;
    let node = ForStatement { for_keyword, left_parenthesis, iterator, right_parenthesis, body };
    proof {
        lemma_for_statement_stands_at(node, tokens, pos);
        lemma_lossless_mark(TokenKind::For, for_keyword, tokens, pos);
        lemma_lossless_mark(TokenKind::LeftParen, left_parenthesis, tokens, pos + 1);
        lemma_lossless_mark(TokenKind::RightParen, right_parenthesis, tokens, p_body - 1);
        lemma_lossless_join5(
            seq![mark(TokenKind::For, for_keyword)],
            seq![mark(TokenKind::LeftParen, left_parenthesis)],
            node.iterator.atoms(),
            seq![mark(TokenKind::RightParen, right_parenthesis)],
            node.body.atoms(),
            tokens,
            pos,
            pos + 1,
            pos + 2,
            p_body - 1,
            p_body,
            state.cursor as int,
        );
        lemma_for_statement_atoms(node);
        lemma_statement_atoms(Statement::For(node));
    }
    Ok(Statement::For(node))
}

/// `do`, a statement, `while`, a condition in parentheses, `;`.
#[verifier::opaque]
pub open spec fn do_while_statement_extent(tokens: Seq<Token>, pos: int) -> Extent
    decreases remaining(tokens, pos), 0int,
{
    if kind_at(tokens, pos) == TokenKind::Do {
        match statement_extent(tokens, pos + 1) {
            Err(e) => later(1, e),
            Ok(n) => after(
                1 + n,
                opening(
                    tokens,
                    pos + 1 + n,
                    TokenKind::While,
                    closing(
                        tokens,
                        pos + 2 + n,
                        parenthesized_extent(tokens, pos + 2 + n),
                        TokenKind::SemiColon,
                    ),
                ),
            ),
        }
    } else {
        stopped(tokens, pos, pos, Expectation::Token(TokenKind::Do))
    }
}

/// The definition of `do_while_statement_extent`, unfolded once.
pub proof fn lemma_do_while_statement_extent(tokens: Seq<Token>, pos: int)
    ensures
        do_while_statement_extent(tokens, pos) == {
            if kind_at(tokens, pos) == TokenKind::Do {
                match statement_extent(tokens, pos + 1) {
                    Err(e) => later(1, e),
                    Ok(n) => after(
                        1 + n,
                        opening(
                            tokens,
                            pos + 1 + n,
                            TokenKind::While,
                            closing(
                                tokens,
                                pos + 2 + n,
                                parenthesized_extent(tokens, pos + 2 + n),
                                TokenKind::SemiColon,
                            ),
                        ),
                    ),
                }
            } else {
                stopped(tokens, pos, pos, Expectation::Token(TokenKind::Do))
            }
        },
{
    reveal_with_fuel(do_while_statement_extent, 1);
    reveal_with_fuel(statement_extent, 1);
}

impl DoWhileStatement {
    /// The node is the tree of the `do` loop that starts at `pos`.
    #[verifier::opaque]
    pub open spec fn stands_at(self, tokens: Seq<Token>, pos: int) -> bool
        decreases self, 4int,
    {
        &&& self.do_keyword == span_at(tokens, pos)
        &&& self.body.stands_at(tokens, pos + 1)
        &&& statement_extent(tokens, pos + 1) matches Ok(n) && {
            &&& self.while_keyword == span_at(tokens, pos + 1 + n)
            &&& self.left_parenthesis == span_at(tokens, pos + 2 + n)
            &&& self.condition.stands_at(tokens, pos + 3 + n)
            &&& expression_extent(tokens, pos + 3 + n) matches Ok(c) && {
                &&& self.right_parenthesis == span_at(tokens, pos + 3 + n + c)
                &&& self.semicolon == span_at(tokens, pos + 4 + n + c)
            }
        }
    }
}

/// The definition of `DoWhileStatement::stands_at`, unfolded once.
pub proof fn lemma_do_while_statement_stands_at(
    node: DoWhileStatement,
    tokens: Seq<Token>,
    pos: int,
)
    ensures
        node.stands_at(tokens, pos) == {
            &&& node.do_keyword == span_at(tokens, pos)
            &&& node.body.stands_at(tokens, pos + 1)
            &&& statement_extent(tokens, pos + 1) matches Ok(n) && {
                &&& node.while_keyword == span_at(tokens, pos + 1 + n)
                &&& node.left_parenthesis == span_at(tokens, pos + 2 + n)
                &&& node.condition.stands_at(tokens, pos + 3 + n)
                &&& expression_extent(tokens, pos + 3 + n) matches Ok(c) && {
                    &&& node.right_parenthesis == span_at(tokens, pos + 3 + n + c)
                    &&& node.semicolon == span_at(tokens, pos + 4 + n + c)
                }
            }
        },
{
    reveal_with_fuel(DoWhileStatement::stands_at, 1);
    reveal_with_fuel(Statement::stands_at, 1);
}

/// Reads a `do` loop.
pub fn do_while_statement(state: &mut State) -> (r: ParseResult<Statement>)
    requires
        old(state).settled(),
    ensures
        parsed(
            *old(state),
            *final(state),
            do_while_statement_extent(old(state).tokens@, old(state).cursor as int),
            r,
        ),
        r matches Ok(node) ==> {
            &&& final(state).settled()
            &&& old(state).cursor < final(state).cursor
            &&& node matches Statement::DoWhile(inner) && inner.stands_at(
                old(state).tokens@,
                old(state).cursor as int,
            )
        },
        r matches Ok(node) ==> lossless(
            node.atoms(),
            old(state).tokens@,
            old(state).cursor as int,
            final(state).cursor as int,
        ),
    decreases remaining(old(state).tokens@, old(state).cursor as int), 0int,
{
    let ghost tokens = state.tokens@;
    let ghost pos = state.cursor as int;
    proof {
        lemma_do_while_statement_extent(tokens, pos);
    }
    let do_keyword = skip(state, TokenKind::Do)?;
    let body = statement(state)?;
    let ghost body_atoms = body.atoms();
    let ghost p_while = state.cursor as int;
    let while_keyword = skip(state, TokenKind::While)?;
    let (left_parenthesis, condition, right_parenthesis) = parenthesized(state)?;
    let ghost p_semicolon = state.cursor as int;
    let semicolon = skip_semicolon(state)?;
    let node = DoWhileStatement {
        do_keyword,
        body: Box::new(body),
        while_keyword,
        left_parenthesis,
        condition,
        right_parenthesis,
        semicolon,
    };
    proof {
        lemma_do_while_statement_stands_at(node, tokens, pos);
        lemma_lossless_mark(TokenKind::Do, do_keyword, tokens, pos);
        lemma_lossless_mark(TokenKind::While, while_keyword, tokens, p_while);
        lemma_lossless_mark(TokenKind::LeftParen, left_parenthesis, tokens, p_while + 1);
        lemma_lossless_mark(TokenKind::RightParen, right_parenthesis, tokens, p_semicolon - 1);
        lemma_lossless_mark(TokenKind::SemiColon, semicolon, tokens, p_semicolon);
        lemma_lossless_join7(
            seq![mark(TokenKind::Do, do_keyword)],
            body_atoms,
            seq![mark(TokenKind::While, while_keyword)],
            seq![mark(TokenKind::LeftParen, left_parenthesis)],
            node.condition.atoms(),
            seq![mark(TokenKind::RightParen, right_parenthesis)],
            seq![mark(TokenKind::SemiColon, semicolon)],
            tokens,
            pos,
            pos + 1,
            p_while,
            p_while + 1,
            p_while + 2,
            p_semicolon - 1,
            p_semicolon,
            p_semicolon + 1,
        );
        lemma_do_while_statement_atoms(node);
        lemma_statement_atoms(Statement::DoWhile(node));
    }
    Ok(Statement::DoWhile(node))
}

/// A level is an integer literal, or a level in parentheses.
pub open spec fn loop_level_extent(tokens: Seq<Token>, pos: int) -> Extent
    decreases remaining(tokens, pos),
{
    if kind_at(tokens, pos) == TokenKind::LiteralInteger {
        Ok(1)
    } else if kind_at(tokens, pos) == TokenKind::LeftParen {
        after(
            1,
            closing(tokens, pos + 1, loop_level_extent(tokens, pos + 1), TokenKind::RightParen),
        )
    } else {
        stopped(tokens, pos, pos, Expectation::Token(TokenKind::LeftParen))
    }
}

/// A level stands wherever the statement does not end at once.
pub open spec fn maybe_loop_level_extent(tokens: Seq<Token>, pos: int) -> Extent {
    if ending_extent(tokens, pos) is Ok {
        Ok(0)
    } else {
        loop_level_extent(tokens, pos)
    }
}

/// The keyword of the given kind, a level if one stands there, an ending.
pub open spec fn leave_extent(tokens: Seq<Token>, pos: int, keyword: TokenKind) -> Extent {
    opening(
        tokens,
        pos,
        keyword,
        ending_after(tokens, pos + 1, maybe_loop_level_extent(tokens, pos + 1)),
    )
}

impl Level {
    /// The node is the tree of the level that starts at `pos`.
    pub open spec fn stands_at(self, tokens: Seq<Token>, pos: int) -> bool
        decreases self,
    {
        match self {
            Level::Literal(literal) => {
                &&& kind_at(tokens, pos) == TokenKind::LiteralInteger
                &&& literal.span == span_at(tokens, pos)
                &&& literal.value@ == value_at(tokens, pos)
            },
            Level::Parenthesized { left_parenthesis, level, right_parenthesis } => {
                &&& kind_at(tokens, pos) == TokenKind::LeftParen
                &&& left_parenthesis == span_at(tokens, pos)
                &&& level.stands_at(tokens, pos + 1)
                &&& loop_level_extent(tokens, pos + 1) matches Ok(n) && right_parenthesis
                    == span_at(tokens, pos + 1 + n)
            },
        }
    }
}

/// The level is the one read from `pos`, where one stands there.
pub open spec fn level_stands_at(level: Option<Level>, tokens: Seq<Token>, pos: int) -> bool {
    match level {
        None => ending_extent(tokens, pos) is Ok,
        Some(level) => ending_extent(tokens, pos) is Err && level.stands_at(tokens, pos),
    }
}

impl BreakStatement {
    /// The node is the tree of the `break` statement that starts at `pos`.
    pub open spec fn stands_at(self, tokens: Seq<Token>, pos: int) -> bool {
        &&& self.break_keyword == span_at(tokens, pos)
        &&& level_stands_at(self.level, tokens, pos + 1)
        &&& maybe_loop_level_extent(tokens, pos + 1) matches Ok(n) && self.ending.stands_at(
            tokens,
            pos + 1 + n,
        )
    }
}

impl ContinueStatement {
    /// The node is the tree of the `continue` statement that starts at `pos`.
    pub open spec fn stands_at(self, tokens: Seq<Token>, pos: int) -> bool {
        &&& self.continue_keyword == span_at(tokens, pos)
        &&& level_stands_at(self.level, tokens, pos + 1)
        &&& maybe_loop_level_extent(tokens, pos + 1) matches Ok(n) && self.ending.stands_at(
            tokens,
            pos + 1 + n,
        )
    }
}

/// Reads a level.
pub fn loop_level(state: &mut State) -> (r: ParseResult<Level>)
    requires
        old(state).wf(),
    ensures
        parsed(
            *old(state),
            *final(state),
            loop_level_extent(old(state).tokens@, old(state).cursor as int),
            r,
        ),
        final(state).attributes@ == old(state).attributes@,
        r matches Ok(level) ==> level.stands_at(old(state).tokens@, old(state).cursor as int),
        r matches Ok(node) ==> lossless(
            node.atoms(),
            old(state).tokens@,
            old(state).cursor as int,
            final(state).cursor as int,
        ),
    decreases remaining(old(state).tokens@, old(state).cursor as int),
{
    let ghost tokens = state.tokens@;
    let ghost pos = state.cursor as int;
    let current = state.current();
    if current.kind == TokenKind::LiteralInteger {
        let span = current.span;
        let value = current.value.clone();
        state.next();
        proof {
            lemma_lossless_lexeme(TokenKind::LiteralInteger, span, value@, tokens, pos);
        }
        return Ok(Level::Literal(LiteralInteger { value, span }));
    }
    let left_parenthesis = skip_left_parenthesis(state)?;
    let level = loop_level(state)?;
    let ghost inner = level.atoms();
    let ghost close = state.cursor as int;
    let right_parenthesis = skip_right_parenthesis(state)?;
    proof {
        lemma_lossless_mark(TokenKind::LeftParen, left_parenthesis, tokens, pos);
        lemma_lossless_mark(TokenKind::RightParen, right_parenthesis, tokens, close);
        lemma_lossless_join3(
            seq![mark(TokenKind::LeftParen, left_parenthesis)],
            inner,
            seq![mark(TokenKind::RightParen, right_parenthesis)],
            tokens,
            pos,
            pos + 1,
            close,
            close + 1,
        );
    }
    Ok(Level::Parenthesized { left_parenthesis, level: Box::new(level), right_parenthesis })
}

/// Reads a level, unless the statement ends at once.
pub fn maybe_loop_level(state: &mut State) -> (r: ParseResult<Option<Level>>)
    requires
        old(state).wf(),
    ensures
        parsed(
            *old(state),
            *final(state),
            maybe_loop_level_extent(old(state).tokens@, old(state).cursor as int),
            r,
        ),
        final(state).attributes@ == old(state).attributes@,
        r matches Ok(level) ==> level_stands_at(
            level,
            old(state).tokens@,
            old(state).cursor as int,
        ),
        r matches Ok(level) ==> lossless(
            level_atoms(level),
            old(state).tokens@,
            old(state).cursor as int,
            final(state).cursor as int,
        ),
{
    let ghost tokens = state.tokens@;
    let ghost pos = state.cursor as int;
    let kind = state.current().kind;
    if kind == TokenKind::SemiColon || kind == TokenKind::CloseTag {
        proof {
            lemma_lossless_nothing(tokens, pos);
        }
        Ok(None)
    } else {
        let level = loop_level(state)?;
        Ok(Some(level))
    }
}

/// Reads a `continue` statement.
pub fn continue_statement(state: &mut State) -> (r: ParseResult<Statement>)
    requires
        old(state).wf(),
    ensures
        parsed(
            *old(state),
            *final(state),
            leave_extent(old(state).tokens@, old(state).cursor as int, TokenKind::Continue),
            r,
        ),
        final(state).attributes@ == old(state).attributes@,
        r matches Ok(node) ==> node matches Statement::Continue(inner) && inner.stands_at(
            old(state).tokens@,
            old(state).cursor as int,
        ),
        r matches Ok(node) ==> old(state).cursor < final(state).cursor && lossless(
            node.atoms(),
            old(state).tokens@,
            old(state).cursor as int,
            final(state).cursor as int,
        ),
{
    let ghost tokens = state.tokens@;
    let ghost pos = state.cursor as int;
    let continue_keyword = skip(state, TokenKind::Continue)?;
    let level = maybe_loop_level(state)?;
    let ghost p_ending = state.cursor as int;
    let ending = skip_ending(state)?;
    let node = ContinueStatement { continue_keyword, level, ending };
    proof {
        lemma_lossless_mark(TokenKind::Continue, continue_keyword, tokens, pos);
        lemma_lossless_join3(
            seq![mark(TokenKind::Continue, continue_keyword)],
            level_atoms(node.level),
            ending.atoms(),
            tokens,
            pos,
            pos + 1,
            p_ending,
            state.cursor as int,
        );
        lemma_statement_atoms(Statement::Continue(node));
    }
    Ok(Statement::Continue(node))
}

/// Reads a `break` statement.
pub fn break_statement(state: &mut State) -> (r: ParseResult<Statement>)
    requires
        old(state).wf(),
    ensures
        parsed(
            *old(state),
            *final(state),
            leave_extent(old(state).tokens@, old(state).cursor as int, TokenKind::Break),
            r,
        ),
        final(state).attributes@ == old(state).attributes@,
        r matches Ok(node) ==> node matches Statement::Break(inner) && inner.stands_at(
            old(state).tokens@,
            old(state).cursor as int,
        ),
        r matches Ok(node) ==> old(state).cursor < final(state).cursor && lossless(
            node.atoms(),
            old(state).tokens@,
            old(state).cursor as int,
            final(state).cursor as int,
        ),
{
    let ghost tokens = state.tokens@;
    let ghost pos = state.cursor as int;
    let break_keyword = skip(state, TokenKind::Break)?;
    let level = maybe_loop_level(state)?;
    let ghost p_ending = state.cursor as int;
    let ending = skip_ending(state)?;
    let node = BreakStatement { break_keyword, level, ending };
    proof {
        lemma_lossless_mark(TokenKind::Break, break_keyword, tokens, pos);
        lemma_lossless_join3(
            seq![mark(TokenKind::Break, break_keyword)],
            level_atoms(node.level),
            ending.atoms(),
            tokens,
            pos,
            pos + 1,
            p_ending,
            state.cursor as int,
        );
        lemma_statement_atoms(Statement::Break(node));
    }
    Ok(Statement::Break(node))
}

/// Where the body of the `while` loop that starts at `pos` starts.
pub open spec fn while_body_at(tokens: Seq<Token>, pos: int) -> int {
    match expression_extent(tokens, pos + 2) {
        Ok(n) => pos + 3 + n,
        Err(_) => pos,
    }
}

/// The body of a `while` loop has one of the two forms, never both: it is
/// a block exactly where `:` follows the header, and a block is closed by
/// `endwhile`.
pub proof fn lemma_while_body_has_one_form(node: WhileStatement, tokens: Seq<Token>, pos: int)
    requires
        node.stands_at(tokens, pos),
    ensures
        (node.body is Block) != (node.body is Statement),
        node.body is Block <==> kind_at(tokens, while_body_at(tokens, pos)) == TokenKind::Colon,
        node.body matches WhileStatementBody::Block { statements, .. } ==> kind_at(
            tokens,
            statement_start(tokens, while_body_at(tokens, pos) + 1, statements@.len()),
        ) == TokenKind::EndWhile,
{
    lemma_while_statement_stands_at(node, tokens, pos);
    lemma_while_statement_body_stands_at(node.body, tokens, while_body_at(tokens, pos));
}

/// Where the body of the `foreach` loop that starts at `pos` starts.
pub open spec fn foreach_body_at(tokens: Seq<Token>, pos: int) -> int {
    match foreach_iterator_extent(tokens, pos + 2) {
        Ok(n) => pos + 3 + n,
        Err(_) => pos,
    }
}

/// The body of a `foreach` loop has one of the two forms, never both: it is
/// a block exactly where `:` follows the header, and a block is closed by
/// `endforeach`.
pub proof fn lemma_foreach_body_has_one_form(node: ForeachStatement, tokens: Seq<Token>, pos: int)
    requires
        node.stands_at(tokens, pos),
    ensures
        (node.body is Block) != (node.body is Statement),
        node.body is Block <==> kind_at(tokens, foreach_body_at(tokens, pos)) == TokenKind::Colon,
        node.body matches ForeachStatementBody::Block { statements, .. } ==> kind_at(
            tokens,
            statement_start(tokens, foreach_body_at(tokens, pos) + 1, statements@.len()),
        ) == TokenKind::EndForeach,
{
    lemma_foreach_statement_stands_at(node, tokens, pos);
    lemma_foreach_statement_body_stands_at(node.body, tokens, foreach_body_at(tokens, pos));
}

/// Where the body of the `for` loop that starts at `pos` starts.
pub open spec fn for_body_at(tokens: Seq<Token>, pos: int) -> int {
    match for_iterator_extent(tokens, pos + 2) {
        Ok(n) => pos + 3 + n,
        Err(_) => pos,
    }
}

/// The body of a `for` loop has one of the two forms, never both: it is
/// a block exactly where `:` follows the header, and a block is closed by
/// `endfor`.
pub proof fn lemma_for_body_has_one_form(node: ForStatement, tokens: Seq<Token>, pos: int)
    requires
        node.stands_at(tokens, pos),
    ensures
        (node.body is Block) != (node.body is Statement),
        node.body is Block <==> kind_at(tokens, for_body_at(tokens, pos)) == TokenKind::Colon,
        node.body matches ForStatementBody::Block { statements, .. } ==> kind_at(
            tokens,
            statement_start(tokens, for_body_at(tokens, pos) + 1, statements@.len()),
        ) == TokenKind::EndFor,
{
    lemma_for_statement_stands_at(node, tokens, pos);
    lemma_for_statement_body_stands_at(node.body, tokens, for_body_at(tokens, pos));
}

} // verus!
