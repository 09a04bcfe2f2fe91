//! The small productions that all others are built from.

use vstd::prelude::*;
use crate::ast::atom::Atom;
use crate::ast::atom::mark;
use crate::ast::expressions::Expression;
use crate::ast::statements::Ending;
use crate::ast::utils::CommaSeparated;
use crate::ast::utils::expression_item;
use crate::ast::utils::expressions_atoms;
use crate::ast::utils::lemma_listed_prefix;
use crate::ast::utils::listed;
use crate::parser::error::Expectation;
use crate::parser::error::Extent;
use crate::parser::error::ParseError;
use crate::parser::error::ParseResult;
use crate::parser::error::kind_at;
use crate::parser::error::later;
use crate::parser::error::span_at;
use crate::parser::error::stopped;
use crate::parser::error::token_at;
use crate::parser::expressions::create;
use crate::parser::expressions::expression_extent;
use crate::parser::lossless::lemma_lossless_join3;
use crate::parser::lossless::lemma_lossless_mark;
use crate::parser::lossless::lemma_lossless_nothing;
use crate::parser::lossless::lossless;
use crate::parser::state::State;
use crate::parser::state::parsed;
use crate::span::Span;
use crate::token::Token;
use crate::token::TokenKind;

verus! {

/// The number of tokens from `pos` to the end of the stream.
pub open spec fn remaining(tokens: Seq<Token>, pos: int) -> nat {
    if pos < tokens.len() {
        (tokens.len() - pos) as nat
    } else {
        0
    }
}

/// The bytes of the token under a cursor at `pos`.
pub open spec fn value_at(tokens: Seq<Token>, pos: int) -> Seq<u8> {
    token_at(tokens, pos).value@
}

/// `lead` tokens, then what `inner` takes, or how it fails.
pub open spec fn after(lead: nat, inner: Extent) -> Extent {
    match inner {
        Ok(n) => Ok(lead + n),
        Err(e) => later(lead, e),
    }
}

/// What `inner` takes from `pos`, then one token of the given kind.
pub open spec fn closing(tokens: Seq<Token>, pos: int, inner: Extent, kind: TokenKind) -> Extent {
    match inner {
        Ok(n) => after(n, skip_extent(tokens, pos + n, kind)),
        Err(e) => Err(e),
    }
}

/// How far a cursor at `pos` moves when it is told to move on: one token,
/// or not at all once it is behind the last.
pub open spec fn step(tokens: Seq<Token>, pos: int) -> nat {
    if pos < tokens.len() {
        1
    } else {
        0
    }
}

/// `skip`: the token at `pos` is of the given kind and is consumed, or it is
/// reported.
pub open spec fn skip_extent(tokens: Seq<Token>, pos: int, kind: TokenKind) -> Extent {
    if kind_at(tokens, pos) == kind {
        Ok(step(tokens, pos))
    } else {
        stopped(tokens, pos, pos, Expectation::Token(kind))
    }
}

/// Consumes the token under the cursor if it is of the given kind, and
/// returns its span; reports it otherwise.
pub fn skip(state: &mut State, kind: TokenKind) -> (r: ParseResult<Span>)
    requires
        old(state).wf(),
    ensures
        parsed(
            *old(state),
            *final(state),
            skip_extent(old(state).tokens@, old(state).cursor as int, kind),
            r,
        ),
        final(state).attributes@ == old(state).attributes@,
        r matches Ok(span) ==> span == span_at(old(state).tokens@, old(state).cursor as int),
{
    let current = state.current();
    if current.kind == kind {
        let span = current.span;
        state.next();
        Ok(span)
    } else {
        Err(ParseError::UnexpectedToken {
            expected: Expectation::Token(kind),
            found: current.kind,
            span: current.span,
        })
    }
}

/// Consumes `;`.
pub fn skip_semicolon(state: &mut State) -> (r: ParseResult<Span>)
    requires
        old(state).wf(),
    ensures
        parsed(
            *old(state),
            *final(state),
            skip_extent(old(state).tokens@, old(state).cursor as int, TokenKind::SemiColon),
            r,
        ),
        final(state).attributes@ == old(state).attributes@,
        r matches Ok(span) ==> span == span_at(old(state).tokens@, old(state).cursor as int),
{
    skip(state, TokenKind::SemiColon)
}

/// Consumes `{`.
pub fn skip_left_brace(state: &mut State) -> (r: ParseResult<Span>)
    requires
        old(state).wf(),
    ensures
        parsed(
            *old(state),
            *final(state),
            skip_extent(old(state).tokens@, old(state).cursor as int, TokenKind::LeftBrace),
            r,
        ),
        final(state).attributes@ == old(state).attributes@,
        r matches Ok(span) ==> span == span_at(old(state).tokens@, old(state).cursor as int),
{
    skip(state, TokenKind::LeftBrace)
}

/// Consumes `}`.
pub fn skip_right_brace(state: &mut State) -> (r: ParseResult<Span>)
    requires
        old(state).wf(),
    ensures
        parsed(
            *old(state),
            *final(state),
            skip_extent(old(state).tokens@, old(state).cursor as int, TokenKind::RightBrace),
            r,
        ),
        final(state).attributes@ == old(state).attributes@,
        r matches Ok(span) ==> span == span_at(old(state).tokens@, old(state).cursor as int),
{
    skip(state, TokenKind::RightBrace)
}

/// Consumes `(`.
pub fn skip_left_parenthesis(state: &mut State) -> (r: ParseResult<Span>)
    requires
        old(state).wf(),
    ensures
        parsed(
            *old(state),
            *final(state),
            skip_extent(old(state).tokens@, old(state).cursor as int, TokenKind::LeftParen),
            r,
        ),
        final(state).attributes@ == old(state).attributes@,
        r matches Ok(span) ==> span == span_at(old(state).tokens@, old(state).cursor as int),
{
    skip(state, TokenKind::LeftParen)
}

/// Consumes `)`.
pub fn skip_right_parenthesis(state: &mut State) -> (r: ParseResult<Span>)
    requires
        old(state).wf(),
    ensures
        parsed(
            *old(state),
            *final(state),
            skip_extent(old(state).tokens@, old(state).cursor as int, TokenKind::RightParen),
            r,
        ),
        final(state).attributes@ == old(state).attributes@,
        r matches Ok(span) ==> span == span_at(old(state).tokens@, old(state).cursor as int),
{
    skip(state, TokenKind::RightParen)
}

/// Consumes `:`.
pub fn skip_colon(state: &mut State) -> (r: ParseResult<Span>)
    requires
        old(state).wf(),
    ensures
        parsed(
            *old(state),
            *final(state),
            skip_extent(old(state).tokens@, old(state).cursor as int, TokenKind::Colon),
            r,
        ),
        final(state).attributes@ == old(state).attributes@,
        r matches Ok(span) ==> span == span_at(old(state).tokens@, old(state).cursor as int),
{
    skip(state, TokenKind::Colon)
}

/// One token of the given kind, then what `inner` takes from the next.
pub open spec fn opening(tokens: Seq<Token>, pos: int, kind: TokenKind, inner: Extent) -> Extent {
    if kind_at(tokens, pos) == kind {
        after(1, inner)
    } else {
        stopped(tokens, pos, pos, Expectation::Token(kind))
    }
}

/// An ending is `;` or `?>`.
pub open spec fn ending_extent(tokens: Seq<Token>, pos: int) -> Extent {
    if kind_at(tokens, pos) == TokenKind::SemiColon || kind_at(tokens, pos)
        == TokenKind::CloseTag {
        Ok(1)
    } else {
        stopped(tokens, pos, pos, Expectation::Ending)
    }
}

/// What `inner` takes from `pos`, then an ending.
pub open spec fn ending_after(tokens: Seq<Token>, pos: int, inner: Extent) -> Extent {
    match inner {
        Ok(n) => after(n, ending_extent(tokens, pos + n)),
        Err(e) => Err(e),
    }
}

impl Ending {
    /// The node is the token at `pos`.
    pub open spec fn stands_at(self, tokens: Seq<Token>, pos: int) -> bool {
        match self {
            Ending::Semicolon(span) => kind_at(tokens, pos) == TokenKind::SemiColon && span
                == span_at(tokens, pos),
            Ending::CloseTag(span) => kind_at(tokens, pos) == TokenKind::CloseTag && span
                == span_at(tokens, pos),
        }
    }
}

/// Consumes `;` or `?>`, and says which it was.
pub fn skip_ending(state: &mut State) -> (r: ParseResult<Ending>)
    requires
        old(state).wf(),
    ensures
        parsed(
            *old(state),
            *final(state),
            ending_extent(old(state).tokens@, old(state).cursor as int),
            r,
        ),
        final(state).attributes@ == old(state).attributes@,
        r matches Ok(ending) ==> ending.stands_at(old(state).tokens@, old(state).cursor as int),
        r matches Ok(node) ==> lossless(
            node.atoms(),
            old(state).tokens@,
            old(state).cursor as int,
            final(state).cursor as int,
        ),
{
    let ghost tokens = state.tokens@;
    let ghost pos = state.cursor as int;
    let current = state.current();
    let kind = current.kind;
    let span = current.span;
    if kind == TokenKind::CloseTag {
        state.next();
        proof {
            lemma_lossless_mark(TokenKind::CloseTag, span, tokens, pos);
        }
        Ok(Ending::CloseTag(span))
    } else if kind == TokenKind::SemiColon {
        state.next();
        proof {
            lemma_lossless_mark(TokenKind::SemiColon, span, tokens, pos);
        }
        Ok(Ending::Semicolon(span))
    } else {
        Err(ParseError::UnexpectedToken { expected: Expectation::Ending, found: kind, span })
    }
}

/// `(`, an expression, `)`.
pub open spec fn parenthesized_extent(tokens: Seq<Token>, pos: int) -> Extent {
    opening(
        tokens,
        pos,
        TokenKind::LeftParen,
        closing(tokens, pos + 1, expression_extent(tokens, pos + 1), TokenKind::RightParen),
    )
}

/// Reads an expression between `(` and `)`, and returns it between the
/// spans of the two.
pub fn parenthesized(state: &mut State) -> (r: ParseResult<(Span, Expression, Span)>)
    requires
        old(state).wf(),
    ensures
        parsed(
            *old(state),
            *final(state),
            parenthesized_extent(old(state).tokens@, old(state).cursor as int),
            r,
        ),
        final(state).attributes@ == old(state).attributes@,
        r matches Ok((left, expression, right)) ==> {
            let tokens = old(state).tokens@;
            let pos = old(state).cursor as int;
            &&& left == span_at(tokens, pos)
            &&& expression.stands_at(tokens, pos + 1)
            &&& expression_extent(tokens, pos + 1) matches Ok(n) && right == span_at(
                tokens,
                pos + 1 + n,
            )
        },
        r matches Ok((left, expression, right)) ==> {
            let tokens = old(state).tokens@;
            let pos = old(state).cursor as int;
            &&& final(state).cursor >= pos + 2
            &&& lossless(expression.atoms(), tokens, pos + 1, final(state).cursor - 1)
            &&& kind_at(tokens, pos) == TokenKind::LeftParen
            &&& kind_at(tokens, final(state).cursor - 1) == TokenKind::RightParen
            &&& right == span_at(tokens, final(state).cursor - 1)
        },
{
    let left = skip_left_parenthesis(state)?;
    let expression = create(state)?;
    let right = skip_right_parenthesis(state)?;
    Ok((left, expression, right))
}

/// Where item `i` of a list of expressions starts, if the list starts at
/// `pos`: behind the item before it and that item's comma.
pub open spec fn item_start(tokens: Seq<Token>, pos: int, i: nat) -> int
    decreases i,
{
    if i == 0 {
        pos
    } else {
        let before = item_start(tokens, pos, (i - 1) as nat);
        match expression_extent(tokens, before) {
            Ok(n) => before + n + 1,
            Err(_) => before,
        }
    }
}

/// A list of expressions parted by commas, up to a token of kind `until`,
/// which is left in place. The list may be empty. A comma directly before
/// the closing token is reported, as not being that token.
#[verifier::opaque]
pub open spec fn comma_separated_extent(tokens: Seq<Token>, pos: int, until: TokenKind) -> Extent
    decreases remaining(tokens, pos),
{
    if kind_at(tokens, pos) == until {
        Ok(0)
    } else {
        match expression_extent(tokens, pos) {
            Err(e) => Err(e),
            Ok(n) => if kind_at(tokens, pos + n) != TokenKind::Comma {
                Ok(n)
            } else if kind_at(tokens, pos + n + 1) == until {
                stopped(tokens, pos, pos + n, Expectation::Token(until))
            } else {
                after(n + 1, comma_separated_extent(tokens, pos + n + 1, until))
            },
        }
    }
}

/// The definition of `comma_separated_extent`, unfolded once.
pub proof fn lemma_comma_separated_extent(tokens: Seq<Token>, pos: int, until: TokenKind)
    ensures
        comma_separated_extent(tokens, pos, until) == {
            if kind_at(tokens, pos) == until {
                Ok(0)
            } else {
                match expression_extent(tokens, pos) {
                    Err(e) => Err(e),
                    Ok(n) => if kind_at(tokens, pos + n) != TokenKind::Comma {
                        Ok(n)
                    } else if kind_at(tokens, pos + n + 1) == until {
                        stopped(tokens, pos, pos + n, Expectation::Token(until))
                    } else {
                        after(n + 1, comma_separated_extent(tokens, pos + n + 1, until))
                    },
                }
            }
        },
{
    reveal_with_fuel(comma_separated_extent, 1);
}

/// Where the comma behind item `i` of a list that starts at `pos` stands.
pub open spec fn comma_at(tokens: Seq<Token>, pos: int, i: int) -> int {
    item_start(tokens, pos, (i + 1) as nat) - 1
}

/// Each of the spans is that of the comma behind the item of its index,
/// in a list that starts at `pos`.
pub open spec fn commas_stand_at(commas: Seq<Span>, tokens: Seq<Token>, pos: int) -> bool {
    &&& forall|i: int|
        0 <= i < commas.len() ==> #[trigger] commas[i] == span_at(tokens, comma_at(tokens, pos, i))
    &&& forall|i: int|
        0 <= i < commas.len() ==> #[trigger] kind_at(tokens, comma_at(tokens, pos, i))
            == TokenKind::Comma
}

impl CommaSeparated<Expression> {
    /// The list is the tree of the expressions and commas from `pos` up to
    /// the token of kind `until` that closes it: each item stands behind
    /// the comma of the one before it, and no comma follows the last.
    pub open spec fn stands_at(self, tokens: Seq<Token>, pos: int, until: TokenKind) -> bool {
        let n = self.inner@.len();
        &&& self.no_trailing()
        &&& forall|i: int|
            0 <= i < n ==> (#[trigger] self.inner@[i]).stands_at(
                tokens,
                item_start(tokens, pos, i as nat),
            )
        &&& commas_stand_at(self.commas@, tokens, pos)
        &&& if n == 0 {
            kind_at(tokens, pos) == until
        } else {
            kind_at(tokens, pos) != until && kind_at(tokens, item_start(tokens, pos, n) - 1)
                != TokenKind::Comma
        }
    }
}

/// Reads expressions parted by commas until the token under the cursor is
/// of kind `until`. A comma may not stand directly before that token.
pub fn comma_separated_no_trailing(state: &mut State, until: TokenKind) -> (r: ParseResult<
    CommaSeparated<Expression>,
>)
    requires
        old(state).wf(),
    ensures
        parsed(
            *old(state),
            *final(state),
            comma_separated_extent(old(state).tokens@, old(state).cursor as int, until),
            r,
        ),
        final(state).attributes@ == old(state).attributes@,
        r matches Ok(list) ==> list.no_trailing() && list.stands_at(
            old(state).tokens@,
            old(state).cursor as int,
            until,
        ),
        r matches Ok(list) ==> lossless(
            expressions_atoms(list),
            old(state).tokens@,
            old(state).cursor as int,
            final(state).cursor as int,
        ),
{
    let ghost tokens = state.tokens@;
    let ghost start = state.cursor as int;
    let mut inner: Vec<Expression> = Vec::new();
    let mut commas: Vec<Span> = Vec::new();
    proof {
        lemma_lossless_nothing(tokens, start);
    }
    loop
        invariant
            state.wf(),
            state.tokens@ == tokens,
            state.attributes@ == old(state).attributes@,
            start == old(state).cursor,
            tokens == old(state).tokens@,
            start <= state.cursor,
            inner@.len() == commas@.len(),
            state.cursor == item_start(tokens, start, inner@.len()),
            forall|i: int|
                0 <= i < inner@.len() ==> (#[trigger] inner@[i]).stands_at(
                    tokens,
                    item_start(tokens, start, i as nat),
                ),
            commas_stand_at(commas@, tokens, start),
            inner@.len() > 0 ==> kind_at(tokens, start) != until,
            comma_separated_extent(tokens, start, until) == after(
                (state.cursor - start) as nat,
                comma_separated_extent(tokens, state.cursor as int, until),
            ),
            inner@.len() > 0 ==> kind_at(tokens, state.cursor as int) != until,
            lossless(
                listed(inner@, commas@, expression_item(), inner@.len()),
                tokens,
                start,
                state.cursor as int,
            ),
        decreases tokens.len() - state.cursor,
    {
        let ghost here = state.cursor as int;
        proof {
            lemma_comma_separated_extent(tokens, here, until);
        }
        let ghost before = commas@;
        let ghost items = inner@;
        let ghost so_far = listed(items, before, expression_item(), items.len());
        if state.current().kind == until {
            return Ok(CommaSeparated { inner, commas });
        }
        let expression = create(state)?;
        let ghost read = expression.atoms();
        inner.push(expression);
        let current = state.current();
        let ghost comma = state.cursor as int;
        proof {
            assert(item_start(tokens, start, (inner@.len() - 1) as nat) == here);
            assert(item_start(tokens, start, inner@.len()) == comma + 1);
            lemma_listed_prefix(items, before, inner@, before, expression_item(), items.len());
        }
        if current.kind != TokenKind::Comma {
            proof {
                lemma_lossless_nothing(tokens, comma);
                lemma_lossless_join3(
                    so_far,
                    read,
                    Seq::<Atom>::empty(),
                    tokens,
                    start,
                    here,
                    comma,
                    comma,
                );
            }
            return Ok(CommaSeparated { inner, commas });
        }
        let span = current.span;
        if state.peek().kind == until {
            return Err(
                ParseError::UnexpectedToken {
                    expected: Expectation::Token(until),
                    found: TokenKind::Comma,
                    span,
                },
            );
        }
        commas.push(span);
        state.next();
        proof {
            assert(comma_at(tokens, start, inner@.len() - 1) == comma);
            lemma_listed_prefix(items, before, inner@, commas@, expression_item(), items.len());
            lemma_lossless_mark(TokenKind::Comma, span, tokens, comma);
            lemma_lossless_join3(
                so_far,
                read,
                seq![mark(TokenKind::Comma, span)],
                tokens,
                start,
                here,
                comma,
                comma + 1,
            );
        }
    }
}

/// A list of expressions parted by commas, then `;`.
pub open spec fn semicolon_terminated_extent(tokens: Seq<Token>, pos: int) -> Extent {
    closing(
        tokens,
        pos,
        comma_separated_extent(tokens, pos, TokenKind::SemiColon),
        TokenKind::SemiColon,
    )
}

/// Reads a list of expressions and the `;` that closes it, and returns the
/// span of the `;` and the list.
pub fn semicolon_terminated(state: &mut State) -> (r: ParseResult<
    (Span, CommaSeparated<Expression>),
>)
    requires
        old(state).wf(),
    ensures
        parsed(
            *old(state),
            *final(state),
            semicolon_terminated_extent(old(state).tokens@, old(state).cursor as int),
            r,
        ),
        final(state).attributes@ == old(state).attributes@,
        r matches Ok((semicolon, list)) ==> {
            let tokens = old(state).tokens@;
            let pos = old(state).cursor as int;
            &&& list.no_trailing()
            &&& list.stands_at(tokens, pos, TokenKind::SemiColon)
            &&& comma_separated_extent(tokens, pos, TokenKind::SemiColon) matches Ok(n)
                && semicolon == span_at(tokens, pos + n)
        },
        r matches Ok((semicolon, list)) ==> {
            let tokens = old(state).tokens@;
            let pos = old(state).cursor as int;
            &&& final(state).cursor >= pos + 1
            &&& lossless(expressions_atoms(list), tokens, pos, final(state).cursor - 1)
            &&& kind_at(tokens, final(state).cursor - 1) == TokenKind::SemiColon
            &&& semicolon == span_at(tokens, final(state).cursor - 1)
        },
{
    let list = comma_separated_no_trailing(state, TokenKind::SemiColon)?;
    let semicolon = skip_semicolon(state)?;
    Ok((semicolon, list))
}

} // verus!
