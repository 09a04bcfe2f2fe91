//! The cursor over the token stream.

use vstd::prelude::*;
use crate::ast::attributes::AttributeGroup;
use crate::parser::error::Extent;
use crate::parser::error::Failure;
use crate::parser::error::ParseResult;
use crate::parser::error::failed;
use crate::parser::error::kind_at;
use crate::parser::error::token_at;
use crate::token::Token;
use crate::token::TokenKind;

verus! {

/// The parser's state: the tokens, the place of the cursor in them, and the
/// attribute groups that were read and wait for the declaration they precede.
pub struct State {
    pub tokens: Vec<Token>,
    pub cursor: usize,
    pub attributes: Vec<AttributeGroup>,
}

/// A stream that a cursor can run over: not empty, and closed by the sentinel.
pub open spec fn closed(tokens: Seq<Token>) -> bool {
    tokens.len() > 0 && tokens.last().kind == TokenKind::Eof
}

/// What holds of the state before and after a production with the given
/// extent: the stream is the same, and the production either succeeded and
/// left the cursor behind the tokens it consumed, or failed with the
/// extent's error and left the cursor behind the tokens it had consumed by
/// then.
pub open spec fn parsed<T>(
    before: State,
    after: State,
    extent: Extent,
    result: ParseResult<T>,
) -> bool {
    &&& after.wf()
    &&& after.tokens@ == before.tokens@
    &&& before.cursor <= after.cursor
    &&& match result {
        Ok(_) => extent == Ok::<nat, Failure>((after.cursor - before.cursor) as nat),
        Err(e) => extent == failed(e, (after.cursor - before.cursor) as nat),
    }
}

/// Two runs of one production from the same place in the same stream end
/// alike: both fail, with the same error, or both succeed, and either way
/// they have consumed as many tokens. (The error and the number are those
/// of the production's extent, which is a function of the stream and the
/// place.)
pub proof fn lemma_runs_end_alike<T>(
    extent: Extent,
    before: State,
    after: State,
    result: ParseResult<T>,
    again_before: State,
    again_after: State,
    again_result: ParseResult<T>,
)
    requires
        parsed(before, after, extent, result),
        parsed(again_before, again_after, extent, again_result),
    ensures
        result is Err <==> again_result is Err,
        result matches Err(e) ==> again_result matches Err(f) && e == f,
        after.cursor - before.cursor == again_after.cursor - again_before.cursor,
{
}

impl State {
    /// The stream is closed and the cursor is in it, or just behind it.
    pub open spec fn wf(&self) -> bool {
        closed(self.tokens@) && self.cursor <= self.tokens@.len()
    }

    /// Well-formed, and no attribute group waits for a declaration.
    pub open spec fn settled(&self) -> bool {
        self.wf() && self.attributes@.len() == 0
    }

    /// A cursor at the start of `tokens`, with no attribute group waiting.
    pub fn new(tokens: Vec<Token>) -> (state: State)
        requires
            closed(tokens@),
        ensures
            state.settled(),
            state.tokens@ == tokens@,
            state.cursor == 0,
    {
        State { tokens, cursor: 0, attributes: Vec::new() }
    }

    /// The token under the cursor; behind the last token, the last token.
    pub fn current(&self) -> (token: &Token)
        requires
            self.wf(),
        ensures
            *token == token_at(self.tokens@, self.cursor as int),
            token.kind == kind_at(self.tokens@, self.cursor as int),
    {
        if self.cursor < self.tokens.len() {
            &self.tokens[self.cursor]
        } else {
            &self.tokens[self.tokens.len() - 1]
        }
    }

    /// The token after the one under the cursor; at the end, the last token.
    pub fn peek(&self) -> (token: &Token)
        requires
            self.wf(),
        ensures
            *token == token_at(self.tokens@, self.cursor + 1),
            token.kind == kind_at(self.tokens@, self.cursor + 1),
    {
        if self.cursor < self.tokens.len() - 1 {
            &self.tokens[self.cursor + 1]
        } else {
            &self.tokens[self.tokens.len() - 1]
        }
    }

    /// Moves the cursor one token on. It never goes further than just
    /// behind the last token.
    pub fn next(&mut self)
        requires
            old(self).wf(),
        ensures
            final(self).wf(),
            final(self).tokens@ == old(self).tokens@,
            final(self).attributes@ == old(self).attributes@,
            final(self).cursor == if old(self).cursor < old(self).tokens@.len() {
                old(self).cursor + 1
            } else {
                old(self).cursor as int
            },
    {
        if self.cursor < self.tokens.len() {
            self.cursor = self.cursor + 1;
        }
    }

    /// Whether the cursor is on the sentinel.
    pub fn is_eof(&self) -> (r: bool)
        requires
            self.wf(),
        ensures
            r == (kind_at(self.tokens@, self.cursor as int) == TokenKind::Eof),
    {
        self.current().kind == TokenKind::Eof
    }

    /// Puts an attribute group in wait for the next declaration.
    pub fn attribute(&mut self, group: AttributeGroup)
        ensures
            final(self).tokens@ == old(self).tokens@,
            final(self).cursor == old(self).cursor,
            final(self).attributes@ == old(self).attributes@.push(group),
    {
        self.attributes.push(group);
    }

    /// Takes the attribute groups that wait, in the order they were read.
    pub fn get_attributes(&mut self) -> (groups: Vec<AttributeGroup>)
        ensures
            groups@ == old(self).attributes@,
            final(self).attributes@.len() == 0,
            final(self).tokens@ == old(self).tokens@,
            final(self).cursor == old(self).cursor,
    {
        let mut groups: Vec<AttributeGroup> = Vec::new();
        std::mem::swap(&mut self.attributes, &mut groups);
        groups
    }
}

} // verus!
