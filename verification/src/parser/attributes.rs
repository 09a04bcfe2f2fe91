//! Attribute groups.

use vstd::prelude::*;
use crate::ast::atom::Atom;
use crate::ast::atom::mark;
use crate::ast::attributes::AttributeGroup;
use crate::ast::attributes::groups_atoms;
use crate::ast::identifiers::IdentifierForm;
use crate::ast::identifiers::SimpleIdentifier;
use crate::ast::utils::CommaSeparated;
use crate::ast::utils::lemma_listed_prefix;
use crate::ast::utils::listed;
use crate::ast::utils::name_item;
use crate::ast::utils::names_list_atoms;
use crate::parser::error::Extent;
use crate::parser::error::Failure;
use crate::parser::error::ParseResult;
use crate::parser::error::kind_at;
use crate::parser::error::span_at;
use crate::parser::identifiers::full_type_name;
use crate::parser::identifiers::name_extent;
use crate::parser::lossless::lemma_lossless_join3;
use crate::parser::lossless::lemma_lossless_join;
use crate::parser::lossless::lemma_lossless_mark;
use crate::parser::lossless::lemma_lossless_nothing;
use crate::parser::lossless::lossless;
use crate::parser::state::State;
use crate::parser::state::parsed;
use crate::parser::traits::names_stand_at;
use crate::parser::utils::after;
use crate::parser::utils::closing;
use crate::parser::utils::opening;
use crate::parser::utils::remaining;
use crate::parser::utils::skip;
use crate::span::Span;
use crate::token::Token;
use crate::token::TokenKind;

verus! {

/// The names of one group: one or more, parted by commas; a comma may also
/// stand behind the last.
pub open spec fn attribute_names_extent(tokens: Seq<Token>, pos: int) -> Extent
    decreases remaining(tokens, pos),
{
    match name_extent(tokens, pos, IdentifierForm::FullyQualified) {
        Err(e) => Err(e),
        Ok(_) => if kind_at(tokens, pos + 1) != TokenKind::Comma {
            Ok(1)
        } else if kind_at(tokens, pos + 2) == TokenKind::RightBracket {
            Ok(2)
        } else {
            after(2, attribute_names_extent(tokens, pos + 2))
        },
    }
}

/// `#[`, names, `]`.
pub open spec fn attribute_group_extent(tokens: Seq<Token>, pos: int) -> Extent {
    opening(
        tokens,
        pos,
        TokenKind::Attribute,
        closing(tokens, pos + 1, attribute_names_extent(tokens, pos + 1), TokenKind::RightBracket),
    )
}

/// Attribute groups, as long as `#[` stands under the cursor. (The test on
/// what a group takes makes the definition well-founded. It never fails: a
/// group starts with `#[`.)
pub open spec fn attributes_extent(tokens: Seq<Token>, pos: int) -> Extent
    decreases remaining(tokens, pos),
{
    if kind_at(tokens, pos) != TokenKind::Attribute {
        Ok(0)
    } else {
        match attribute_group_extent(tokens, pos) {
            Err(e) => Err(e),
            Ok(n) => if 0 < n && pos < tokens.len() {
                after(n, attributes_extent(tokens, pos + n))
            } else {
                Ok(n)
            },
        }
    }
}

/// Where group `i` starts, if the first starts at `pos`.
pub open spec fn group_start(tokens: Seq<Token>, pos: int, i: nat) -> int
    decreases i,
{
    if i == 0 {
        pos
    } else {
        let before = group_start(tokens, pos, (i - 1) as nat);
        match attribute_group_extent(tokens, before) {
            Ok(n) => before + n,
            Err(_) => before,
        }
    }
}

impl AttributeGroup {
    /// The node is the tree of the attribute group that starts at `pos`.
    pub open spec fn stands_at(self, tokens: Seq<Token>, pos: int) -> bool {
        let names = self.members.inner@;
        let commas = self.members.commas@;
        &&& kind_at(tokens, pos) == TokenKind::Attribute
        &&& self.start == span_at(tokens, pos)
        &&& names.len() >= 1
        &&& commas.len() == names.len() || commas.len() == names.len() - 1
        &&& names_stand_at(names, tokens, pos + 1)
        &&& forall|i: int|
            0 <= i < commas.len() ==> #[trigger] commas[i] == span_at(tokens, pos + 2 + 2 * i)
        &&& attribute_names_extent(tokens, pos + 1) == Ok::<nat, Failure>(
            names.len() + commas.len(),
        )
        &&& self.end == span_at(tokens, pos + 1 + names.len() + commas.len())
    }
}

/// Each of the groups is the tree of the group that starts where the one
/// before it ends, the first of them at `pos`.
pub open spec fn groups_stand_at(
    groups: Seq<AttributeGroup>,
    tokens: Seq<Token>,
    pos: int,
) -> bool {
    forall|i: int|
        0 <= i < groups.len() ==> (#[trigger] groups[i]).stands_at(
            tokens,
            group_start(tokens, pos, i as nat),
        )
}

/// Reads the names of one group.
fn attribute_names(state: &mut State) -> (r: ParseResult<CommaSeparated<SimpleIdentifier>>)
    requires
        old(state).wf(),
    ensures
        parsed(
            *old(state),
            *final(state),
            attribute_names_extent(old(state).tokens@, old(state).cursor as int),
            r,
        ),
        final(state).attributes@ == old(state).attributes@,
        r matches Ok(list) ==> {
            let tokens = old(state).tokens@;
            let pos = old(state).cursor as int;
            &&& list.inner@.len() >= 1
            &&& list.commas@.len() == list.inner@.len() || list.commas@.len() == list.inner@.len()
                - 1
            &&& names_stand_at(list.inner@, tokens, pos)
            &&& forall|i: int|
                0 <= i < list.commas@.len() ==> #[trigger] list.commas@[i] == span_at(
                    tokens,
                    pos + 1 + 2 * i,
                )
            &&& final(state).cursor == pos + list.inner@.len() + list.commas@.len()
        },
        r matches Ok(list) ==> lossless(
            names_list_atoms(list),
            old(state).tokens@,
            old(state).cursor as int,
            final(state).cursor as int,
        ),
{
    let ghost tokens = state.tokens@;
    let ghost start = state.cursor as int;
    let mut inner: Vec<SimpleIdentifier> = Vec::new();
    let mut commas: Vec<Span> = Vec::new();
    proof {
        lemma_lossless_nothing(tokens, start);
    }
    loop
        invariant
            state.wf(),
            state.tokens@ == tokens,
            state.attributes@ == old(state).attributes@,
            tokens == old(state).tokens@,
            start == old(state).cursor,
            inner@.len() == commas@.len(),
            state.cursor == start + 2 * inner@.len(),
            names_stand_at(inner@, tokens, start),
            forall|i: int|
                0 <= i < commas@.len() ==> #[trigger] commas@[i] == span_at(
                    tokens,
                    start + 1 + 2 * i,
                ),
            attribute_names_extent(tokens, start) == after(
                (state.cursor - start) as nat,
                attribute_names_extent(tokens, state.cursor as int),
            ),
            lossless(
                listed(inner@, commas@, name_item(), inner@.len()),
                tokens,
                start,
                state.cursor as int,
            ),
        decreases tokens.len() - state.cursor,
    {
        let ghost here = state.cursor as int;
        let ghost before = commas@;
        let ghost items = inner@;
        let ghost so_far = listed(items, before, name_item(), items.len());
        let name = full_type_name(state)?;
        let ghost read = name.atoms();
        inner.push(name);
        let current = state.current();
        proof {
            lemma_listed_prefix(items, before, inner@, before, name_item(), items.len());
        }
        if current.kind != TokenKind::Comma {
            proof {
                lemma_lossless_nothing(tokens, here + 1);
                lemma_lossless_join3(
                    so_far,
                    read,
                    Seq::<Atom>::empty(),
                    tokens,
                    start,
                    here,
                    here + 1,
                    here + 1,
                );
            }
            return Ok(CommaSeparated { inner, commas });
        }
        let span = current.span;
        commas.push(span);
        state.next();
        proof {
            lemma_listed_prefix(items, before, inner@, commas@, name_item(), items.len());
            lemma_lossless_mark(TokenKind::Comma, span, tokens, here + 1);
            lemma_lossless_join3(
                so_far,
                read,
                seq![mark(TokenKind::Comma, span)],
                tokens,
                start,
                here,
                here + 1,
                here + 2,
            );
        }
        if state.current().kind == TokenKind::RightBracket {
            return Ok(CommaSeparated { inner, commas });
        }
    }
}

/// Reads one attribute group.
pub fn attribute_group(state: &mut State) -> (r: ParseResult<AttributeGroup>)
    requires
        old(state).wf(),
    ensures
        parsed(
            *old(state),
            *final(state),
            attribute_group_extent(old(state).tokens@, old(state).cursor as int),
            r,
        ),
        final(state).attributes@ == old(state).attributes@,
        r matches Ok(group) ==> group.stands_at(old(state).tokens@, old(state).cursor as int),
        r matches Ok(group) ==> old(state).cursor < final(state).cursor && lossless(
            group.atoms(),
            old(state).tokens@,
            old(state).cursor as int,
            final(state).cursor as int,
        ),
{
    let ghost tokens = state.tokens@;
    let ghost pos = state.cursor as int;
    let start = skip(state, TokenKind::Attribute)?;
    let members = attribute_names(state)?;
    let ghost close = state.cursor as int;
    let end = skip(state, TokenKind::RightBracket)?;
    let group = AttributeGroup { start, members, end };
    proof {
        lemma_lossless_mark(TokenKind::Attribute, start, tokens, pos);
        lemma_lossless_mark(TokenKind::RightBracket, end, tokens, close);
        lemma_lossless_join3(
            seq![mark(TokenKind::Attribute, start)],
            names_list_atoms(group.members),
            seq![mark(TokenKind::RightBracket, end)],
            tokens,
            pos,
            pos + 1,
            close,
            close + 1,
        );
    }
    Ok(group)
}

/// Reads the attribute groups under the cursor and puts them in wait for
/// the declaration that follows. Returns whether there was any.
pub fn gather_attributes(state: &mut State) -> (r: ParseResult<bool>)
    requires
        old(state).wf(),
    ensures
        parsed(
            *old(state),
            *final(state),
            attributes_extent(old(state).tokens@, old(state).cursor as int),
            r,
        ),
        r matches Ok(any) ==> {
            let tokens = old(state).tokens@;
            let pos = old(state).cursor as int;
            let waiting = old(state).attributes@.len() as int;
            let now = final(state).attributes@;
            &&& any == (kind_at(tokens, pos) == TokenKind::Attribute)
            &&& any == (now.len() > waiting)
            &&& now.len() >= waiting
            &&& now.subrange(0, waiting) == old(state).attributes@
            &&& groups_stand_at(now.subrange(waiting, now.len() as int), tokens, pos)
            &&& final(state).cursor == group_start(tokens, pos, (now.len() - waiting) as nat)
        },
        r matches Ok(any) ==> lossless(
            groups_atoms(
                final(state).attributes@.subrange(
                    old(state).attributes@.len() as int,
                    final(state).attributes@.len() as int,
                ),
            ),
            old(state).tokens@,
            old(state).cursor as int,
            final(state).cursor as int,
        ),
{
    let ghost tokens = state.tokens@;
    let ghost start = state.cursor as int;
    let ghost waiting = state.attributes@.len() as int;
    let mut any = false;
    proof {
        lemma_lossless_nothing(tokens, start);
        assert(state.attributes@.subrange(waiting, waiting) =~= Seq::<AttributeGroup>::empty());
    }
    while state.current().kind == TokenKind::Attribute
        invariant
            state.wf(),
            state.tokens@ == tokens,
            tokens == old(state).tokens@,
            start == old(state).cursor,
            waiting == old(state).attributes@.len(),
            start <= state.cursor,
            state.attributes@.len() >= waiting,
            any == (state.attributes@.len() > waiting),
            any ==> kind_at(tokens, start) == TokenKind::Attribute,
            !any ==> state.cursor == start,
            state.attributes@.subrange(0, waiting) == old(state).attributes@,
            groups_stand_at(
                state.attributes@.subrange(waiting, state.attributes@.len() as int),
                tokens,
                start,
            ),
            state.cursor == group_start(
                tokens,
                start,
                (state.attributes@.len() - waiting) as nat,
            ),
            attributes_extent(tokens, start) == after(
                (state.cursor - start) as nat,
                attributes_extent(tokens, state.cursor as int),
            ),
            lossless(
                groups_atoms(state.attributes@.subrange(waiting, state.attributes@.len() as int)),
                tokens,
                start,
                state.cursor as int,
            ),
        decreases tokens.len() - state.cursor,
    {
        let ghost here = state.cursor as int;
        let ghost before = state.attributes@;
        let group = attribute_group(state)?;
        let ghost read = group.atoms();
        state.attribute(group);
        any = true;
        proof {
            let now = state.attributes@;
            let fresh = now.subrange(waiting, now.len() as int);
            let earlier = before.subrange(waiting, before.len() as int);
            assert(now.subrange(0, waiting) =~= before.subrange(0, waiting));
            assert(group_start(tokens, start, (before.len() - waiting) as nat) == here);
            assert forall|i: int| 0 <= i < fresh.len() implies (#[trigger] fresh[i]).stands_at(
                tokens,
                group_start(tokens, start, i as nat),
            ) by {
                if i < earlier.len() {
                    assert(fresh[i] == earlier[i]);
                }
            }
            assert(fresh.drop_last() =~= earlier);
            lemma_lossless_join(
                groups_atoms(earlier),
                read,
                tokens,
                start,
                here,
                state.cursor as int,
            );
        }
    }
    Ok(any)
}

} // verus!
