//! The lexical atoms of a node, in source order: the model in which the
//! tree is held against the token stream it was read from.

use vstd::prelude::*;
use crate::span::Span;
use crate::token::Token;
use crate::token::TokenKind;

verus! {

/// One lexical atom of a node: the kind of token it was read from, the
/// token's span and, where the node keeps them, the token's bytes.
pub struct Atom {
    pub kind: TokenKind,
    pub span: Span,
    pub value: Option<Seq<u8>>,
}

/// The atom of a keyword or punctuation mark, whose bytes the tree drops.
pub open spec fn mark(kind: TokenKind, span: Span) -> Atom {
    Atom { kind, span, value: None }
}

/// The atom of a name or literal, whose bytes the tree keeps.
pub open spec fn lexeme(kind: TokenKind, span: Span, value: Seq<u8>) -> Atom {
    Atom { kind, span, value: Some(value) }
}

/// The span from the start of `first` to the end of `second`.
pub open spec fn joined(first: Span, second: Span) -> Span {
    Span { start: first.start, end: second.end }
}

impl Atom {
    /// The atom stands for `token`: same kind, same span, and the same bytes
    /// where the atom has any.
    pub open spec fn stands_for(self, token: Token) -> bool {
        &&& self.kind == token.kind
        &&& self.span == token.span
        &&& (self.value matches Some(v) ==> v == token.value@)
    }

    /// The atom stands for `${` that came as two tokens, `$` and `{`: it
    /// is the mark of `${`, from the start of the one to the end of the
    /// other.
    pub open spec fn stands_for_both(self, first: Token, second: Token) -> bool {
        &&& self == mark(TokenKind::DollarLeftBrace, joined(first.span, second.span))
        &&& first.kind == TokenKind::Dollar
        &&& second.kind == TokenKind::LeftBrace
    }
}

/// `atoms` stand, in order, for the tokens from `start` up to `end`: each
/// for one token, but for `${` that came as the two tokens `$` and `{`, for
/// which one atom stands.
pub open spec fn covers(atoms: Seq<Atom>, tokens: Seq<Token>, start: int, end: int) -> bool
    decreases atoms.len(),
{
    &&& 0 <= start <= end <= tokens.len()
    &&& if atoms.len() == 0 {
        start == end
    } else {
        ||| start < end && atoms[0].stands_for(tokens[start]) && covers(
            atoms.drop_first(),
            tokens,
            start + 1,
            end,
        )
        ||| start + 1 < end && atoms[0].stands_for_both(tokens[start], tokens[start + 1])
            && covers(atoms.drop_first(), tokens, start + 2, end)
    }
}

/// One atom that stands for the token at `at` covers that token.
pub proof fn lemma_covers_one(atom: Atom, tokens: Seq<Token>, at: int)
    requires
        0 <= at < tokens.len(),
        atom.stands_for(tokens[at]),
    ensures
        covers(seq![atom], tokens, at, at + 1),
{
    assert(seq![atom].drop_first() =~= Seq::<Atom>::empty());
    assert(covers(Seq::<Atom>::empty(), tokens, at + 1, at + 1));
}

/// One atom that stands for `$` at `at` and `{` behind it covers both.
pub proof fn lemma_covers_both(atom: Atom, tokens: Seq<Token>, at: int)
    requires
        0 <= at,
        at + 1 < tokens.len(),
        atom.stands_for_both(tokens[at], tokens[at + 1]),
    ensures
        covers(seq![atom], tokens, at, at + 2),
{
    assert(seq![atom].drop_first() =~= Seq::<Atom>::empty());
    assert(covers(Seq::<Atom>::empty(), tokens, at + 2, at + 2));
}

/// Two runs of atoms that cover adjoining ranges cover, joined, the whole range.
pub proof fn lemma_covers_join(
    first: Seq<Atom>,
    second: Seq<Atom>,
    tokens: Seq<Token>,
    start: int,
    middle: int,
    end: int,
)
    requires
        covers(first, tokens, start, middle),
        covers(second, tokens, middle, end),
    ensures
        covers(first + second, tokens, start, end),
    decreases first.len(),
{
    if first.len() == 0 {
        assert(first + second =~= second);
    } else {
        let rest = first.drop_first();
        assert((first + second).drop_first() =~= rest + second);
        assert((first + second)[0] == first[0]);
        if start < middle && first[0].stands_for(tokens[start]) && covers(
            rest,
            tokens,
            start + 1,
            middle,
        ) {
            lemma_covers_join(rest, second, tokens, start + 1, middle, end);
        } else {
            lemma_covers_join(rest, second, tokens, start + 2, middle, end);
        }
    }
}

/// `part` is a run of `whole`: the atoms of a node among those of a node
/// that holds it.
pub open spec fn within(whole: Seq<Atom>, part: Seq<Atom>) -> bool {
    exists|k: int|
        0 <= k && k + part.len() <= whole.len() && #[trigger] whole.subrange(
            k,
            k + part.len(),
        ) == part
}

/// A run of atoms is a run of itself.
pub proof fn lemma_within_itself(atoms: Seq<Atom>)
    ensures
        within(atoms, atoms),
{
    assert(atoms.subrange(0, 0 + atoms.len() as int) =~= atoms);
}

/// A run of the front of two joined runs is a run of both.
pub proof fn lemma_within_front(front: Seq<Atom>, back: Seq<Atom>, part: Seq<Atom>)
    requires
        within(front, part),
    ensures
        within(front + back, part),
{
    let k = choose|k: int|
        0 <= k && k + part.len() <= front.len() && #[trigger] front.subrange(k, k + part.len())
            == part;
    assert((front + back).subrange(k, k + part.len()) =~= front.subrange(k, k + part.len()));
}

/// A run of the back of two joined runs is a run of both.
pub proof fn lemma_within_back(front: Seq<Atom>, back: Seq<Atom>, part: Seq<Atom>)
    requires
        within(back, part),
    ensures
        within(front + back, part),
{
    let k = choose|k: int|
        0 <= k && k + part.len() <= back.len() && #[trigger] back.subrange(k, k + part.len())
            == part;
    let at = front.len() + k;
    assert((front + back).subrange(at, at + part.len()) =~= back.subrange(k, k + part.len()));
}

/// A run of a run is a run.
pub proof fn lemma_within_within(whole: Seq<Atom>, middle: Seq<Atom>, part: Seq<Atom>)
    requires
        within(whole, middle),
        within(middle, part),
    ensures
        within(whole, part),
{
    let k = choose|k: int|
        0 <= k && k + middle.len() <= whole.len() && #[trigger] whole.subrange(
            k,
            k + middle.len(),
        ) == middle;
    let j = choose|j: int|
        0 <= j && j + part.len() <= middle.len() && #[trigger] middle.subrange(
            j,
            j + part.len(),
        ) == part;
    assert(whole.subrange(k + j, k + j + part.len()) =~= middle.subrange(j, j + part.len()));
}

/// The spans of the atoms do not run backwards, and none overlaps the next.
pub open spec fn in_order(atoms: Seq<Atom>) -> bool {
    &&& forall|i: int|
        0 <= i < atoms.len() ==> (#[trigger] atoms[i]).span.start.offset <= atoms[i].span.end.offset
    &&& forall|i: int, j: int|
        0 <= i < j < atoms.len() ==> (#[trigger] atoms[i]).span.end.offset <= (
        #[trigger] atoms[j]).span.start.offset
}

/// The spans of the tokens between `from` and `to` are in order: each token
/// has an extent, and none overlaps the next.
pub open spec fn spans_in_order(tokens: Seq<Token>, from: int, to: int) -> bool {
    &&& forall|i: int|
        0 <= from <= i < to <= tokens.len() ==> (#[trigger] tokens[i]).span.start.offset
            < tokens[i].span.end.offset
    &&& forall|i: int, j: int|
        0 <= from <= i < j < to <= tokens.len() ==> (#[trigger] tokens[i]).span.end.offset <= (
        #[trigger] tokens[j]).span.start.offset
}

/// The atoms stand in order, between the start of the token at `start` and
/// the end of the token before `end`; there are none where the range is
/// empty.
pub open spec fn bounded(atoms: Seq<Atom>, tokens: Seq<Token>, start: int, end: int) -> bool {
    &&& in_order(atoms)
    &&& start == end ==> atoms.len() == 0
    &&& forall|i: int|
        0 <= i < atoms.len() ==> tokens[start].span.start.offset <= (
        #[trigger] atoms[i]).span.start.offset && atoms[i].span.end.offset <= tokens[end
            - 1].span.end.offset
}

/// A run of atoms that stand in order stands in order.
pub proof fn lemma_part_in_order(whole: Seq<Atom>, part: Seq<Atom>)
    requires
        in_order(whole),
        within(whole, part),
    ensures
        in_order(part),
{
    let k = choose|k: int|
        0 <= k && k + part.len() <= whole.len() && #[trigger] whole.subrange(
            k,
            k + part.len(),
        ) == part;
    assert forall|i: int| 0 <= i < part.len() implies (#[trigger] part[i]).span.start.offset
        <= part[i].span.end.offset by {
        assert(part[i] == whole[k + i]);
    }
    assert forall|i: int, j: int| 0 <= i < j < part.len() implies (
    #[trigger] part[i]).span.end.offset <= (#[trigger] part[j]).span.start.offset by {
        assert(part[i] == whole[k + i]);
        assert(part[j] == whole[k + j]);
    }
}

/// In a run of atoms that stand in order, no run starts before the whole
/// does, and none ends behind it.
pub proof fn lemma_part_inside(whole: Seq<Atom>, part: Seq<Atom>)
    requires
        in_order(whole),
        within(whole, part),
        part.len() > 0,
    ensures
        whole.first().span.start.offset <= part.first().span.start.offset,
        part.last().span.end.offset <= whole.last().span.end.offset,
{
    let k = choose|k: int|
        0 <= k && k + part.len() <= whole.len() && #[trigger] whole.subrange(
            k,
            k + part.len(),
        ) == part;
    assert(whole.subrange(k, k + part.len())[0] == whole[k]);
    assert(whole.subrange(k, k + part.len())[part.len() - 1] == whole[k + part.len() - 1]);
    if k > 0 {
        assert(whole[0].span.end.offset <= whole[k].span.start.offset);
    }
    if k + part.len() < whole.len() {
        assert(whole[k + part.len() - 1].span.end.offset <= whole[whole.len() - 1].span.start.offset);
    }
}

/// The bytes of the source that the spans of the atoms name, one run behind
/// the other.
pub open spec fn text_of(atoms: Seq<Atom>, source: Seq<u8>) -> Seq<u8>
    decreases atoms.len(),
{
    if atoms.len() == 0 {
        Seq::empty()
    } else {
        text_of(atoms.drop_last(), source) + source.subrange(
            atoms.last().span.start.offset as int,
            atoms.last().span.end.offset as int,
        )
    }
}

/// Each atom ends where the next starts, none runs backwards, and all lie
/// in a source of `len` bytes.
pub open spec fn abutting(atoms: Seq<Atom>, len: nat) -> bool {
    &&& forall|i: int|
        0 <= i < atoms.len() ==> (#[trigger] atoms[i]).span.start.offset
            <= atoms[i].span.end.offset <= len
    &&& forall|i: int, j: int|
        0 <= i && j == i + 1 && j < atoms.len() ==> (#[trigger] atoms[i]).span.end.offset == (
        #[trigger] atoms[j]).span.start.offset
}

/// Where nothing stands between the atoms, the bytes that their spans name
/// are, one run behind the other, the source from the start of the first
/// atom to the end of the last.
pub proof fn lemma_text_reproduced(atoms: Seq<Atom>, source: Seq<u8>)
    requires
        atoms.len() > 0,
        abutting(atoms, source.len()),
    ensures
        atoms.first().span.start.offset <= atoms.last().span.end.offset,
        text_of(atoms, source) == source.subrange(
            atoms.first().span.start.offset as int,
            atoms.last().span.end.offset as int,
        ),
    decreases atoms.len(),
{
    let before = atoms.drop_last();
    let last = atoms.last();
    if before.len() == 0 {
        assert(text_of(before, source) =~= Seq::<u8>::empty());
        assert(text_of(atoms, source) =~= source.subrange(
            last.span.start.offset as int,
            last.span.end.offset as int,
        ));
    } else {
        assert forall|i: int| 0 <= i < before.len() implies (
        #[trigger] before[i]).span.start.offset <= before[i].span.end.offset <= source.len() by {
            assert(before[i] == atoms[i]);
        }
        assert forall|i: int, j: int| 0 <= i && j == i + 1 && j < before.len() implies (
        #[trigger] before[i]).span.end.offset == (#[trigger] before[j]).span.start.offset by {
            assert(before[i] == atoms[i]);
            assert(before[j] == atoms[j]);
        }
        lemma_text_reproduced(before, source);
        assert(before.last() == atoms[atoms.len() - 2]);
        assert(before.first() == atoms[0]);
        assert(atoms[atoms.len() - 2].span.end.offset == last.span.start.offset);
        assert(last == atoms[atoms.len() - 1]);
        assert(last.span.start.offset <= last.span.end.offset <= source.len());
        let a = atoms.first().span.start.offset as int;
        let m = last.span.start.offset as int;
        let e = last.span.end.offset as int;
        assert(source.subrange(a, m) + source.subrange(m, e) =~= source.subrange(a, e));
        assert(text_of(atoms, source) =~= source.subrange(
            atoms.first().span.start.offset as int,
            last.span.end.offset as int,
        ));
    }
}

/// Atoms that stand for tokens between which nothing stands abut, and
/// reach from the start of the first of the tokens to the end of the last.
pub proof fn lemma_covering_atoms_abut(
    atoms: Seq<Atom>,
    tokens: Seq<Token>,
    start: int,
    end: int,
    len: nat,
)
    requires
        covers(atoms, tokens, start, end),
        forall|i: int|
            start <= i < end ==> (#[trigger] tokens[i]).span.start.offset
                <= tokens[i].span.end.offset <= len,
        forall|i: int, j: int|
            start <= i && j == i + 1 && j < end ==> (#[trigger] tokens[i]).span.end.offset == (
            #[trigger] tokens[j]).span.start.offset,
    ensures
        abutting(atoms, len),
        atoms.len() > 0 ==> start < end && atoms[0].span.start.offset
            == tokens[start].span.start.offset,
    decreases atoms.len(),
{
    if atoms.len() > 0 {
        let rest = atoms.drop_first();
        let next = if atoms[0].stands_for(tokens[start]) && covers(rest, tokens, start + 1, end) {
            start + 1
        } else {
            start + 2
        };
        lemma_covering_atoms_abut(rest, tokens, next, end, len);
        assert(tokens[start].span.start.offset <= tokens[start].span.end.offset <= len);
        assert(tokens[next - 1].span.start.offset <= tokens[next - 1].span.end.offset <= len);
        if next == start + 2 {
            assert(tokens[start].span.end.offset == tokens[start + 1].span.start.offset);
        }
        assert(atoms[0].span.end.offset == tokens[next - 1].span.end.offset);
        assert(atoms[0].span.start.offset <= atoms[0].span.end.offset <= len);
        assert forall|i: int| 0 <= i < atoms.len() implies (
        #[trigger] atoms[i]).span.start.offset <= atoms[i].span.end.offset <= len by {
            if i > 0 {
                assert(atoms[i] == rest[i - 1]);
            }
        }
        assert forall|i: int, j: int| 0 <= i && j == i + 1 && j < atoms.len() implies (
        #[trigger] atoms[i]).span.end.offset == (#[trigger] atoms[j]).span.start.offset by {
            assert(atoms[j] == rest[j - 1]);
            if i > 0 {
                assert(atoms[i] == rest[i - 1]);
            } else {
                assert(rest[0].span.start.offset == tokens[next].span.start.offset);
                assert(tokens[next - 1].span.end.offset == tokens[next].span.start.offset);
            }
        }
    }
}

} // verus!
