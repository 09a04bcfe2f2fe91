//! Losslessness: what a node keeps of the tokens it was read from.
//!
//! A node keeps, as its atoms, every token it was read from, with two
//! exceptions: a trait use keeps `use`, its names and what its adaptations
//! name, and no punctuation; and of two `&` in one `foreach` header, one
//! before the key and one before the value, the node has room for one and
//! keeps the second. A range of tokens without any of these is faithful,
//! and of a faithful range a node keeps everything. (`${` that comes as the
//! two tokens `$` and `{` is kept whole, as one atom that reaches over
//! both.)

use vstd::prelude::*;
use crate::ast::atom::Atom;
use crate::ast::atom::bounded;
use crate::ast::atom::covers;
use crate::ast::atom::in_order;
use crate::ast::atom::joined;
use crate::ast::atom::lemma_covers_both;
use crate::ast::atom::lemma_covers_join;
use crate::ast::atom::lemma_covers_one;
use crate::ast::atom::lexeme;
use crate::ast::atom::mark;
use crate::ast::atom::spans_in_order;
use crate::parser::error::kind_at;
use crate::parser::error::span_at;
use crate::parser::expressions::expression_extent;
use crate::parser::utils::value_at;
use crate::span::Span;
use crate::token::Token;
use crate::token::TokenKind;

verus! {

/// `as` at `pos` opens the targets of a `foreach` in which `&` stands both
/// before the key and before the value.
pub open spec fn double_reference(tokens: Seq<Token>, pos: int) -> bool {
    &&& kind_at(tokens, pos) == TokenKind::As
    &&& kind_at(tokens, pos + 1) == TokenKind::Ampersand
    &&& expression_extent(tokens, pos + 2) matches Ok(n) && kind_at(tokens, pos + 2 + n)
        == TokenKind::DoubleArrow && kind_at(tokens, pos + 3 + n) == TokenKind::Ampersand
}

/// Nothing starts at `pos` of which the tree drops a token.
pub open spec fn kept(tokens: Seq<Token>, pos: int) -> bool {
    &&& kind_at(tokens, pos) != TokenKind::Use
    &&& !double_reference(tokens, pos)
}

/// The tokens between `from` and `to` stand in the order of their spans,
/// and nothing starts among them of which the tree drops a token.
pub open spec fn faithful(tokens: Seq<Token>, from: int, to: int) -> bool {
    &&& spans_in_order(tokens, from, to)
    &&& forall|pos: int| from <= pos < to ==> #[trigger] kept(tokens, pos)
}

/// What every node that was read from the tokens between `start` and `end`
/// owes, whether it keeps all of them or not: if the spans of these tokens
/// are in order, so are its atoms, and they lie between the start of the
/// first of the tokens and the end of the last.
#[verifier::opaque]
pub open spec fn placed(atoms: Seq<Atom>, tokens: Seq<Token>, start: int, end: int) -> bool {
    &&& 0 <= start <= end <= tokens.len()
    &&& spans_in_order(tokens, start, end) ==> bounded(atoms, tokens, start, end)
}

/// No atoms are placed in any range.
pub proof fn lemma_placed_nothing(tokens: Seq<Token>, at: int)
    requires
        0 <= at <= tokens.len(),
    ensures
        placed(Seq::<Atom>::empty(), tokens, at, at),
{
    reveal(placed);
}

/// An atom with the span of the token at `at` is placed there.
pub proof fn lemma_placed_one(atom: Atom, tokens: Seq<Token>, at: int)
    requires
        0 <= at < tokens.len(),
        atom.span == tokens[at].span,
    ensures
        placed(seq![atom], tokens, at, at + 1),
{
    reveal(placed);
    if spans_in_order(tokens, at, at + 1) {
        assert(tokens[at].span.start.offset < tokens[at].span.end.offset);
    }
}

/// An atom that reaches from the start of the token at `at` to the end of
/// the next is placed on the two.
pub proof fn lemma_placed_both(atom: Atom, tokens: Seq<Token>, at: int)
    requires
        0 <= at,
        at + 1 < tokens.len(),
        atom.span == joined(tokens[at].span, tokens[at + 1].span),
    ensures
        placed(seq![atom], tokens, at, at + 2),
{
    reveal(placed);
    if spans_in_order(tokens, at, at + 2) {
        assert(tokens[at].span.start.offset < tokens[at].span.end.offset);
        assert(tokens[at].span.end.offset <= tokens[at + 1].span.start.offset);
        assert(tokens[at + 1].span.start.offset < tokens[at + 1].span.end.offset);
    }
}

/// The mark of a token is placed where the token stands.
pub proof fn lemma_placed_mark(kind: TokenKind, span: Span, tokens: Seq<Token>, at: int)
    requires
        kind != TokenKind::Eof,
        kind_at(tokens, at) == kind,
        span == span_at(tokens, at),
    ensures
        placed(seq![mark(kind, span)], tokens, at, at + 1),
{
    lemma_placed_one(mark(kind, span), tokens, at);
}

/// Atoms that are placed in a range are placed in any range around it.
pub proof fn lemma_placed_around(
    atoms: Seq<Atom>,
    tokens: Seq<Token>,
    start: int,
    end: int,
    from: int,
    to: int,
)
    requires
        placed(atoms, tokens, start, end),
        0 <= from <= start,
        end <= to <= tokens.len(),
    ensures
        placed(atoms, tokens, from, to),
{
    reveal(placed);
    if spans_in_order(tokens, from, to) {
        assert(spans_in_order(tokens, start, end));
        if start < end {
            assert(tokens[start].span.start.offset < tokens[start].span.end.offset);
            assert(tokens[end - 1].span.start.offset < tokens[end - 1].span.end.offset);
            if from < start {
                assert(tokens[from].span.start.offset < tokens[from].span.end.offset);
                assert(tokens[from].span.end.offset <= tokens[start].span.start.offset);
            }
            if end < to {
                assert(tokens[end - 1].span.end.offset <= tokens[to - 1].span.start.offset);
                assert(tokens[to - 1].span.start.offset < tokens[to - 1].span.end.offset);
            }
        }
    }
}

/// Atoms placed in two ranges, of which the second starts where the first
/// ends or behind it, are, joined, placed in the range from the start of
/// the first to the end of the second.
pub proof fn lemma_placed_apart(
    first: Seq<Atom>,
    second: Seq<Atom>,
    tokens: Seq<Token>,
    start: int,
    gap: int,
    resume: int,
    end: int,
)
    requires
        start <= gap <= resume <= end,
        placed(first, tokens, start, gap),
        placed(second, tokens, resume, end),
    ensures
        placed(first + second, tokens, start, end),
{
    reveal(placed);
    lemma_placed_around(first, tokens, start, gap, start, end);
    lemma_placed_around(second, tokens, resume, end, start, end);
    if spans_in_order(tokens, start, end) {
        assert(spans_in_order(tokens, start, gap));
        assert(spans_in_order(tokens, resume, end));
        let joined = first + second;
        assert forall|i: int| 0 <= i < joined.len() implies (
        #[trigger] joined[i]).span.start.offset <= joined[i].span.end.offset
            && tokens[start].span.start.offset <= joined[i].span.start.offset
            && joined[i].span.end.offset <= tokens[end - 1].span.end.offset by {
            if i < first.len() {
                assert(joined[i] == first[i]);
            } else {
                assert(joined[i] == second[i - first.len()]);
            }
        }
        assert forall|i: int, j: int| 0 <= i < j < joined.len() implies (
        #[trigger] joined[i]).span.end.offset <= (#[trigger] joined[j]).span.start.offset by {
            if j < first.len() {
                assert(joined[i] == first[i]);
                assert(joined[j] == first[j]);
            } else if i >= first.len() {
                assert(joined[i] == second[i - first.len()]);
                assert(joined[j] == second[j - first.len()]);
            } else {
                assert(joined[i] == first[i]);
                assert(joined[j] == second[j - first.len()]);
                assert(first[i].span.end.offset <= tokens[gap - 1].span.end.offset);
                assert(tokens[resume].span.start.offset <= second[j - first.len()].span.start.offset);
                if gap - 1 < resume {
                    assert(tokens[gap - 1].span.end.offset <= tokens[resume].span.start.offset);
                }
            }
        }
    }
}

/// Atoms placed in two adjoining ranges are, joined, placed in both.
pub proof fn lemma_placed_join(
    first: Seq<Atom>,
    second: Seq<Atom>,
    tokens: Seq<Token>,
    start: int,
    middle: int,
    end: int,
)
    requires
        start <= middle <= end,
        placed(first, tokens, start, middle),
        placed(second, tokens, middle, end),
    ensures
        placed(first + second, tokens, start, end),
{
    lemma_placed_apart(first, second, tokens, start, middle, middle, end);
}

/// Atoms placed in three adjoining ranges are, joined, placed in all.
pub proof fn lemma_placed_join3(
    a: Seq<Atom>,
    b: Seq<Atom>,
    c: Seq<Atom>,
    tokens: Seq<Token>,
    at0: int,
    at1: int,
    at2: int,
    at3: int,
)
    requires
        at0 <= at1 <= at2 <= at3,
        placed(a, tokens, at0, at1),
        placed(b, tokens, at1, at2),
        placed(c, tokens, at2, at3),
    ensures
        placed(a + b + c, tokens, at0, at3),
{
    lemma_placed_join(a, b, tokens, at0, at1, at2);
    lemma_placed_join(a + b, c, tokens, at0, at2, at3);
}

/// Atoms placed in four adjoining ranges are, joined, placed in all.
pub proof fn lemma_placed_join4(
    a: Seq<Atom>,
    b: Seq<Atom>,
    c: Seq<Atom>,
    d: Seq<Atom>,
    tokens: Seq<Token>,
    at0: int,
    at1: int,
    at2: int,
    at3: int,
    at4: int,
)
    requires
        at0 <= at1 <= at2 <= at3 <= at4,
        placed(a, tokens, at0, at1),
        placed(b, tokens, at1, at2),
        placed(c, tokens, at2, at3),
        placed(d, tokens, at3, at4),
    ensures
        placed(a + b + c + d, tokens, at0, at4),
{
    lemma_placed_join3(a, b, c, tokens, at0, at1, at2, at3);
    lemma_placed_join(a + b + c, d, tokens, at0, at3, at4);
}

/// Atoms placed in five adjoining ranges are, joined, placed in all.
pub proof fn lemma_placed_join5(
    a: Seq<Atom>,
    b: Seq<Atom>,
    c: Seq<Atom>,
    d: Seq<Atom>,
    e: Seq<Atom>,
    tokens: Seq<Token>,
    at0: int,
    at1: int,
    at2: int,
    at3: int,
    at4: int,
    at5: int,
)
    requires
        at0 <= at1 <= at2 <= at3 <= at4 <= at5,
        placed(a, tokens, at0, at1),
        placed(b, tokens, at1, at2),
        placed(c, tokens, at2, at3),
        placed(d, tokens, at3, at4),
        placed(e, tokens, at4, at5),
    ensures
        placed(a + b + c + d + e, tokens, at0, at5),
{
    lemma_placed_join4(a, b, c, d, tokens, at0, at1, at2, at3, at4);
    lemma_placed_join(a + b + c + d, e, tokens, at0, at4, at5);
}

/// Atoms placed in six adjoining ranges are, joined, placed in all.
pub proof fn lemma_placed_join6(
    a: Seq<Atom>,
    b: Seq<Atom>,
    c: Seq<Atom>,
    d: Seq<Atom>,
    e: Seq<Atom>,
    f: Seq<Atom>,
    tokens: Seq<Token>,
    at0: int,
    at1: int,
    at2: int,
    at3: int,
    at4: int,
    at5: int,
    at6: int,
)
    requires
        at0 <= at1 <= at2 <= at3 <= at4 <= at5 <= at6,
        placed(a, tokens, at0, at1),
        placed(b, tokens, at1, at2),
        placed(c, tokens, at2, at3),
        placed(d, tokens, at3, at4),
        placed(e, tokens, at4, at5),
        placed(f, tokens, at5, at6),
    ensures
        placed(a + b + c + d + e + f, tokens, at0, at6),
{
    lemma_placed_join5(a, b, c, d, e, tokens, at0, at1, at2, at3, at4, at5);
    lemma_placed_join(a + b + c + d + e, f, tokens, at0, at5, at6);
}

/// Atoms placed in seven adjoining ranges are, joined, placed in all.
pub proof fn lemma_placed_join7(
    a: Seq<Atom>,
    b: Seq<Atom>,
    c: Seq<Atom>,
    d: Seq<Atom>,
    e: Seq<Atom>,
    f: Seq<Atom>,
    g: Seq<Atom>,
    tokens: Seq<Token>,
    at0: int,
    at1: int,
    at2: int,
    at3: int,
    at4: int,
    at5: int,
    at6: int,
    at7: int,
)
    requires
        at0 <= at1 <= at2 <= at3 <= at4 <= at5 <= at6 <= at7,
        placed(a, tokens, at0, at1),
        placed(b, tokens, at1, at2),
        placed(c, tokens, at2, at3),
        placed(d, tokens, at3, at4),
        placed(e, tokens, at4, at5),
        placed(f, tokens, at5, at6),
        placed(g, tokens, at6, at7),
    ensures
        placed(a + b + c + d + e + f + g, tokens, at0, at7),
{
    lemma_placed_join6(a, b, c, d, e, f, tokens, at0, at1, at2, at3, at4, at5, at6);
    lemma_placed_join(a + b + c + d + e + f, g, tokens, at0, at6, at7);
}

/// Anything is placed in a range in which the spans are not in order.
pub proof fn lemma_placed_unordered(atoms: Seq<Atom>, tokens: Seq<Token>, start: int, end: int)
    requires
        0 <= start <= end <= tokens.len(),
        !spans_in_order(tokens, start, end),
    ensures
        placed(atoms, tokens, start, end),
{
    reveal(placed);
}

/// Atoms that are placed among tokens whose spans are in order are in order.
pub proof fn lemma_placed_in_order(atoms: Seq<Atom>, tokens: Seq<Token>, start: int, end: int)
    requires
        placed(atoms, tokens, start, end),
        spans_in_order(tokens, start, end),
    ensures
        in_order(atoms),
{
    reveal(placed);
}

/// What a node that keeps every token it was read from owes for the
/// tokens between `start` and `end`: its atoms are placed among them, and
/// if that range is faithful, they stand for exactly these tokens, one for
/// one and in order.
#[verifier::opaque]
pub open spec fn lossless(atoms: Seq<Atom>, tokens: Seq<Token>, start: int, end: int) -> bool {
    &&& placed(atoms, tokens, start, end)
    &&& faithful(tokens, start, end) ==> covers(atoms, tokens, start, end)
}

/// What is owed is placed.
pub proof fn lemma_lossless_placed(atoms: Seq<Atom>, tokens: Seq<Token>, start: int, end: int)
    requires
        lossless(atoms, tokens, start, end),
    ensures
        placed(atoms, tokens, start, end),
{
    reveal(lossless);
}

/// What is owed, where the range is faithful.
pub proof fn lemma_lossless_covers(atoms: Seq<Atom>, tokens: Seq<Token>, start: int, end: int)
    requires
        lossless(atoms, tokens, start, end),
        faithful(tokens, start, end),
    ensures
        covers(atoms, tokens, start, end),
{
    reveal(lossless);
}

/// Placed atoms are all that is owed for a range in which something starts
/// of which the tree drops a token.
pub proof fn lemma_lossless_dropped(
    atoms: Seq<Atom>,
    tokens: Seq<Token>,
    start: int,
    end: int,
    at: int,
)
    requires
        placed(atoms, tokens, start, end),
        start <= at < end,
        !kept(tokens, at),
    ensures
        lossless(atoms, tokens, start, end),
{
    reveal(lossless);
}

/// Placed atoms are all that is owed for a range that is not faithful.
pub proof fn lemma_lossless_unfaithful(atoms: Seq<Atom>, tokens: Seq<Token>, start: int, end: int)
    requires
        placed(atoms, tokens, start, end),
        !faithful(tokens, start, end),
    ensures
        lossless(atoms, tokens, start, end),
{
    reveal(lossless);
}

/// No atoms are owed for no tokens.
pub proof fn lemma_lossless_nothing(tokens: Seq<Token>, at: int)
    requires
        0 <= at <= tokens.len(),
    ensures
        lossless(Seq::<Atom>::empty(), tokens, at, at),
{
    reveal(lossless);
    lemma_placed_nothing(tokens, at);
}

/// An atom that stands for the token at `at` is what is owed for it.
pub proof fn lemma_lossless_one(atom: Atom, tokens: Seq<Token>, at: int)
    requires
        0 <= at < tokens.len(),
        atom.stands_for(tokens[at]),
    ensures
        lossless(seq![atom], tokens, at, at + 1),
{
    reveal(lossless);
    lemma_placed_one(atom, tokens, at);
    lemma_covers_one(atom, tokens, at);
}

/// The mark of `${` that reaches over `$` at `at` and `{` behind it is what
/// is owed for the two.
pub proof fn lemma_lossless_both(span: Span, tokens: Seq<Token>, at: int)
    requires
        kind_at(tokens, at) == TokenKind::Dollar,
        kind_at(tokens, at + 1) == TokenKind::LeftBrace,
        span == joined(span_at(tokens, at), span_at(tokens, at + 1)),
    ensures
        lossless(seq![mark(TokenKind::DollarLeftBrace, span)], tokens, at, at + 2),
{
    reveal(lossless);
    let atom = mark(TokenKind::DollarLeftBrace, span);
    lemma_placed_both(atom, tokens, at);
    lemma_covers_both(atom, tokens, at);
}

/// The mark of a keyword or punctuation token is what is owed for it.
pub proof fn lemma_lossless_mark(kind: TokenKind, span: Span, tokens: Seq<Token>, at: int)
    requires
        kind != TokenKind::Eof,
        kind_at(tokens, at) == kind,
        span == span_at(tokens, at),
    ensures
        lossless(seq![mark(kind, span)], tokens, at, at + 1),
{
    lemma_lossless_one(mark(kind, span), tokens, at);
}

/// The lexeme of a name or literal token is what is owed for it.
pub proof fn lemma_lossless_lexeme(
    kind: TokenKind,
    span: Span,
    value: Seq<u8>,
    tokens: Seq<Token>,
    at: int,
)
    requires
        kind != TokenKind::Eof,
        kind_at(tokens, at) == kind,
        span == span_at(tokens, at),
        value == value_at(tokens, at),
    ensures
        lossless(seq![lexeme(kind, span, value)], tokens, at, at + 1),
{
    lemma_lossless_one(lexeme(kind, span, value), tokens, at);
}

/// What is owed for two adjoining ranges is, joined, what is owed for both.
pub proof fn lemma_lossless_join(
    first: Seq<Atom>,
    second: Seq<Atom>,
    tokens: Seq<Token>,
    start: int,
    middle: int,
    end: int,
)
    requires
        start <= middle <= end,
        lossless(first, tokens, start, middle),
        lossless(second, tokens, middle, end),
    ensures
        lossless(first + second, tokens, start, end),
{
    reveal(lossless);
    lemma_placed_join(first, second, tokens, start, middle, end);
    if faithful(tokens, start, end) {
        assert(faithful(tokens, start, middle));
        assert(faithful(tokens, middle, end));
        lemma_covers_join(first, second, tokens, start, middle, end);
    }
}

/// What is owed for three adjoining ranges is, joined, what is owed for all.
pub proof fn lemma_lossless_join3(
    a: Seq<Atom>,
    b: Seq<Atom>,
    c: Seq<Atom>,
    tokens: Seq<Token>,
    at0: int,
    at1: int,
    at2: int,
    at3: int,
)
    requires
        at0 <= at1 <= at2 <= at3,
        lossless(a, tokens, at0, at1),
        lossless(b, tokens, at1, at2),
        lossless(c, tokens, at2, at3),
    ensures
        lossless(a + b + c, tokens, at0, at3),
{
    lemma_lossless_join(a, b, tokens, at0, at1, at2);
    lemma_lossless_join(a + b, c, tokens, at0, at2, at3);
}

/// What is owed for four adjoining ranges is, joined, what is owed for all.
pub proof fn lemma_lossless_join4(
    a: Seq<Atom>,
    b: Seq<Atom>,
    c: Seq<Atom>,
    d: Seq<Atom>,
    tokens: Seq<Token>,
    at0: int,
    at1: int,
    at2: int,
    at3: int,
    at4: int,
)
    requires
        at0 <= at1 <= at2 <= at3 <= at4,
        lossless(a, tokens, at0, at1),
        lossless(b, tokens, at1, at2),
        lossless(c, tokens, at2, at3),
        lossless(d, tokens, at3, at4),
    ensures
        lossless(a + b + c + d, tokens, at0, at4),
{
    lemma_lossless_join3(a, b, c, tokens, at0, at1, at2, at3);
    lemma_lossless_join(a + b + c, d, tokens, at0, at3, at4);
}

/// What is owed for five adjoining ranges is, joined, what is owed for all.
pub proof fn lemma_lossless_join5(
    a: Seq<Atom>,
    b: Seq<Atom>,
    c: Seq<Atom>,
    d: Seq<Atom>,
    e: Seq<Atom>,
    tokens: Seq<Token>,
    at0: int,
    at1: int,
    at2: int,
    at3: int,
    at4: int,
    at5: int,
)
    requires
        at0 <= at1 <= at2 <= at3 <= at4 <= at5,
        lossless(a, tokens, at0, at1),
        lossless(b, tokens, at1, at2),
        lossless(c, tokens, at2, at3),
        lossless(d, tokens, at3, at4),
        lossless(e, tokens, at4, at5),
    ensures
        lossless(a + b + c + d + e, tokens, at0, at5),
{
    lemma_lossless_join4(a, b, c, d, tokens, at0, at1, at2, at3, at4);
    lemma_lossless_join(a + b + c + d, e, tokens, at0, at4, at5);
}

/// What is owed for six adjoining ranges is, joined, what is owed for all.
pub proof fn lemma_lossless_join6(
    a: Seq<Atom>,
    b: Seq<Atom>,
    c: Seq<Atom>,
    d: Seq<Atom>,
    e: Seq<Atom>,
    f: Seq<Atom>,
    tokens: Seq<Token>,
    at0: int,
    at1: int,
    at2: int,
    at3: int,
    at4: int,
    at5: int,
    at6: int,
)
    requires
        at0 <= at1 <= at2 <= at3 <= at4 <= at5 <= at6,
        lossless(a, tokens, at0, at1),
        lossless(b, tokens, at1, at2),
        lossless(c, tokens, at2, at3),
        lossless(d, tokens, at3, at4),
        lossless(e, tokens, at4, at5),
        lossless(f, tokens, at5, at6),
    ensures
        lossless(a + b + c + d + e + f, tokens, at0, at6),
{
    lemma_lossless_join5(a, b, c, d, e, tokens, at0, at1, at2, at3, at4, at5);
    lemma_lossless_join(a + b + c + d + e, f, tokens, at0, at5, at6);
}

/// What is owed for seven adjoining ranges is, joined, what is owed for all.
pub proof fn lemma_lossless_join7(
    a: Seq<Atom>,
    b: Seq<Atom>,
    c: Seq<Atom>,
    d: Seq<Atom>,
    e: Seq<Atom>,
    f: Seq<Atom>,
    g: Seq<Atom>,
    tokens: Seq<Token>,
    at0: int,
    at1: int,
    at2: int,
    at3: int,
    at4: int,
    at5: int,
    at6: int,
    at7: int,
)
    requires
        at0 <= at1 <= at2 <= at3 <= at4 <= at5 <= at6 <= at7,
        lossless(a, tokens, at0, at1),
        lossless(b, tokens, at1, at2),
        lossless(c, tokens, at2, at3),
        lossless(d, tokens, at3, at4),
        lossless(e, tokens, at4, at5),
        lossless(f, tokens, at5, at6),
        lossless(g, tokens, at6, at7),
    ensures
        lossless(a + b + c + d + e + f + g, tokens, at0, at7),
{
    lemma_lossless_join6(a, b, c, d, e, f, tokens, at0, at1, at2, at3, at4, at5, at6);
    lemma_lossless_join(a + b + c + d + e + f, g, tokens, at0, at6, at7);
}

} // verus!
