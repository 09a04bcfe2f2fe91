//! Trait declarations, and the use of traits inside a declaration.

use vstd::prelude::*;
use crate::parser::constants::lemma_constant_extent;
use crate::ast::atom::Atom;
use crate::ast::atom::mark;
use crate::ast::attributes::AttributeGroup;
use crate::ast::attributes::groups_atoms;
use crate::ast::functions::ConcreteConstructor;
use crate::ast::functions::ConcreteMethod;
use crate::ast::functions::Method;
use crate::ast::functions::lemma_concrete_constructor_atoms;
use crate::ast::functions::lemma_concrete_method_atoms;
use crate::ast::functions::lemma_method_own_atoms;
use crate::ast::identifiers::IdentifierForm;
use crate::ast::identifiers::SimpleIdentifier;
use crate::ast::modifiers::VisibilityModifier;
use crate::ast::modifiers::modifiers_atoms;
use crate::ast::statements::Statement;
use crate::ast::traits::TraitBody;
use crate::ast::traits::TraitMember;
use crate::ast::traits::TraitStatement;
use crate::ast::traits::TraitUsage;
use crate::ast::traits::TraitUsageAdaptation;
use crate::ast::traits::adaptations_atoms;
use crate::ast::traits::lemma_members_atoms;
use crate::ast::traits::lemma_trait_body_atoms;
use crate::ast::traits::lemma_trait_member_atoms;
use crate::ast::traits::lemma_trait_statement_own_atoms;
use crate::ast::traits::members_atoms;
use crate::ast::traits::method_atoms;
use crate::ast::traits::names_atoms;
use crate::ast::traits::visibility_atoms;
use crate::parser::attributes::attributes_extent;
use crate::parser::attributes::gather_attributes;
use crate::parser::attributes::group_start;
use crate::parser::attributes::groups_stand_at;
use crate::parser::constants::classish;
use crate::parser::constants::constant_extent;
use crate::parser::error::Expectation;
use crate::parser::error::Extent;
use crate::parser::error::Failure;
use crate::parser::error::ParseError;
use crate::parser::error::ParseResult;
use crate::parser::error::failed;
use crate::parser::error::kind_at;
use crate::parser::error::later;
use crate::parser::error::span_at;
use crate::parser::error::stopped;
use crate::parser::functions::lemma_method_extent;
use crate::parser::functions::lemma_method_stands_at;
use crate::parser::functions::method;
use crate::parser::functions::method_extent;
use crate::parser::identifiers::full_type_name;
use crate::parser::identifiers::identifier;
use crate::parser::identifiers::name;
use crate::parser::identifiers::name_extent;
use crate::parser::lossless::lemma_lossless_dropped;
use crate::parser::lossless::lemma_lossless_join3;
use crate::parser::lossless::lemma_lossless_join;
use crate::parser::lossless::lemma_lossless_mark;
use crate::parser::lossless::lemma_lossless_nothing;
use crate::parser::lossless::lemma_lossless_placed;
use crate::parser::lossless::lemma_placed_apart;
use crate::parser::lossless::lemma_placed_around;
use crate::parser::lossless::lemma_placed_join3;
use crate::parser::lossless::lemma_placed_join;
use crate::parser::lossless::lemma_placed_mark;
use crate::parser::lossless::lemma_placed_nothing;
use crate::parser::lossless::lossless;
use crate::parser::lossless::placed;
use crate::parser::modifiers::Target;
use crate::parser::modifiers::collect;
use crate::parser::modifiers::constant_group;
use crate::parser::modifiers::fault;
use crate::parser::modifiers::method_group;
use crate::parser::modifiers::modifiers_at;
use crate::parser::modifiers::modifiers_extent;
use crate::parser::modifiers::property_group;
use crate::parser::properties::parse_var;
use crate::parser::properties::property_extent;
use crate::parser::properties::var_property_extent;
use crate::parser::state::State;
use crate::parser::state::parsed;
use crate::parser::utils::after;
use crate::parser::utils::closing;
use crate::parser::utils::opening;
use crate::parser::utils::remaining;
use crate::parser::utils::skip;
use crate::parser::utils::skip_extent;
use crate::parser::utils::skip_left_brace;
use crate::parser::utils::skip_right_brace;
use crate::parser::utils::skip_semicolon;
use crate::token::Token;
use crate::token::TokenKind;

verus! {

/// The tokens that `n` names take with the commas between them.
pub open spec fn names_width(n: nat) -> nat {
    if n == 0 {
        0
    } else {
        (2 * n - 1) as nat
    }
}

/// Each of the names is a token, the first at `pos`, each next one two
/// tokens on, behind a comma.
pub open spec fn names_stand_at(
    names: Seq<SimpleIdentifier>,
    tokens: Seq<Token>,
    pos: int,
) -> bool {
    forall|i: int| 0 <= i < names.len() ==> (#[trigger] names[i]).stands_at(tokens, pos + 2 * i)
}

/// The names behind `use`: one or more, parted by commas. A comma directly
/// before `;` or `{` is reported, as not being that token.
pub open spec fn trait_names_extent(tokens: Seq<Token>, pos: int) -> Extent
    decreases remaining(tokens, pos),
{
    match name_extent(tokens, pos, IdentifierForm::FullyQualified) {
        Err(e) => Err(e),
        Ok(_) => if kind_at(tokens, pos + 1) != TokenKind::Comma {
            Ok(1)
        } else if kind_at(tokens, pos + 2) == TokenKind::SemiColon {
            stopped(tokens, pos, pos + 1, Expectation::Token(TokenKind::SemiColon))
        } else if kind_at(tokens, pos + 2) == TokenKind::LeftBrace {
            stopped(tokens, pos, pos + 1, Expectation::Token(TokenKind::LeftBrace))
        } else {
            after(2, trait_names_extent(tokens, pos + 2))
        },
    }
}

/// The names behind the first one of `insteadof`, each behind a comma. A
/// comma directly before `;` is reported, as not being `;`.
pub open spec fn more_names_extent(tokens: Seq<Token>, pos: int) -> Extent
    decreases remaining(tokens, pos),
{
    if kind_at(tokens, pos) != TokenKind::Comma {
        Ok(0)
    } else if kind_at(tokens, pos + 1) == TokenKind::SemiColon {
        stopped(tokens, pos, pos, Expectation::Token(TokenKind::SemiColon))
    } else {
        match name_extent(tokens, pos + 1, IdentifierForm::FullyQualified) {
            Err(e) => later(1, e),
            Ok(_) => after(2, more_names_extent(tokens, pos + 2)),
        }
    }
}

/// What stands behind `insteadof`: one name or more, parted by commas.
pub open spec fn precedence_extent(tokens: Seq<Token>, pos: int) -> Extent {
    match name_extent(tokens, pos, IdentifierForm::FullyQualified) {
        Err(e) => Err(e),
        Ok(_) => after(1, more_names_extent(tokens, pos + 1)),
    }
}

pub open spec fn is_visibility(kind: TokenKind) -> bool {
    kind == TokenKind::Public || kind == TokenKind::Protected || kind == TokenKind::Private
}

/// What stands behind `as`: a visibility alone, which is the case where
/// `;` follows it; or a new name, which may stand behind a visibility.
pub open spec fn alias_extent(tokens: Seq<Token>, pos: int) -> Extent {
    if is_visibility(kind_at(tokens, pos)) {
        if kind_at(tokens, pos + 1) == TokenKind::SemiColon {
            Ok(1)
        } else {
            after(1, name_extent(tokens, pos + 1, IdentifierForm::Qualified))
        }
    } else {
        name_extent(tokens, pos, IdentifierForm::Qualified)
    }
}

/// The tokens that name the method of an adaptation: three with a trait
/// (`Trait::method`), which is the case where `::` is the second; else one.
pub open spec fn reference_width(tokens: Seq<Token>, pos: int) -> nat {
    if kind_at(tokens, pos + 1) == TokenKind::DoubleColon {
        3
    } else {
        1
    }
}

/// The method that an adaptation is about: `Trait::method`, or `method`.
pub open spec fn reference_extent(tokens: Seq<Token>, pos: int) -> Extent {
    if kind_at(tokens, pos + 1) == TokenKind::DoubleColon {
        match name_extent(tokens, pos, IdentifierForm::FullyQualified) {
            Err(e) => Err(e),
            Ok(_) => after(2, name_extent(tokens, pos + 2, IdentifierForm::Unqualified)),
        }
    } else {
        name_extent(tokens, pos, IdentifierForm::Unqualified)
    }
}

/// One adaptation, without the `;` that closes it: a method, then `as` and
/// what it brings, or `insteadof` and what it brings. Before `insteadof`
/// the method must stand with its trait: where it stands alone, `insteadof`
/// is reported, as not being `::`.
#[verifier::opaque]
pub open spec fn adaptation_extent(tokens: Seq<Token>, pos: int) -> Extent {
    match reference_extent(tokens, pos) {
        Err(e) => Err(e),
        Ok(n) => if kind_at(tokens, pos + n) == TokenKind::As {
            after(n + 1, alias_extent(tokens, pos + n + 1))
        } else if kind_at(tokens, pos + n) == TokenKind::Insteadof {
            if kind_at(tokens, pos + 1) == TokenKind::DoubleColon {
                after(n + 1, precedence_extent(tokens, pos + n + 1))
            } else {
                stopped(tokens, pos, pos + n, Expectation::Token(TokenKind::DoubleColon))
            }
        } else {
            stopped(tokens, pos, pos + n, Expectation::AsOrInsteadof)
        },
    }
}

/// The definition of `adaptation_extent`, unfolded once.
pub proof fn lemma_adaptation_extent(tokens: Seq<Token>, pos: int)
    ensures
        adaptation_extent(tokens, pos) == {
            match reference_extent(tokens, pos) {
                Err(e) => Err(e),
                Ok(n) => if kind_at(tokens, pos + n) == TokenKind::As {
                    after(n + 1, alias_extent(tokens, pos + n + 1))
                } else if kind_at(tokens, pos + n) == TokenKind::Insteadof {
                    if kind_at(tokens, pos + 1) == TokenKind::DoubleColon {
                        after(n + 1, precedence_extent(tokens, pos + n + 1))
                    } else {
                        stopped(tokens, pos, pos + n, Expectation::Token(TokenKind::DoubleColon))
                    }
                } else {
                    stopped(tokens, pos, pos + n, Expectation::AsOrInsteadof)
                },
            }
        },
{
    reveal(adaptation_extent);
}

/// One adaptation and its `;`.
pub open spec fn clause_extent(tokens: Seq<Token>, pos: int) -> Extent {
    closing(tokens, pos, adaptation_extent(tokens, pos), TokenKind::SemiColon)
}

/// Adaptations, each closed by `;`, up to `}`, which is left in place. (The
/// test on what an adaptation takes makes the definition well-founded. It
/// never fails: see `lemma_clause_takes_tokens`.)
pub open spec fn adaptations_extent(tokens: Seq<Token>, pos: int) -> Extent
    decreases remaining(tokens, pos),
{
    if kind_at(tokens, pos) == TokenKind::RightBrace {
        Ok(0)
    } else {
        match clause_extent(tokens, pos) {
            Err(e) => Err(e),
            Ok(n) => if 0 < n && pos < tokens.len() {
                after(n, adaptations_extent(tokens, pos + n))
            } else {
                Ok(n)
            },
        }
    }
}

/// Where adaptation `i` starts, if the first starts at `pos`.
pub open spec fn adaptation_start(tokens: Seq<Token>, pos: int, i: nat) -> int
    decreases i,
{
    if i == 0 {
        pos
    } else {
        let before = adaptation_start(tokens, pos, (i - 1) as nat);
        match clause_extent(tokens, before) {
            Ok(n) => before + n,
            Err(_) => before,
        }
    }
}

/// What follows the names of a trait use: `;`, or adaptations in braces.
pub open spec fn usage_tail_extent(tokens: Seq<Token>, pos: int) -> Extent {
    if kind_at(tokens, pos) == TokenKind::LeftBrace {
        after(
            1,
            closing(tokens, pos + 1, adaptations_extent(tokens, pos + 1), TokenKind::RightBrace),
        )
    } else {
        skip_extent(tokens, pos, TokenKind::SemiColon)
    }
}

/// `use`, names, and `;` or adaptations in braces.
#[verifier::opaque]
pub open spec fn usage_extent(tokens: Seq<Token>, pos: int) -> Extent {
    opening(
        tokens,
        pos,
        TokenKind::Use,
        match trait_names_extent(tokens, pos + 1) {
            Err(e) => Err(e),
            Ok(n) => after(n, usage_tail_extent(tokens, pos + 1 + n)),
        },
    )
}

/// The definition of `usage_extent`, unfolded once.
pub proof fn lemma_usage_extent(tokens: Seq<Token>, pos: int)
    ensures
        usage_extent(tokens, pos) == {
            opening(
                tokens,
                pos,
                TokenKind::Use,
                match trait_names_extent(tokens, pos + 1) {
                    Err(e) => Err(e),
                    Ok(n) => after(n, usage_tail_extent(tokens, pos + 1 + n)),
                },
            )
        },
{
    reveal(usage_extent);
}

impl VisibilityModifier {
    /// The node is the token at `pos`.
    pub open spec fn stands_at(self, tokens: Seq<Token>, pos: int) -> bool {
        match self {
            VisibilityModifier::Public(span) => kind_at(tokens, pos) == TokenKind::Public && span
                == span_at(tokens, pos),
            VisibilityModifier::Protected(span) => kind_at(tokens, pos) == TokenKind::Protected
                && span == span_at(tokens, pos),
            VisibilityModifier::Private(span) => kind_at(tokens, pos) == TokenKind::Private
                && span == span_at(tokens, pos),
        }
    }
}

/// The trait and method are those named from `pos` on.
pub open spec fn reference_stands_at(
    trait_name: Option<SimpleIdentifier>,
    method: SimpleIdentifier,
    tokens: Seq<Token>,
    pos: int,
) -> bool {
    if kind_at(tokens, pos + 1) == TokenKind::DoubleColon {
        trait_name matches Some(t) && t.stands_at(tokens, pos) && method.stands_at(tokens, pos + 2)
    } else {
        trait_name is None && method.stands_at(tokens, pos)
    }
}

impl TraitUsageAdaptation {
    /// The node is the tree of the adaptation that starts at `pos`.
    #[verifier::opaque]
    pub open spec fn stands_at(self, tokens: Seq<Token>, pos: int) -> bool {
        let at = pos + reference_width(tokens, pos);
        match self {
            TraitUsageAdaptation::Alias { trait_name, method, alias, visibility } => {
                &&& reference_stands_at(trait_name, method, tokens, pos)
                &&& kind_at(tokens, at) == TokenKind::As
                &&& match visibility {
                    Some(v) => {
                        &&& v.stands_at(tokens, at + 1)
                        &&& kind_at(tokens, at + 2) != TokenKind::SemiColon
                        &&& alias.stands_at(tokens, at + 2)
                    },
                    None => !is_visibility(kind_at(tokens, at + 1)) && alias.stands_at(
                        tokens,
                        at + 1,
                    ),
                }
            },
            TraitUsageAdaptation::Visibility { trait_name, method, visibility } => {
                &&& reference_stands_at(trait_name, method, tokens, pos)
                &&& kind_at(tokens, at) == TokenKind::As
                &&& visibility.stands_at(tokens, at + 1)
                &&& kind_at(tokens, at + 2) == TokenKind::SemiColon
            },
            TraitUsageAdaptation::Precedence { trait_name, method, insteadof } => {
                &&& trait_name is Some
                &&& reference_stands_at(trait_name, method, tokens, pos)
                &&& kind_at(tokens, at) == TokenKind::Insteadof
                &&& insteadof@.len() >= 1
                &&& names_stand_at(insteadof@, tokens, at + 1)
                &&& precedence_extent(tokens, at + 1) == Ok::<nat, Failure>(
                    names_width(insteadof@.len()),
                )
            },
        }
    }
}

/// Each of the adaptations is the tree of the adaptation that starts where
/// the one before it and its `;` end, the first of them at `pos`.
pub open spec fn adaptations_stand_at(
    adaptations: Seq<TraitUsageAdaptation>,
    tokens: Seq<Token>,
    pos: int,
) -> bool {
    forall|i: int|
        0 <= i < adaptations.len() ==> (#[trigger] adaptations[i]).stands_at(
            tokens,
            adaptation_start(tokens, pos, i as nat),
        )
}

/// The adaptations are those that follow the names of a trait use, from
/// `pos` on: those between the braces, or none where `;` stands there.
pub open spec fn tail_stands_at(
    adaptations: Seq<TraitUsageAdaptation>,
    tokens: Seq<Token>,
    pos: int,
) -> bool {
    if kind_at(tokens, pos) == TokenKind::LeftBrace {
        &&& adaptations_stand_at(adaptations, tokens, pos + 1)
        &&& adaptations_extent(tokens, pos + 1) == Ok::<nat, Failure>(
            (adaptation_start(tokens, pos + 1, adaptations.len()) - (pos + 1)) as nat,
        )
    } else {
        adaptations.len() == 0
    }
}

impl TraitUsage {
    /// The node is the tree of the trait use that starts at `pos`. It
    /// names one trait at least.
    #[verifier::opaque]
    pub open spec fn stands_at(self, tokens: Seq<Token>, pos: int) -> bool {
        &&& self.use_keyword == span_at(tokens, pos)
        &&& self.traits@.len() >= 1
        &&& names_stand_at(self.traits@, tokens, pos + 1)
        &&& trait_names_extent(tokens, pos + 1) == Ok::<nat, Failure>(
            names_width(self.traits@.len()),
        )
        &&& tail_stands_at(
            self.adaptations@,
            tokens,
            pos + 1 + names_width(self.traits@.len()),
        )
    }
}

/// The definition of `TraitUsage::stands_at`, unfolded once.
pub proof fn lemma_trait_usage_stands_at(node: TraitUsage, tokens: Seq<Token>, pos: int)
    ensures
        node.stands_at(tokens, pos) == {
            &&& node.use_keyword == span_at(tokens, pos)
            &&& node.traits@.len() >= 1
            &&& names_stand_at(node.traits@, tokens, pos + 1)
            &&& trait_names_extent(tokens, pos + 1) == Ok::<nat, Failure>(
                names_width(node.traits@.len()),
            )
            &&& tail_stands_at(
                node.adaptations@,
                tokens,
                pos + 1 + names_width(node.traits@.len()),
            )
        },
{
    reveal(TraitUsage::stands_at);
}

/// Reads the names behind `use`.
pub fn trait_names(state: &mut State) -> (r: ParseResult<Vec<SimpleIdentifier>>)
    requires
        old(state).wf(),
    ensures
        parsed(
            *old(state),
            *final(state),
            trait_names_extent(old(state).tokens@, old(state).cursor as int),
            r,
        ),
        final(state).attributes@ == old(state).attributes@,
        r matches Ok(names) ==> {
            &&& names@.len() >= 1
            &&& names_stand_at(names@, old(state).tokens@, old(state).cursor as int)
            &&& final(state).cursor == old(state).cursor + names_width(names@.len())
        },
        r matches Ok(names) ==> placed(
            names_atoms(names@),
            old(state).tokens@,
            old(state).cursor as int,
            final(state).cursor as int,
        ),
{
    let ghost tokens = state.tokens@;
    let ghost start = state.cursor as int;
    let mut traits: Vec<SimpleIdentifier> = Vec::new();
    proof {
        lemma_placed_nothing(tokens, start);
    }
    loop
        invariant
            state.wf(),
            state.tokens@ == tokens,
            state.attributes@ == old(state).attributes@,
            tokens == old(state).tokens@,
            start == old(state).cursor,
            state.cursor == start + 2 * traits@.len(),
            names_stand_at(traits@, tokens, start),
            trait_names_extent(tokens, start) == after(
                (state.cursor - start) as nat,
                trait_names_extent(tokens, state.cursor as int),
            ),
            placed(names_atoms(traits@), tokens, start, state.cursor as int),
        decreases tokens.len() - state.cursor,
    {
        let ghost here = state.cursor as int;
        let ghost before = traits@;
        let t = full_type_name(state)?;
        let ghost read = t.atoms();
        traits.push(t);
        proof {
            assert(traits@.drop_last() =~= before);
            lemma_lossless_placed(read, tokens, here, here + 1);
            lemma_placed_join(names_atoms(before), read, tokens, start, here, here + 1);
        }
        if state.current().kind == TokenKind::Comma {
            let peeked = state.peek().kind;
            if peeked == TokenKind::SemiColon {
                // fails on the `,`: no comma may stand before `;`
                skip_semicolon(state)?;
            } else if peeked == TokenKind::LeftBrace {
                // fails on the `,`: no comma may stand before `{`
                skip_left_brace(state)?;
            } else {
                state.next();
                proof {
                    lemma_placed_around(
                        names_atoms(traits@),
                        tokens,
                        start,
                        here + 1,
                        start,
                        here + 2,
                    );
                }
            }
        } else {
            return Ok(traits);
        }
    }
}

/// Reads what stands behind `insteadof`.
pub fn precedence_names(state: &mut State) -> (r: ParseResult<Vec<SimpleIdentifier>>)
    requires
        old(state).wf(),
    ensures
        parsed(
            *old(state),
            *final(state),
            precedence_extent(old(state).tokens@, old(state).cursor as int),
            r,
        ),
        final(state).attributes@ == old(state).attributes@,
        r matches Ok(names) ==> {
            &&& names@.len() >= 1
            &&& names_stand_at(names@, old(state).tokens@, old(state).cursor as int)
            &&& final(state).cursor == old(state).cursor + names_width(names@.len())
        },
        r matches Ok(names) ==> placed(
            names_atoms(names@),
            old(state).tokens@,
            old(state).cursor as int,
            final(state).cursor as int,
        ),
{
    let ghost tokens = state.tokens@;
    let ghost start = state.cursor as int;
    let first = full_type_name(state)?;
    let ghost first_atoms = first.atoms();
    let mut insteadof: Vec<SimpleIdentifier> = Vec::new();
    insteadof.push(first);
    proof {
        assert(insteadof@.drop_last() =~= Seq::<SimpleIdentifier>::empty());
        assert(names_atoms(Seq::<SimpleIdentifier>::empty()) =~= Seq::<Atom>::empty());
        assert(names_atoms(insteadof@) =~= first_atoms);
        lemma_lossless_placed(first_atoms, tokens, start, start + 1);
    }
    loop
        invariant
            state.wf(),
            state.tokens@ == tokens,
            state.attributes@ == old(state).attributes@,
            tokens == old(state).tokens@,
            start == old(state).cursor,
            insteadof@.len() >= 1,
            state.cursor == start + 2 * insteadof@.len() - 1,
            names_stand_at(insteadof@, tokens, start),
            precedence_extent(tokens, start) == after(
                (state.cursor - start) as nat,
                more_names_extent(tokens, state.cursor as int),
            ),
            placed(names_atoms(insteadof@), tokens, start, state.cursor as int),
        decreases tokens.len() - state.cursor,
    {
        let ghost here = state.cursor as int;
        let ghost before = insteadof@;
        if state.current().kind != TokenKind::Comma {
            return Ok(insteadof);
        }
        if state.peek().kind == TokenKind::SemiColon {
            // fails on the `,`: no comma may stand before `;`
            skip_semicolon(state)?;
        }
        state.next();
        let more = full_type_name(state)?;
        let ghost read = more.atoms();
        insteadof.push(more);
        proof {
            assert(insteadof@.drop_last() =~= before);
            lemma_lossless_placed(read, tokens, here + 1, here + 2);
            lemma_placed_apart(names_atoms(before), read, tokens, start, here, here + 1, here + 2);
        }
    }
}

/// Reads the visibility under the cursor, if one stands there.
fn visibility(state: &mut State) -> (r: Option<VisibilityModifier>)
    requires
        old(state).wf(),
    ensures
        final(state).wf(),
        final(state).tokens@ == old(state).tokens@,
        final(state).attributes@ == old(state).attributes@,
        match r {
            Some(v) => {
                &&& is_visibility(kind_at(old(state).tokens@, old(state).cursor as int))
                &&& v.stands_at(old(state).tokens@, old(state).cursor as int)
                &&& final(state).cursor == old(state).cursor + 1
            },
            None => {
                &&& !is_visibility(kind_at(old(state).tokens@, old(state).cursor as int))
                &&& final(state).cursor == old(state).cursor
            },
        },
        placed(
            visibility_atoms(r),
            old(state).tokens@,
            old(state).cursor as int,
            final(state).cursor as int,
        ),
{
    let ghost tokens = state.tokens@;
    let ghost pos = state.cursor as int;
    let current = state.current();
    let span = current.span;
    match current.kind {
        TokenKind::Public => {
            state.next();
            proof {
                lemma_placed_mark(TokenKind::Public, span, tokens, pos);
            }
            Some(VisibilityModifier::Public(span))
        },
        TokenKind::Protected => {
            state.next();
            proof {
                lemma_placed_mark(TokenKind::Protected, span, tokens, pos);
            }
            Some(VisibilityModifier::Protected(span))
        },
        TokenKind::Private => {
            state.next();
            proof {
                lemma_placed_mark(TokenKind::Private, span, tokens, pos);
            }
            Some(VisibilityModifier::Private(span))
        },
        _ => {
            proof {
                lemma_placed_nothing(tokens, pos);
            }
            None
        },
    }
}

/// Reads the method that an adaptation is about, with its trait if it
/// names one.
fn reference(state: &mut State) -> (r: ParseResult<(Option<SimpleIdentifier>, SimpleIdentifier)>)
    requires
        old(state).wf(),
    ensures
        parsed(
            *old(state),
            *final(state),
            reference_extent(old(state).tokens@, old(state).cursor as int),
            r,
        ),
        final(state).attributes@ == old(state).attributes@,
        r matches Ok((trait_name, method)) ==> {
            &&& reference_stands_at(
                trait_name,
                method,
                old(state).tokens@,
                old(state).cursor as int,
            )
            &&& final(state).cursor == old(state).cursor + reference_width(
                old(state).tokens@,
                old(state).cursor as int,
            )
        },
        r matches Ok((trait_name, method)) ==> placed(
            method_atoms(trait_name, method),
            old(state).tokens@,
            old(state).cursor as int,
            final(state).cursor as int,
        ),
{
    let ghost tokens = state.tokens@;
    let ghost pos = state.cursor as int;
    if state.peek().kind == TokenKind::DoubleColon {
        let trait_name = full_type_name(state)?;
        state.next();
        let method = identifier(state)?;
        proof {
            lemma_lossless_placed(trait_name.atoms(), tokens, pos, pos + 1);
            lemma_lossless_placed(method.atoms(), tokens, pos + 2, pos + 3);
            lemma_placed_apart(
                trait_name.atoms(),
                method.atoms(),
                tokens,
                pos,
                pos + 1,
                pos + 2,
                pos + 3,
            );
        }
        Ok((Some(trait_name), method))
    } else {
        let method = identifier(state)?;
        proof {
            lemma_placed_nothing(tokens, pos);
            lemma_lossless_placed(method.atoms(), tokens, pos, pos + 1);
            lemma_placed_join(Seq::<Atom>::empty(), method.atoms(), tokens, pos, pos, pos + 1);
        }
        Ok((None, method))
    }
}

/// Reads one adaptation, up to the `;` that closes it.
pub fn adaptation(state: &mut State) -> (r: ParseResult<TraitUsageAdaptation>)
    requires
        old(state).wf(),
    ensures
        parsed(
            *old(state),
            *final(state),
            adaptation_extent(old(state).tokens@, old(state).cursor as int),
            r,
        ),
        final(state).attributes@ == old(state).attributes@,
        r matches Ok(node) ==> node.stands_at(old(state).tokens@, old(state).cursor as int),
        r matches Ok(node) ==> placed(
            node.atoms(),
            old(state).tokens@,
            old(state).cursor as int,
            final(state).cursor as int,
        ),
{
    let ghost tokens = state.tokens@;
    let ghost pos = state.cursor as int;
    reveal(TraitUsageAdaptation::stands_at);
    reveal(TraitUsageAdaptation::atoms);
    proof {
        lemma_adaptation_extent(state.tokens@, state.cursor as int);
    }
    let (trait_name, method) = reference(state)?;
    let ghost named = method_atoms(trait_name, method);
    let ghost at = state.cursor as int;
    let current = state.current();
    let kind = current.kind;
    let span = current.span;
    if kind == TokenKind::As {
        state.next();
        match visibility(state) {
            Some(visibility) => {
                proof {
                    lemma_placed_apart(
                        named,
                        visibility_atoms(Some(visibility)),
                        tokens,
                        pos,
                        at,
                        at + 1,
                        at + 2,
                    );
                }
                if state.current().kind == TokenKind::SemiColon {
                    Ok(TraitUsageAdaptation::Visibility { trait_name, method, visibility })
                } else {
                    let alias = name(state)?;
                    proof {
                        lemma_lossless_placed(alias.atoms(), tokens, at + 2, at + 3);
                        lemma_placed_join(
                            named + visibility_atoms(Some(visibility)),
                            alias.atoms(),
                            tokens,
                            pos,
                            at + 2,
                            at + 3,
                        );
                    }
                    Ok(
                        TraitUsageAdaptation::Alias {
                            trait_name,
                            method,
                            alias,
                            visibility: Some(visibility),
                        },
                    )
                }
            },
            None => {
                let alias = name(state)?;
                proof {
                    lemma_lossless_placed(alias.atoms(), tokens, at + 1, at + 2);
                    lemma_placed_apart(
                        named,
                        visibility_atoms(None),
                        tokens,
                        pos,
                        at,
                        at + 1,
                        at + 1,
                    );
                    lemma_placed_join(
                        named + visibility_atoms(None),
                        alias.atoms(),
                        tokens,
                        pos,
                        at + 1,
                        at + 2,
                    );
                }
                Ok(TraitUsageAdaptation::Alias { trait_name, method, alias, visibility: None })
            },
        }
    } else if kind == TokenKind::Insteadof {
        if trait_name.is_none() {
            return Err(
                ParseError::UnexpectedToken {
                    expected: Expectation::Token(TokenKind::DoubleColon),
                    found: kind,
                    span,
                },
            );
        }
        state.next();
        let insteadof = precedence_names(state)?;
        proof {
            lemma_placed_apart(
                named,
                names_atoms(insteadof@),
                tokens,
                pos,
                at,
                at + 1,
                state.cursor as int,
            );
        }
        Ok(TraitUsageAdaptation::Precedence { trait_name, method, insteadof })
    } else {
        Err(ParseError::UnexpectedToken { expected: Expectation::AsOrInsteadof, found: kind, span })
    }
}

/// Reads adaptations, each with its `;`, up to `}`.
pub fn adaptations(state: &mut State) -> (r: ParseResult<Vec<TraitUsageAdaptation>>)
    requires
        old(state).wf(),
    ensures
        parsed(
            *old(state),
            *final(state),
            adaptations_extent(old(state).tokens@, old(state).cursor as int),
            r,
        ),
        final(state).attributes@ == old(state).attributes@,
        r matches Ok(list) ==> {
            &&& adaptations_stand_at(list@, old(state).tokens@, old(state).cursor as int)
            &&& final(state).cursor == adaptation_start(
                old(state).tokens@,
                old(state).cursor as int,
                list@.len(),
            )
        },
        r matches Ok(list) ==> placed(
            adaptations_atoms(list@),
            old(state).tokens@,
            old(state).cursor as int,
            final(state).cursor as int,
        ),
{
    let ghost tokens = state.tokens@;
    let ghost start = state.cursor as int;
    let mut list: Vec<TraitUsageAdaptation> = Vec::new();
    proof {
        lemma_placed_nothing(tokens, start);
    }
    while state.current().kind != TokenKind::RightBrace
        invariant
            state.wf(),
            state.tokens@ == tokens,
            state.attributes@ == old(state).attributes@,
            tokens == old(state).tokens@,
            start == old(state).cursor,
            start <= state.cursor,
            state.cursor == adaptation_start(tokens, start, list@.len()),
            adaptations_stand_at(list@, tokens, start),
            adaptations_extent(tokens, start) == after(
                (state.cursor - start) as nat,
                adaptations_extent(tokens, state.cursor as int),
            ),
            placed(adaptations_atoms(list@), tokens, start, state.cursor as int),
        decreases tokens.len() - state.cursor,
    {
        let ghost here = state.cursor as int;
        let ghost before = list@;
        let node = adaptation(state)?;
        let ghost read = node.atoms();
        let ghost close = state.cursor as int;
        skip_semicolon(state)?;
        list.push(node);
        proof {
            assert(adaptation_start(tokens, start, before.len()) == here);
            assert forall|i: int| 0 <= i < list@.len() implies (#[trigger] list@[i]).stands_at(
                tokens,
                adaptation_start(tokens, start, i as nat),
            ) by {
                if i < before.len() {
                    assert(list@[i] == before[i]);
                }
            }
            assert(list@.drop_last() =~= before);
            lemma_placed_join(adaptations_atoms(before), read, tokens, start, here, close);
            lemma_placed_around(adaptations_atoms(list@), tokens, start, close, start, close + 1);
        }
    }
    Ok(list)
}

/// Reads what follows the names of a trait use: `;`, or the adaptations in
/// braces.
pub fn usage_tail(state: &mut State) -> (r: ParseResult<Vec<TraitUsageAdaptation>>)
    requires
        old(state).wf(),
    ensures
        parsed(
            *old(state),
            *final(state),
            usage_tail_extent(old(state).tokens@, old(state).cursor as int),
            r,
        ),
        final(state).attributes@ == old(state).attributes@,
        r matches Ok(list) ==> {
            &&& old(state).cursor < final(state).cursor
            &&& tail_stands_at(list@, old(state).tokens@, old(state).cursor as int)
            &&& placed(
                adaptations_atoms(list@),
                old(state).tokens@,
                old(state).cursor as int,
                final(state).cursor as int,
            )
        },
{
    let ghost tokens = state.tokens@;
    let ghost pos = state.cursor as int;
    if state.current().kind == TokenKind::LeftBrace {
        skip_left_brace(state)?;
        let adaptations = adaptations(state)?;
        let ghost close = state.cursor as int;
        skip_right_brace(state)?;
        proof {
            lemma_placed_around(
                adaptations_atoms(adaptations@),
                tokens,
                pos + 1,
                close,
                pos,
                close + 1,
            );
        }
        Ok(adaptations)
    } else {
        skip_semicolon(state)?;
        let adaptations: Vec<TraitUsageAdaptation> = Vec::new();
        proof {
            lemma_placed_nothing(tokens, pos);
            lemma_placed_around(adaptations_atoms(adaptations@), tokens, pos, pos, pos, pos + 1);
        }
        Ok(adaptations)
    }
}

/// Reads a trait use: `use`, the names, and `;` or the adaptations in braces.
pub fn usage(state: &mut State) -> (r: ParseResult<TraitUsage>)
    requires
        old(state).wf(),
    ensures
        parsed(
            *old(state),
            *final(state),
            usage_extent(old(state).tokens@, old(state).cursor as int),
            r,
        ),
        final(state).attributes@ == old(state).attributes@,
        r matches Ok(node) ==> node.stands_at(old(state).tokens@, old(state).cursor as int),
        r matches Ok(node) ==> lossless(
            node.atoms(),
            old(state).tokens@,
            old(state).cursor as int,
            final(state).cursor as int,
        ),
        r is Ok ==> old(state).cursor < final(state).cursor,
        r matches Ok(node) ==> node.traits@.len() >= 1,
{
    let ghost tokens = state.tokens@;
    let ghost pos = state.cursor as int;
    proof {
        lemma_usage_extent(tokens, pos);
    }
    let use_keyword = skip(state, TokenKind::Use)?;
    let traits = trait_names(state)?;
    let ghost tail = state.cursor as int;
    let adaptations = usage_tail(state)?;
    let node = TraitUsage { use_keyword, traits, adaptations };
    proof {
        lemma_trait_usage_stands_at(node, tokens, pos);
        lemma_placed_mark(TokenKind::Use, use_keyword, tokens, pos);
        lemma_placed_join3(
            seq![mark(TokenKind::Use, use_keyword)],
            names_atoms(node.traits@),
            adaptations_atoms(node.adaptations@),
            tokens,
            pos,
            pos + 1,
            tail,
            state.cursor as int,
        );
        lemma_lossless_dropped(node.atoms(), tokens, pos, state.cursor as int, pos);
    }
    Ok(node)
}

/// A member behind its attribute groups, of which there were some or
/// none: a trait use, which takes no attributes; a property behind `var`;
/// or modifiers and then a constant, a method or a property, where the
/// modifiers must fit what they stand before.
#[verifier::opaque]
pub open spec fn member_rest_extent(tokens: Seq<Token>, pos: int, has_attributes: bool) -> Extent
    decreases remaining(tokens, pos), 3int,
{
    if !has_attributes && kind_at(tokens, pos) == TokenKind::Use {
        usage_extent(tokens, pos)
    } else if kind_at(tokens, pos) == TokenKind::Var {
        var_property_extent(tokens, pos)
    } else {
        match modifiers_extent(tokens, pos) {
            Err(e) => Err(e),
            Ok(m) => {
                let modifiers = modifiers_at(tokens, pos, m);
                if kind_at(tokens, pos + m) == TokenKind::Const {
                    match fault(modifiers, Target::Constant) {
                        Some(e) => failed(e, m),
                        None => after(m, constant_extent(tokens, pos + m)),
                    }
                } else if kind_at(tokens, pos + m) == TokenKind::Function {
                    match fault(modifiers, Target::Method) {
                        Some(e) => failed(e, m),
                        None => after(m, method_extent(tokens, pos + m)),
                    }
                } else {
                    match fault(modifiers, Target::Property) {
                        Some(e) => failed(e, m),
                        None => after(m, property_extent(tokens, pos + m)),
                    }
                }
            },
        }
    }
}

/// The definition of `member_rest_extent`, unfolded once.
pub proof fn lemma_member_rest_extent(tokens: Seq<Token>, pos: int, has_attributes: bool)
    ensures
        member_rest_extent(tokens, pos, has_attributes) == {
            if !has_attributes && kind_at(tokens, pos) == TokenKind::Use {
                usage_extent(tokens, pos)
            } else if kind_at(tokens, pos) == TokenKind::Var {
                var_property_extent(tokens, pos)
            } else {
                match modifiers_extent(tokens, pos) {
                    Err(e) => Err(e),
                    Ok(m) => {
                        let modifiers = modifiers_at(tokens, pos, m);
                        if kind_at(tokens, pos + m) == TokenKind::Const {
                            match fault(modifiers, Target::Constant) {
                                Some(e) => failed(e, m),
                                None => after(m, constant_extent(tokens, pos + m)),
                            }
                        } else if kind_at(tokens, pos + m) == TokenKind::Function {
                            match fault(modifiers, Target::Method) {
                                Some(e) => failed(e, m),
                                None => after(m, method_extent(tokens, pos + m)),
                            }
                        } else {
                            match fault(modifiers, Target::Property) {
                                Some(e) => failed(e, m),
                                None => after(m, property_extent(tokens, pos + m)),
                            }
                        }
                    },
                }
            }
        },
{
    reveal_with_fuel(member_rest_extent, 1);
    reveal_with_fuel(method_extent, 1);
}

/// One member of a trait: its attribute groups, and the member itself.
#[verifier::opaque]
pub open spec fn member_extent(tokens: Seq<Token>, pos: int) -> Extent
    decreases remaining(tokens, pos), 4int,
{
    match attributes_extent(tokens, pos) {
        Err(e) => Err(e),
        Ok(a) => after(
            a,
            member_rest_extent(tokens, pos + a, kind_at(tokens, pos) == TokenKind::Attribute),
        ),
    }
}

/// The definition of `member_extent`, unfolded once.
pub proof fn lemma_member_extent(tokens: Seq<Token>, pos: int)
    ensures
        member_extent(tokens, pos) == {
            match attributes_extent(tokens, pos) {
                Err(e) => Err(e),
                Ok(a) => after(
                    a,
                    member_rest_extent(tokens, pos + a, kind_at(tokens, pos) == TokenKind::Attribute),
                ),
            }
        },
{
    reveal_with_fuel(member_extent, 1);
    reveal_with_fuel(member_rest_extent, 1);
}

/// Members up to `}` or the end of the stream. (The test on what a member
/// takes makes the definition well-founded. It never fails: see
/// `lemma_member_takes_tokens`.)
#[verifier::opaque]
pub open spec fn members_extent(tokens: Seq<Token>, pos: int) -> Extent
    decreases remaining(tokens, pos), 5int,
{
    if kind_at(tokens, pos) == TokenKind::RightBrace || kind_at(tokens, pos) == TokenKind::Eof {
        Ok(0)
    } else {
        match member_extent(tokens, pos) {
            Err(e) => Err(e),
            Ok(n) => if 0 < n && pos < tokens.len() {
                after(n, members_extent(tokens, pos + n))
            } else {
                Ok(n)
            },
        }
    }
}

/// The definition of `members_extent`, unfolded once.
pub proof fn lemma_members_extent(tokens: Seq<Token>, pos: int)
    ensures
        members_extent(tokens, pos) == {
            if kind_at(tokens, pos) == TokenKind::RightBrace || kind_at(tokens, pos) == TokenKind::Eof {
                Ok(0)
            } else {
                match member_extent(tokens, pos) {
                    Err(e) => Err(e),
                    Ok(n) => if 0 < n && pos < tokens.len() {
                        after(n, members_extent(tokens, pos + n))
                    } else {
                        Ok(n)
                    },
                }
            }
        },
{
    reveal_with_fuel(members_extent, 1);
    reveal_with_fuel(member_extent, 1);
}

/// The members of a trait in braces.
#[verifier::opaque]
pub open spec fn trait_body_extent(tokens: Seq<Token>, pos: int) -> Extent
    decreases remaining(tokens, pos), 0int,
{
    if kind_at(tokens, pos) == TokenKind::LeftBrace {
        after(
            1,
            closing(tokens, pos + 1, members_extent(tokens, pos + 1), TokenKind::RightBrace),
        )
    } else {
        stopped(tokens, pos, pos, Expectation::Token(TokenKind::LeftBrace))
    }
}

/// `trait`, a name, and the members in braces.
#[verifier::opaque]
pub open spec fn trait_extent(tokens: Seq<Token>, pos: int) -> Extent
    decreases remaining(tokens, pos), 0int,
{
    if kind_at(tokens, pos) == TokenKind::Trait {
        match name_extent(tokens, pos + 1, IdentifierForm::Unqualified) {
            Err(e) => later(1, e),
            Ok(_) => after(2, trait_body_extent(tokens, pos + 2)),
        }
    } else {
        stopped(tokens, pos, pos, Expectation::Token(TokenKind::Trait))
    }
}

/// The definition of `trait_extent`, unfolded once.
pub proof fn lemma_trait_extent(tokens: Seq<Token>, pos: int)
    ensures
        trait_extent(tokens, pos) == {
            if kind_at(tokens, pos) == TokenKind::Trait {
                match name_extent(tokens, pos + 1, IdentifierForm::Unqualified) {
                    Err(e) => later(1, e),
                    Ok(_) => after(2, trait_body_extent(tokens, pos + 2)),
                }
            } else {
                stopped(tokens, pos, pos, Expectation::Token(TokenKind::Trait))
            }
        },
{
    reveal_with_fuel(trait_extent, 1);
    reveal_with_fuel(trait_body_extent, 1);
}

/// Where member `i` starts, if the first starts at `pos`.
pub open spec fn member_start(tokens: Seq<Token>, pos: int, i: nat) -> int
    decreases i,
{
    if i == 0 {
        pos
    } else {
        let before = member_start(tokens, pos, (i - 1) as nat);
        match member_extent(tokens, before) {
            Ok(n) => before + n,
            Err(_) => before,
        }
    }
}

/// The groups are all those that stand from `pos` on, `width` tokens in all.
pub open spec fn attributes_stand_at(
    groups: Seq<AttributeGroup>,
    tokens: Seq<Token>,
    pos: int,
    width: nat,
) -> bool {
    groups_stand_at(groups, tokens, pos) && group_start(tokens, pos, groups.len()) == pos + width
}

impl TraitMember {
    /// The node is the tree of the member that starts at `pos`, with its
    /// attribute groups and modifiers.
    #[verifier::opaque]
    pub open spec fn stands_at(self, tokens: Seq<Token>, pos: int) -> bool
        decreases self, 4int,
    {
        let a = match attributes_extent(tokens, pos) {
            Ok(a) => a,
            Err(_) => 0,
        };
        let at = pos + a;
        let m = match modifiers_extent(tokens, at) {
            Ok(m) => m,
            Err(_) => 0,
        };
        let key = at + m;
        let usage = kind_at(tokens, pos) == TokenKind::Use;
        let var = !usage && kind_at(tokens, at) == TokenKind::Var;
        let other = !usage && !var;
        match self {
            TraitMember::TraitUsage(node) => usage && node.stands_at(tokens, pos),
            TraitMember::VariableProperty(node) => {
                &&& var
                &&& attributes_stand_at(node.attributes@, tokens, pos, a)
                &&& node.stands_at(tokens, at)
            },
            TraitMember::Constant(node) => {
                &&& other && kind_at(tokens, key) == TokenKind::Const
                &&& attributes_stand_at(node.attributes@, tokens, pos, a)
                &&& node.modifiers.modifiers@ == modifiers_at(tokens, at, m)
                &&& node.stands_at(tokens, key)
            },
            TraitMember::AbstractMethod(node) => {
                &&& other && kind_at(tokens, key) == TokenKind::Function
                &&& attributes_stand_at(node.attributes@, tokens, pos, a)
                &&& node.modifiers.modifiers@ == modifiers_at(tokens, at, m)
                &&& node.stands_at(tokens, key)
            },
            TraitMember::AbstractConstructor(node) => {
                &&& other && kind_at(tokens, key) == TokenKind::Function
                &&& attributes_stand_at(node.attributes@, tokens, pos, a)
                &&& node.modifiers.modifiers@ == modifiers_at(tokens, at, m)
                &&& node.stands_at(tokens, key)
            },
            TraitMember::ConcreteMethod(node) => {
                &&& other && kind_at(tokens, key) == TokenKind::Function
                &&& attributes_stand_at(node.attributes@, tokens, pos, a)
                &&& node.modifiers.modifiers@ == modifiers_at(tokens, at, m)
                &&& node.stands_at(tokens, key)
            },
            TraitMember::ConcreteConstructor(node) => {
                &&& other && kind_at(tokens, key) == TokenKind::Function
                &&& attributes_stand_at(node.attributes@, tokens, pos, a)
                &&& node.modifiers.modifiers@ == modifiers_at(tokens, at, m)
                &&& node.stands_at(tokens, key)
            },
            TraitMember::Property(node) => {
                &&& other && kind_at(tokens, key) != TokenKind::Const && kind_at(tokens, key)
                    != TokenKind::Function
                &&& attributes_stand_at(node.attributes@, tokens, pos, a)
                &&& node.modifiers.modifiers@ == modifiers_at(tokens, at, m)
                &&& node.stands_at(tokens, key)
            },
        }
    }
}

/// The definition of `TraitMember::stands_at`, unfolded once.
pub proof fn lemma_trait_member_stands_at(node: TraitMember, tokens: Seq<Token>, pos: int)
    ensures
        node.stands_at(tokens, pos) == {
            let a = match attributes_extent(tokens, pos) {
                Ok(a) => a,
                Err(_) => 0,
            };
            let at = pos + a;
            let m = match modifiers_extent(tokens, at) {
                Ok(m) => m,
                Err(_) => 0,
            };
            let key = at + m;
            let usage = kind_at(tokens, pos) == TokenKind::Use;
            let var = !usage && kind_at(tokens, at) == TokenKind::Var;
            let other = !usage && !var;
            match node {
                TraitMember::TraitUsage(node) => usage && node.stands_at(tokens, pos),
                TraitMember::VariableProperty(node) => {
                    &&& var
                    &&& attributes_stand_at(node.attributes@, tokens, pos, a)
                    &&& node.stands_at(tokens, at)
                },
                TraitMember::Constant(node) => {
                    &&& other && kind_at(tokens, key) == TokenKind::Const
                    &&& attributes_stand_at(node.attributes@, tokens, pos, a)
                    &&& node.modifiers.modifiers@ == modifiers_at(tokens, at, m)
                    &&& node.stands_at(tokens, key)
                },
                TraitMember::AbstractMethod(node) => {
                    &&& other && kind_at(tokens, key) == TokenKind::Function
                    &&& attributes_stand_at(node.attributes@, tokens, pos, a)
                    &&& node.modifiers.modifiers@ == modifiers_at(tokens, at, m)
                    &&& node.stands_at(tokens, key)
                },
                TraitMember::AbstractConstructor(node) => {
                    &&& other && kind_at(tokens, key) == TokenKind::Function
                    &&& attributes_stand_at(node.attributes@, tokens, pos, a)
                    &&& node.modifiers.modifiers@ == modifiers_at(tokens, at, m)
                    &&& node.stands_at(tokens, key)
                },
                TraitMember::ConcreteMethod(node) => {
                    &&& other && kind_at(tokens, key) == TokenKind::Function
                    &&& attributes_stand_at(node.attributes@, tokens, pos, a)
                    &&& node.modifiers.modifiers@ == modifiers_at(tokens, at, m)
                    &&& node.stands_at(tokens, key)
                },
                TraitMember::ConcreteConstructor(node) => {
                    &&& other && kind_at(tokens, key) == TokenKind::Function
                    &&& attributes_stand_at(node.attributes@, tokens, pos, a)
                    &&& node.modifiers.modifiers@ == modifiers_at(tokens, at, m)
                    &&& node.stands_at(tokens, key)
                },
                TraitMember::Property(node) => {
                    &&& other && kind_at(tokens, key) != TokenKind::Const && kind_at(tokens, key)
                        != TokenKind::Function
                    &&& attributes_stand_at(node.attributes@, tokens, pos, a)
                    &&& node.modifiers.modifiers@ == modifiers_at(tokens, at, m)
                    &&& node.stands_at(tokens, key)
                },
            }
        },
{
    reveal_with_fuel(TraitMember::stands_at, 1);
    reveal_with_fuel(ConcreteMethod::stands_at, 1);
    reveal_with_fuel(ConcreteConstructor::stands_at, 1);
}

/// Each of the members is the tree of the member that starts where the one
/// before it ends, the first of them at `pos`.
#[verifier::opaque]
pub open spec fn members_stand_at(members: Seq<TraitMember>, tokens: Seq<Token>, pos: int) -> bool
    decreases members, 0int,
{
    if members.len() == 0 {
        true
    } else {
        &&& members_stand_at(members.drop_last(), tokens, pos)
        &&& members.last().stands_at(tokens, member_start(tokens, pos, (members.len() - 1) as nat))
    }
}

/// The definition of `members_stand_at`, unfolded once.
pub proof fn lemma_members_stand_at(members: Seq<TraitMember>, tokens: Seq<Token>, pos: int)
    ensures
        members_stand_at(members, tokens, pos) == {
            if members.len() == 0 {
                true
            } else {
                &&& members_stand_at(members.drop_last(), tokens, pos)
                &&& members.last().stands_at(tokens, member_start(tokens, pos, (members.len() - 1) as nat))
            }
        },
{
    reveal_with_fuel(members_stand_at, 1);
    reveal_with_fuel(TraitMember::stands_at, 1);
}

impl TraitBody {
    /// The node is the tree of the trait body that starts at `pos`.
    #[verifier::opaque]
    pub open spec fn stands_at(self, tokens: Seq<Token>, pos: int) -> bool
        decreases self, 5int,
    {
        let end = member_start(tokens, pos + 1, self.members@.len());
        &&& self.left_brace == span_at(tokens, pos)
        &&& members_stand_at(self.members@, tokens, pos + 1)
        &&& kind_at(tokens, end) == TokenKind::RightBrace
        &&& self.right_brace == span_at(tokens, end)
    }
}

impl TraitStatement {
    /// The node, but for its attributes, is the tree of the trait
    /// declaration that starts at `pos`.
    #[verifier::opaque]
    pub open spec fn stands_at(self, tokens: Seq<Token>, pos: int) -> bool
        decreases self, 6int,
    {
        &&& self.trait_keyword == span_at(tokens, pos)
        &&& self.name.stands_at(tokens, pos + 1)
        &&& self.body.stands_at(tokens, pos + 2)
    }
}

/// The definition of `TraitStatement::stands_at`, unfolded once.
pub proof fn lemma_trait_statement_stands_at(node: TraitStatement, tokens: Seq<Token>, pos: int)
    ensures
        node.stands_at(tokens, pos) == {
            &&& node.trait_keyword == span_at(tokens, pos)
            &&& node.name.stands_at(tokens, pos + 1)
            &&& node.body.stands_at(tokens, pos + 2)
        },
{
    reveal_with_fuel(TraitStatement::stands_at, 1);
    reveal_with_fuel(TraitBody::stands_at, 1);
}

/// Reads one member of a trait.
pub fn member(state: &mut State) -> (r: ParseResult<TraitMember>)
    requires
        old(state).settled(),
    ensures
        parsed(
            *old(state),
            *final(state),
            member_extent(old(state).tokens@, old(state).cursor as int),
            r,
        ),
        r matches Ok(node) ==> {
            &&& final(state).settled()
            &&& old(state).cursor < final(state).cursor
            &&& node.stands_at(old(state).tokens@, old(state).cursor as int)
        },
        r matches Ok(node) ==> lossless(
            node.atoms(),
            old(state).tokens@,
            old(state).cursor as int,
            final(state).cursor as int,
        ),
    decreases remaining(old(state).tokens@, old(state).cursor as int), 4int,
{
    let ghost tokens = state.tokens@;
    let ghost pos = state.cursor as int;
    proof {
        lemma_member_extent(tokens, pos);
    }
    let has_attributes = gather_attributes(state)?;
    let ghost at = state.cursor as int;
    let ghost groups = groups_atoms(state.attributes@);
    proof {
        assert(state.attributes@ =~= state.attributes@.subrange(
            0,
            state.attributes@.len() as int,
        ));
        lemma_member_rest_extent(tokens, at, has_attributes);
    }
    if !has_attributes && state.current().kind == TokenKind::Use {
        let usage = usage(state)?;
        let node = TraitMember::TraitUsage(usage);
        proof {
            lemma_trait_member_stands_at(node, tokens, pos);
            lemma_trait_member_atoms(node);
        }
        return Ok(node);
    }
    if state.current().kind == TokenKind::Var {
        let property = parse_var(state)?;
        let node = TraitMember::VariableProperty(property);
        proof {
            lemma_trait_member_stands_at(node, tokens, pos);
            lemma_lossless_join(groups, property.own_atoms(), tokens, pos, at, state.cursor as int);
            lemma_trait_member_atoms(node);
        }
        return Ok(node);
    }
    let modifiers = collect(state)?;
    let ghost key = state.cursor as int;
    let ghost keywords = modifiers_atoms(modifiers@);
    if state.current().kind == TokenKind::Const {
        let group = constant_group(modifiers)?;
        let constant = classish(state, group)?;
        let node = TraitMember::Constant(constant);
        proof {
            lemma_trait_member_stands_at(node, tokens, pos);
            lemma_lossless_join3(
                groups,
                keywords,
                constant.own_atoms(),
                tokens,
                pos,
                at,
                key,
                state.cursor as int,
            );
            lemma_trait_member_atoms(node);
        }
        return Ok(node);
    }
    if state.current().kind == TokenKind::Function {
        let group = method_group(modifiers)?;
        let method = method(state, group)?;
        proof {
            lemma_method_stands_at(method, tokens, key);
            lemma_method_own_atoms(method);
            lemma_lossless_join3(
                groups,
                keywords,
                method.own_atoms(),
                tokens,
                pos,
                at,
                key,
                state.cursor as int,
            );
        }
        let node = match method {
            Method::Abstract(method) => TraitMember::AbstractMethod(method),
            Method::Concrete(method) => {
                proof {
                    lemma_concrete_method_atoms(method);
                }
                TraitMember::ConcreteMethod(method)
            },
            Method::AbstractConstructor(ctor) => TraitMember::AbstractConstructor(ctor),
            Method::ConcreteConstructor(ctor) => {
                proof {
                    lemma_concrete_constructor_atoms(ctor);
                }
                TraitMember::ConcreteConstructor(ctor)
            },
        };
        proof {
            lemma_trait_member_stands_at(node, tokens, pos);
            lemma_trait_member_atoms(node);
        }
        return Ok(node);
    }
    let group = property_group(modifiers)?;
    let property = crate::parser::properties::parse(state, group)?;
    let node = TraitMember::Property(property);
    proof {
        lemma_trait_member_stands_at(node, tokens, pos);
        lemma_lossless_join3(
            groups,
            keywords,
            property.own_atoms(),
            tokens,
            pos,
            at,
            key,
            state.cursor as int,
        );
        lemma_trait_member_atoms(node);
    }
    Ok(node)
}

/// Reads members until `}` or the end of the stream.
pub fn members(state: &mut State) -> (r: ParseResult<Vec<TraitMember>>)
    requires
        old(state).settled(),
    ensures
        parsed(
            *old(state),
            *final(state),
            members_extent(old(state).tokens@, old(state).cursor as int),
            r,
        ),
        r matches Ok(list) ==> {
            &&& final(state).settled()
            &&& members_stand_at(list@, old(state).tokens@, old(state).cursor as int)
            &&& final(state).cursor == member_start(
                old(state).tokens@,
                old(state).cursor as int,
                list@.len(),
            )
        },
        r matches Ok(list) ==> lossless(
            members_atoms(list@),
            old(state).tokens@,
            old(state).cursor as int,
            final(state).cursor as int,
        ),
    decreases remaining(old(state).tokens@, old(state).cursor as int), 5int,
{
    let ghost tokens = state.tokens@;
    let ghost start = state.cursor as int;
    let mut list: Vec<TraitMember> = Vec::new();
    proof {
        lemma_members_stand_at(list@, tokens, start);
        lemma_members_atoms(list@);
        lemma_lossless_nothing(tokens, start);
    }
    while state.current().kind != TokenKind::RightBrace && !state.is_eof()
        invariant
            state.settled(),
            state.tokens@ == tokens,
            tokens == old(state).tokens@,
            start == old(state).cursor,
            start <= state.cursor,
            state.cursor == member_start(tokens, start, list@.len()),
            members_stand_at(list@, tokens, start),
            members_extent(tokens, start) == after(
                (state.cursor - start) as nat,
                members_extent(tokens, state.cursor as int),
            ),
            lossless(members_atoms(list@), tokens, start, state.cursor as int),
        decreases tokens.len() - state.cursor,
    {
        let ghost before = list@;
        let ghost here = state.cursor as int;
        proof {
            lemma_members_extent(tokens, here);
        }
        let next = member(state)?;
        let ghost read = next.atoms();
        list.push(next);
        proof {
            assert(list@.drop_last() =~= before);
            assert(member_start(tokens, start, before.len()) == here);
            lemma_members_stand_at(list@, tokens, start);
            lemma_members_atoms(list@);
            lemma_lossless_join(
                members_atoms(before),
                read,
                tokens,
                start,
                here,
                state.cursor as int,
            );
        }
    }
    proof {
        lemma_members_extent(tokens, state.cursor as int);
    }
    Ok(list)
}

/// The definition of `trait_body_extent`, unfolded once.
pub proof fn lemma_trait_body_extent(tokens: Seq<Token>, pos: int)
    ensures
        trait_body_extent(tokens, pos) == if kind_at(tokens, pos) == TokenKind::LeftBrace {
            after(
                1,
                closing(tokens, pos + 1, members_extent(tokens, pos + 1), TokenKind::RightBrace),
            )
        } else {
            stopped(tokens, pos, pos, Expectation::Token(TokenKind::LeftBrace))
        },
{
    reveal_with_fuel(trait_body_extent, 1);
    reveal_with_fuel(members_extent, 1);
}

/// The definition of `TraitBody::stands_at`, unfolded once.
pub proof fn lemma_trait_body_stands_at(body: TraitBody, tokens: Seq<Token>, pos: int)
    ensures
        body.stands_at(tokens, pos) == {
                let end = member_start(tokens, pos + 1, body.members@.len());
                &&& body.left_brace == span_at(tokens, pos)
                &&& members_stand_at(body.members@, tokens, pos + 1)
                &&& kind_at(tokens, end) == TokenKind::RightBrace
                &&& body.right_brace == span_at(tokens, end)
        },
{
    reveal_with_fuel(TraitBody::stands_at, 1);
    reveal_with_fuel(members_stand_at, 1);
}

/// Reads the members of a trait in braces.
pub fn trait_body(state: &mut State) -> (r: ParseResult<TraitBody>)
    requires
        old(state).settled(),
    ensures
        parsed(
            *old(state),
            *final(state),
            trait_body_extent(old(state).tokens@, old(state).cursor as int),
            r,
        ),
        r matches Ok(body) ==> final(state).settled() && body.stands_at(
            old(state).tokens@,
            old(state).cursor as int,
        ),
        r matches Ok(body) ==> lossless(
            body.atoms(),
            old(state).tokens@,
            old(state).cursor as int,
            final(state).cursor as int,
        ),
    decreases remaining(old(state).tokens@, old(state).cursor as int), 0int,
{
    let ghost tokens = state.tokens@;
    let ghost pos = state.cursor as int;
    proof {
        lemma_trait_body_extent(tokens, pos);
    }
    let left_brace = skip_left_brace(state)?;
    let members = members(state)?;
    let ghost close = state.cursor as int;
    let right_brace = skip_right_brace(state)?;
    let body = TraitBody { left_brace, members, right_brace };
    proof {
        lemma_trait_body_stands_at(body, tokens, pos);
        lemma_lossless_mark(TokenKind::LeftBrace, left_brace, tokens, pos);
        lemma_lossless_mark(TokenKind::RightBrace, right_brace, tokens, close);
        lemma_lossless_join3(
            seq![mark(TokenKind::LeftBrace, left_brace)],
            members_atoms(body.members@),
            seq![mark(TokenKind::RightBrace, right_brace)],
            tokens,
            pos,
            pos + 1,
            close,
            close + 1,
        );
        lemma_trait_body_atoms(body);
    }
    Ok(body)
}

/// Reads a trait declaration, and gives it the attribute groups that wait.
/// These were read before it: what it owes for the tokens it reads itself
/// are its atoms from `trait` on.
pub fn parse(state: &mut State) -> (r: ParseResult<Statement>)
    requires
        old(state).wf(),
    ensures
        parsed(
            *old(state),
            *final(state),
            trait_extent(old(state).tokens@, old(state).cursor as int),
            r,
        ),
        r matches Ok(node) ==> {
            &&& final(state).settled()
            &&& old(state).cursor < final(state).cursor
            &&& node matches Statement::Trait(declaration)
            &&& declaration.attributes@ == old(state).attributes@
            &&& declaration.stands_at(old(state).tokens@, old(state).cursor as int)
            &&& lossless(
                declaration.own_atoms(),
                old(state).tokens@,
                old(state).cursor as int,
                final(state).cursor as int,
            )
        },
    decreases remaining(old(state).tokens@, old(state).cursor as int), 0int,
{
    let ghost tokens = state.tokens@;
    let ghost pos = state.cursor as int;
    proof {
        lemma_trait_extent(tokens, pos);
    }
    let trait_keyword = skip(state, TokenKind::Trait)?;
    let name = identifier(state)?;
    let attributes = state.get_attributes();
    let body = trait_body(state)?;
    let node = TraitStatement { trait_keyword, name, attributes, body };
    proof {
        lemma_trait_statement_stands_at(node, tokens, pos);
        lemma_lossless_mark(TokenKind::Trait, trait_keyword, tokens, pos);
        lemma_lossless_join3(
            seq![mark(TokenKind::Trait, trait_keyword)],
            node.name.atoms(),
            node.body.atoms(),
            tokens,
            pos,
            pos + 1,
            pos + 2,
            state.cursor as int,
        );
        lemma_trait_statement_own_atoms(node);
    }
    Ok(Statement::Trait(node))
}

/// An adaptation and its `;` take at least one token, and none from behind
/// the end of the stream.
pub proof fn lemma_clause_takes_tokens(tokens: Seq<Token>, pos: int)
    requires
        0 <= pos,
        clause_extent(tokens, pos) is Ok,
    ensures
        clause_extent(tokens, pos)->Ok_0 > 0,
        pos < tokens.len(),
{
    lemma_adaptation_extent(tokens, pos);
}

/// A member takes at least one token, and none from behind the end of the
/// stream.
pub proof fn lemma_member_takes_tokens(tokens: Seq<Token>, pos: int)
    requires
        0 <= pos,
        member_extent(tokens, pos) is Ok,
    ensures
        member_extent(tokens, pos)->Ok_0 > 0,
        pos < tokens.len(),
{
    lemma_member_extent(tokens, pos);
    let a = attributes_extent(tokens, pos)->Ok_0;
    let at = pos + a;
    let attributed = kind_at(tokens, pos) == TokenKind::Attribute;
    lemma_member_rest_extent(tokens, at, attributed);
    lemma_usage_extent(tokens, at);
    if (attributed || kind_at(tokens, at) != TokenKind::Use) && kind_at(tokens, at)
        != TokenKind::Var {
        let m = modifiers_extent(tokens, at)->Ok_0;
        lemma_method_extent(tokens, at + m);
        lemma_constant_extent(tokens, at + m);
    }
}

} // verus!
