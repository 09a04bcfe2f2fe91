//! Modifiers of class-like members: collecting them, and testing whether
//! they fit the member they stand before.

use vstd::prelude::*;
use crate::ast::atom::Atom;
use crate::ast::atom::mark;
use crate::ast::modifiers::Modifier;
use crate::ast::modifiers::ModifierGroup;
use crate::ast::modifiers::ModifierKind;
use crate::ast::modifiers::modifiers_atoms;
use crate::parser::error::Extent;
use crate::parser::error::ParseError;
use crate::parser::error::ParseResult;
use crate::parser::error::failed;
use crate::parser::error::kind_at;
use crate::parser::error::span_at;
use crate::parser::lossless::lemma_lossless_join;
use crate::parser::lossless::lemma_lossless_mark;
use crate::parser::lossless::lemma_lossless_nothing;
use crate::parser::lossless::lossless;
use crate::parser::state::State;
use crate::parser::state::parsed;
use crate::parser::utils::remaining;
use crate::token::Token;
use crate::token::TokenKind;

verus! {

/// The modifier that a token of the given kind is.
pub open spec fn modifier_of(kind: TokenKind) -> Option<ModifierKind> {
    match kind {
        TokenKind::Public => Some(ModifierKind::Public),
        TokenKind::Protected => Some(ModifierKind::Protected),
        TokenKind::Private => Some(ModifierKind::Private),
        TokenKind::Static => Some(ModifierKind::Static),
        TokenKind::Abstract => Some(ModifierKind::Abstract),
        TokenKind::Final => Some(ModifierKind::Final),
        TokenKind::Readonly => Some(ModifierKind::Readonly),
        _ => None,
    }
}

/// The modifier that a token of the given kind is.
pub fn modifier_kind(kind: TokenKind) -> (r: Option<ModifierKind>)
    ensures
        r == modifier_of(kind),
{
    match kind {
        TokenKind::Public => Some(ModifierKind::Public),
        TokenKind::Protected => Some(ModifierKind::Protected),
        TokenKind::Private => Some(ModifierKind::Private),
        TokenKind::Static => Some(ModifierKind::Static),
        TokenKind::Abstract => Some(ModifierKind::Abstract),
        TokenKind::Final => Some(ModifierKind::Final),
        TokenKind::Readonly => Some(ModifierKind::Readonly),
        _ => None,
    }
}

/// The first of the modifiers from index `from` on that is of the given kind.
pub open spec fn find_from(modifiers: Seq<Modifier>, kind: ModifierKind, from: int) -> Option<
    Modifier,
>
    decreases modifiers.len() - from,
{
    if from < 0 || from >= modifiers.len() {
        None
    } else if modifiers[from].kind == kind {
        Some(modifiers[from])
    } else {
        find_from(modifiers, kind, from + 1)
    }
}

/// The first of the modifiers that is of the given kind.
pub open spec fn find(modifiers: Seq<Modifier>, kind: ModifierKind) -> Option<Modifier> {
    find_from(modifiers, kind, 0)
}

/// The first of the modifiers that is a visibility.
pub open spec fn find_visibility_from(modifiers: Seq<Modifier>, from: int) -> Option<Modifier>
    decreases modifiers.len() - from,
{
    if from < 0 || from >= modifiers.len() {
        None
    } else if modifiers[from].kind.is_visibility() {
        Some(modifiers[from])
    } else {
        find_visibility_from(modifiers, from + 1)
    }
}

/// The modifiers that the `n` tokens from `pos` on are.
pub open spec fn modifiers_at(tokens: Seq<Token>, pos: int, n: nat) -> Seq<Modifier> {
    Seq::new(
        n,
        |i: int|
            Modifier {
                kind: modifier_of(kind_at(tokens, pos + i)).unwrap(),
                span: span_at(tokens, pos + i),
            },
    )
}

/// What is wrong with the modifier at `at` beside those from `pos` up to
/// it: it stands there already, or it is a second visibility.
pub open spec fn clash(tokens: Seq<Token>, pos: int, at: int) -> Option<ParseError> {
    let earlier = modifiers_at(tokens, pos, (at - pos) as nat);
    let kind = modifier_of(kind_at(tokens, at)).unwrap();
    if find(earlier, kind) is Some {
        Some(ParseError::DuplicateModifier { modifier: kind_at(tokens, at), span: span_at(tokens, at) })
    } else if kind.is_visibility() && find_visibility_from(earlier, 0) is Some {
        Some(ParseError::MultipleVisibilityModifiers { span: span_at(tokens, at) })
    } else {
        None
    }
}

/// The modifiers from `pos` on, where those up to `at` are known to go
/// together: all modifier keywords that follow, as long as none clashes.
pub open spec fn modifiers_extent_from(tokens: Seq<Token>, pos: int, at: int) -> Extent
    decreases remaining(tokens, at),
{
    if modifier_of(kind_at(tokens, at)) is None || at < pos {
        Ok((at - pos) as nat)
    } else {
        match clash(tokens, pos, at) {
            Some(e) => failed(e, (at - pos) as nat),
            None => modifiers_extent_from(tokens, pos, at + 1),
        }
    }
}

/// A run of modifier keywords, in which none stands twice and at most one
/// is a visibility.
pub open spec fn modifiers_extent(tokens: Seq<Token>, pos: int) -> Extent {
    modifiers_extent_from(tokens, pos, pos)
}

/// The kinds of member that modifiers stand before.
#[derive(Debug, PartialEq, Eq, Clone, Copy, Hash, Structural)]
pub enum Target {
    Method,
    Property,
    Constant,
}

impl Target {
    /// Whether a modifier of the given kind may stand before such a member.
    pub open spec fn admits(self, kind: ModifierKind) -> bool {
        match self {
            Target::Method => kind != ModifierKind::Readonly,
            Target::Property => kind != ModifierKind::Abstract && kind != ModifierKind::Final,
            Target::Constant => kind.is_visibility() || kind == ModifierKind::Final,
        }
    }

    /// The two kinds of modifier that may not both stand before such a
    /// member; the first is the one reported.
    pub open spec fn excludes(self) -> (ModifierKind, ModifierKind) {
        match self {
            Target::Method => (ModifierKind::Abstract, ModifierKind::Final),
            Target::Property => (ModifierKind::Static, ModifierKind::Readonly),
            Target::Constant => (ModifierKind::Private, ModifierKind::Final),
        }
    }

    pub fn admits_kind(self, kind: ModifierKind) -> (r: bool)
        ensures
            r == self.admits(kind),
    {
        match self {
            Target::Method => kind != ModifierKind::Readonly,
            Target::Property => kind != ModifierKind::Abstract && kind != ModifierKind::Final,
            Target::Constant => kind == ModifierKind::Public || kind == ModifierKind::Protected
                || kind == ModifierKind::Private || kind == ModifierKind::Final,
        }
    }

    pub fn excluded_pair(self) -> (r: (ModifierKind, ModifierKind))
        ensures
            r == self.excludes(),
    {
        match self {
            Target::Method => (ModifierKind::Abstract, ModifierKind::Final),
            Target::Property => (ModifierKind::Static, ModifierKind::Readonly),
            Target::Constant => (ModifierKind::Private, ModifierKind::Final),
        }
    }
}

/// The first of the modifiers from index `from` on that may not stand
/// before a member of the given kind.
pub open spec fn first_unfit_from(modifiers: Seq<Modifier>, target: Target, from: int) -> Option<
    Modifier,
>
    decreases modifiers.len() - from,
{
    if from < 0 || from >= modifiers.len() {
        None
    } else if !target.admits(modifiers[from].kind) {
        Some(modifiers[from])
    } else {
        first_unfit_from(modifiers, target, from + 1)
    }
}

/// What is wrong with the modifiers before a member of the given kind: the
/// first that may not stand there at all; or else, where two stand there
/// that exclude each other, the one of them that is reported.
#[verifier::opaque]
pub open spec fn fault(modifiers: Seq<Modifier>, target: Target) -> Option<ParseError> {
    match first_unfit_from(modifiers, target, 0) {
        Some(m) => Some(
            ParseError::ModifierNotAllowed { modifier: m.kind.token_kind(), span: m.span },
        ),
        None => {
            let (reported, other) = target.excludes();
            match find(modifiers, reported) {
                Some(m) => if find(modifiers, other) is Some {
                    Some(
                        ParseError::ConflictingModifiers {
                            modifier: reported.token_kind(),
                            other: other.token_kind(),
                            span: m.span,
                        },
                    )
                } else {
                    None
                },
                None => None,
            }
        },
    }
}

/// The definition of `fault`, unfolded once.
pub proof fn lemma_fault(modifiers: Seq<Modifier>, target: Target)
    ensures
        fault(modifiers, target) == {
            match first_unfit_from(modifiers, target, 0) {
                Some(m) => Some(
                    ParseError::ModifierNotAllowed { modifier: m.kind.token_kind(), span: m.span },
                ),
                None => {
                    let (reported, other) = target.excludes();
                    match find(modifiers, reported) {
                        Some(m) => if find(modifiers, other) is Some {
                            Some(
                                ParseError::ConflictingModifiers {
                                    modifier: reported.token_kind(),
                                    other: other.token_kind(),
                                    span: m.span,
                                },
                            )
                        } else {
                            None
                        },
                        None => None,
                    }
                },
            }
        },
{
    reveal(fault);
}

/// The keyword's token kind.
pub fn keyword(kind: ModifierKind) -> (r: TokenKind)
    ensures
        r == kind.token_kind(),
{
    match kind {
        ModifierKind::Public => TokenKind::Public,
        ModifierKind::Protected => TokenKind::Protected,
        ModifierKind::Private => TokenKind::Private,
        ModifierKind::Static => TokenKind::Static,
        ModifierKind::Abstract => TokenKind::Abstract,
        ModifierKind::Final => TokenKind::Final,
        ModifierKind::Readonly => TokenKind::Readonly,
    }
}

/// Finds the first modifier of the given kind.
pub fn find_modifier(modifiers: &Vec<Modifier>, kind: ModifierKind) -> (r: Option<Modifier>)
    ensures
        r == find(modifiers@, kind),
{
    let mut i: usize = 0;
    while i < modifiers.len()
        invariant
            i <= modifiers.len(),
            find(modifiers@, kind) == find_from(modifiers@, kind, i as int),
        decreases modifiers.len() - i,
    {
        if modifiers[i].kind == kind {
            return Some(modifiers[i]);
        }
        i += 1;
    }
    None
}

/// Finds the first modifier that is a visibility.
pub fn find_visibility(modifiers: &Vec<Modifier>) -> (r: Option<Modifier>)
    ensures
        r == find_visibility_from(modifiers@, 0),
{
    let mut i: usize = 0;
    while i < modifiers.len()
        invariant
            i <= modifiers.len(),
            find_visibility_from(modifiers@, 0) == find_visibility_from(modifiers@, i as int),
        decreases modifiers.len() - i,
    {
        let kind = modifiers[i].kind;
        if kind == ModifierKind::Public || kind == ModifierKind::Protected || kind
            == ModifierKind::Private {
            return Some(modifiers[i]);
        }
        i += 1;
    }
    None
}

/// Every modifier keyword is kept: the atoms of the modifiers that `n`
/// tokens from `pos` on are stand for these tokens.
pub proof fn lemma_modifiers_kept(tokens: Seq<Token>, pos: int, n: nat)
    requires
        0 <= pos,
        pos + n <= tokens.len(),
        forall|i: int| 0 <= i < n ==> modifier_of(#[trigger] kind_at(tokens, pos + i)) is Some,
    ensures
        lossless(modifiers_atoms(modifiers_at(tokens, pos, n)), tokens, pos, pos + n),
    decreases n,
{
    let atoms = modifiers_atoms(modifiers_at(tokens, pos, n));
    if n == 0 {
        assert(atoms =~= Seq::<Atom>::empty());
        lemma_lossless_nothing(tokens, pos);
    } else {
        let before = modifiers_atoms(modifiers_at(tokens, pos, (n - 1) as nat));
        let last = pos + n - 1;
        let kind = kind_at(tokens, last);
        assert(modifier_of(kind_at(tokens, pos + (n - 1))) is Some);
        lemma_modifiers_kept(tokens, pos, (n - 1) as nat);
        lemma_lossless_mark(kind, span_at(tokens, last), tokens, last);
        assert(atoms =~= before + seq![mark(kind, span_at(tokens, last))]);
        lemma_lossless_join(
            before,
            seq![mark(kind, span_at(tokens, last))],
            tokens,
            pos,
            last,
            last + 1,
        );
    }
}

/// Reads the modifiers under the cursor. None may stand twice, and at most
/// one may be a visibility.
pub fn collect(state: &mut State) -> (r: ParseResult<Vec<Modifier>>)
    requires
        old(state).wf(),
    ensures
        parsed(
            *old(state),
            *final(state),
            modifiers_extent(old(state).tokens@, old(state).cursor as int),
            r,
        ),
        final(state).attributes@ == old(state).attributes@,
        r matches Ok(modifiers) ==> {
            &&& modifiers@ == modifiers_at(
                old(state).tokens@,
                old(state).cursor as int,
                modifiers@.len(),
            )
            &&& final(state).cursor == old(state).cursor + modifiers@.len()
        },
        r matches Ok(modifiers) ==> lossless(
            modifiers_atoms(modifiers@),
            old(state).tokens@,
            old(state).cursor as int,
            final(state).cursor as int,
        ),
{
    let ghost tokens = state.tokens@;
    let ghost start = state.cursor as int;
    let mut collected: Vec<Modifier> = Vec::new();
    loop
        invariant
            state.wf(),
            state.tokens@ == tokens,
            state.attributes@ == old(state).attributes@,
            tokens == old(state).tokens@,
            start == old(state).cursor,
            state.cursor == start + collected@.len(),
            collected@ == modifiers_at(tokens, start, collected@.len()),
            forall|i: int|
                0 <= i < collected@.len() ==> modifier_of(#[trigger] kind_at(tokens, start + i))
                    is Some,
            modifiers_extent(tokens, start) == modifiers_extent_from(
                tokens,
                start,
                state.cursor as int,
            ),
        decreases tokens.len() - state.cursor,
    {
        let current = state.current();
        let found = current.kind;
        let span = current.span;
        match modifier_kind(found) {
            None => {
                proof {
                    lemma_modifiers_kept(tokens, start, collected@.len());
                }
                return Ok(collected);
            },
            Some(kind) => {
                if find_modifier(&collected, kind).is_some() {
                    return Err(ParseError::DuplicateModifier { modifier: found, span });
                }
                let visibility = kind == ModifierKind::Public || kind == ModifierKind::Protected
                    || kind == ModifierKind::Private;
                if visibility && find_visibility(&collected).is_some() {
                    return Err(ParseError::MultipleVisibilityModifiers { span });
                }
                let ghost before = collected@;
                collected.push(Modifier { kind, span });
                state.next();
                assert(collected@ =~= modifiers_at(tokens, start, collected@.len()));
            },
        }
    }
}

/// Tests the modifiers against the kind of member they stand before.
pub fn group(modifiers: Vec<Modifier>, target: Target) -> (r: ParseResult<ModifierGroup>)
    ensures
        match r {
            Ok(group) => fault(modifiers@, target) is None && group.modifiers@ == modifiers@,
            Err(e) => fault(modifiers@, target) == Some(e),
        },
{
    proof {
        lemma_fault(modifiers@, target);
    }
    let mut i: usize = 0;
    while i < modifiers.len()
        invariant
            i <= modifiers.len(),
            first_unfit_from(modifiers@, target, 0) == first_unfit_from(
                modifiers@,
                target,
                i as int,
            ),
        decreases modifiers.len() - i,
    {
        proof {
            lemma_fault(modifiers@, target);
        }
        let m = modifiers[i];
        if !target.admits_kind(m.kind) {
            return Err(ParseError::ModifierNotAllowed { modifier: keyword(m.kind), span: m.span });
        }
        i += 1;
    }
    let (reported, other) = target.excluded_pair();
    match find_modifier(&modifiers, reported) {
        Some(m) => {
            if find_modifier(&modifiers, other).is_some() {
                return Err(
                    ParseError::ConflictingModifiers {
                        modifier: keyword(reported),
                        other: keyword(other),
                        span: m.span,
                    },
                );
            }
        },
        None => {},
    }
    Ok(ModifierGroup { modifiers })
}

/// Tests the modifiers of a method.
pub fn method_group(modifiers: Vec<Modifier>) -> (r: ParseResult<ModifierGroup>)
    ensures
        match r {
            Ok(group) => fault(modifiers@, Target::Method) is None && group.modifiers@
                == modifiers@,
            Err(e) => fault(modifiers@, Target::Method) == Some(e),
        },
{
    group(modifiers, Target::Method)
}

/// Tests the modifiers of a property.
pub fn property_group(modifiers: Vec<Modifier>) -> (r: ParseResult<ModifierGroup>)
    ensures
        match r {
            Ok(group) => fault(modifiers@, Target::Property) is None && group.modifiers@
                == modifiers@,
            Err(e) => fault(modifiers@, Target::Property) == Some(e),
        },
{
    group(modifiers, Target::Property)
}

/// Tests the modifiers of a constant.
pub fn constant_group(modifiers: Vec<Modifier>) -> (r: ParseResult<ModifierGroup>)
    ensures
        match r {
            Ok(group) => fault(modifiers@, Target::Constant) is None && group.modifiers@
                == modifiers@,
            Err(e) => fault(modifiers@, Target::Constant) == Some(e),
        },
{
    group(modifiers, Target::Constant)
}

} // verus!
