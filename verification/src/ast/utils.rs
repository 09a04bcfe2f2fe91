//! Lists whose items are parted by commas.

use vstd::prelude::*;
use crate::ast::atom::Atom;
use crate::ast::atom::mark;
use crate::ast::expressions::Expression;
use crate::ast::identifiers::SimpleIdentifier;
use crate::ast::variables::SimpleVariable;
use crate::span::Span;
use crate::token::TokenKind;

verus! {

/// The iterator of `<[T]>::iter_mut`.
#[verifier::external_type_specification]
#[verifier::external_body]
#[verifier::reject_recursive_types(T)]
pub struct ExIterMut<'a, T: 'a>(core::slice::IterMut<'a, T>);

/// The items of a list, and the span of each comma between or behind them.
#[derive(Debug, PartialEq, Eq, Clone, Hash)]
pub struct CommaSeparated<T> {
    pub inner: Vec<T>,
    pub commas: Vec<Span>,
}

/// The atoms of the first `n` items of a list, each followed by its comma
/// where it has one: the comma behind item `i` is `commas[i]`.
pub open spec fn listed<T>(
    inner: Seq<T>,
    commas: Seq<Span>,
    item: spec_fn(T) -> Seq<Atom>,
    n: nat,
) -> Seq<Atom>
    decreases n,
{
    if n == 0 || n > inner.len() {
        Seq::empty()
    } else {
        listed(inner, commas, item, (n - 1) as nat) + item(inner[n - 1]) + (if n - 1
            < commas.len() {
            seq![mark(TokenKind::Comma, commas[n - 1])]
        } else {
            Seq::empty()
        })
    }
}

impl<T> CommaSeparated<T> {
    /// The atoms of the whole list, where `item` gives those of one item.
    pub open spec fn atoms(self, item: spec_fn(T) -> Seq<Atom>) -> Seq<Atom> {
        listed(self.inner@, self.commas@, item, self.inner@.len())
    }

    /// No comma stands behind the last item: one comma less than items, or
    /// none in an empty list.
    pub open spec fn no_trailing(self) -> bool {
        if self.inner@.len() >= 1 {
            self.commas@.len() == self.inner@.len() - 1
        } else {
            self.commas@.len() == 0
        }
    }

    /// The number of items.
    pub fn len(&self) -> (n: usize)
        ensures
            n == self.inner@.len(),
    {
        self.inner.len()
    }

    /// An iterator over the items, in their order.
    pub fn iter(&self) -> (iter: core::slice::Iter<'_, T>)
        ensures
            vstd::std_specs::slice::into_iter_elts(iter) == self.inner@,
    {
        let iter = self.inner.as_slice().iter();
        iter
    }

    /// An iterator over the items, in their order, by which they can be
    /// changed in place. Calls `Vec::iter_mut`, that is `<[T]>::iter_mut`.
    /// Not proved, and nothing is claimed: neither of what the iterator
    /// yields, nor of the list once the iterator is gone.
    #[verifier::external_body]
    pub fn iter_mut(&mut self) -> core::slice::IterMut<'_, T> {
        self.inner.iter_mut()
    }

    /// An iterator that hands the items out, in their order.
    pub fn into_iter(self) -> (iter: std::vec::IntoIter<T>)
        ensures
            iter == vstd::std_specs::vec::spec_into_iter(self.inner),
    {
        self.inner.into_iter()
    }

    /// The item at `index`.
    pub fn get(&self, index: usize) -> (r: Option<&T>)
        ensures
            index < self.inner@.len() ==> r == Some(&self.inner@[index as int]),
            index >= self.inner@.len() ==> r is None,
    {
        if index < self.inner.len() {
            Some(&self.inner[index])
        } else {
            None
        }
    }
}

/// The atoms of one expression, as a function.
pub open spec fn expression_item() -> spec_fn(Expression) -> Seq<Atom> {
    |expression: Expression| expression.atoms()
}

/// The atoms of one name, as a function.
pub open spec fn name_item() -> spec_fn(SimpleIdentifier) -> Seq<Atom> {
    |name: SimpleIdentifier| name.atoms()
}

/// The atoms of one variable, as a function.
pub open spec fn variable_item() -> spec_fn(SimpleVariable) -> Seq<Atom> {
    |variable: SimpleVariable| variable.atoms()
}

/// The atoms of a list of expressions.
pub open spec fn expressions_atoms(list: CommaSeparated<Expression>) -> Seq<Atom> {
    list.atoms(expression_item())
}

/// The atoms of a list of names.
pub open spec fn names_list_atoms(list: CommaSeparated<SimpleIdentifier>) -> Seq<Atom> {
    list.atoms(name_item())
}

/// The atoms of a list of variables.
pub open spec fn variables_atoms(list: CommaSeparated<SimpleVariable>) -> Seq<Atom> {
    list.atoms(variable_item())
}

/// Items and commas beyond the first `n` items do not enter `listed(.., n)`.
pub proof fn lemma_listed_prefix<T>(
    inner: Seq<T>,
    commas: Seq<Span>,
    longer_inner: Seq<T>,
    longer_commas: Seq<Span>,
    item: spec_fn(T) -> Seq<Atom>,
    n: nat,
)
    requires
        n <= inner.len() <= longer_inner.len(),
        commas.len() <= longer_commas.len(),
        n <= commas.len() || commas.len() == longer_commas.len(),
        forall|i: int| 0 <= i < inner.len() ==> inner[i] == longer_inner[i],
        forall|i: int| 0 <= i < commas.len() ==> commas[i] == longer_commas[i],
    ensures
        listed(inner, commas, item, n) == listed(longer_inner, longer_commas, item, n),
    decreases n,
{
    if n > 0 {
        lemma_listed_prefix(inner, commas, longer_inner, longer_commas, item, (n - 1) as nat);
    }
}

} // verus!
