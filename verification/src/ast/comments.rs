//! Comments, which travel with the statement that follows them.

use vstd::prelude::*;
use crate::bytestring::ByteString;
use crate::span::Span;

verus! {

/// The four ways a comment is written.
#[derive(Debug, PartialEq, Eq, Clone, Copy, Hash, Structural)]
pub enum CommentFormat {
    SingleLine,  // `// ...`
    MultiLine,  // `/* ... */`
    HashMark,  // `# ...`
    Document,  // `/** ... */`
}

/// One comment: where it stands, how it is written, and its text with the
/// marks that open and close it.
#[derive(Debug, PartialEq, Eq, Clone, Hash)]
pub struct Comment {
    pub span: Span,
    pub format: CommentFormat,
    pub content: ByteString,
}

/// The comments before one node, in the order of the source.
#[derive(Debug, PartialEq, Eq, Clone, Hash)]
pub struct CommentGroup {
    pub comments: Vec<Comment>,
}

impl CommentGroup {
    /// The number of comments.
    pub fn len(&self) -> (n: usize)
        ensures
            n == self.comments@.len(),
    {
        self.comments.len()
    }

    /// The comment at `index`.
    pub fn get(&self, index: usize) -> (r: Option<&Comment>)
        ensures
            index < self.comments@.len() ==> r == Some(&self.comments@[index as int]),
            index >= self.comments@.len() ==> r is None,
    {
        if index < self.comments.len() {
            Some(&self.comments[index])
        } else {
            None
        }
    }

    /// An iterator that hands the comments out, in their order.
    pub fn into_iter(self) -> (iter: std::vec::IntoIter<Comment>)
        ensures
            iter == vstd::std_specs::vec::spec_into_iter(self.comments),
    {
        self.comments.into_iter()
    }

    /// An iterator over the comments, in their order.
    pub fn iter(&self) -> (iter: core::slice::Iter<'_, Comment>)
        ensures
            vstd::std_specs::slice::into_iter_elts(iter) == self.comments@,
    {
        let iter = self.comments.as_slice().iter();
        iter
    }
}

} // verus!
