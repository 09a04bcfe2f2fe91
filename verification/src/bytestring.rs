//! Owned byte strings: source text is not guaranteed to be UTF-8.

use vstd::prelude::*;

verus! {

/// The raw bytes of a lexeme, carried verbatim.
#[derive(Debug, PartialEq, Eq, Hash)]
pub struct ByteString {
    pub bytes: Vec<u8>,
}

impl View for ByteString {
    type V = Seq<u8>;

    open spec fn view(&self) -> Seq<u8> {
        self.bytes@
    }
}

impl Clone for ByteString {
    fn clone(&self) -> (r: ByteString)
        ensures
            r@ == self@,
    {
        let mut bytes: Vec<u8> = Vec::new();
        let mut i: usize = 0;
        while i < self.bytes.len()
            invariant
                i <= self.bytes.len(),
                bytes@ == self.bytes@.subrange(0, i as int),
            decreases self.bytes.len() - i,
        {
            bytes.push(self.bytes[i]);
            assert(bytes@ =~= self.bytes@.subrange(0, i + 1));
            i += 1;
        }
        assert(bytes@ =~= self.bytes@);
        ByteString { bytes }
    }
}

impl ByteString {
    pub fn new(bytes: Vec<u8>) -> (r: ByteString)
        ensures
            r@ == bytes@,
    {
        ByteString { bytes }
    }

    pub fn len(&self) -> (n: usize)
        ensures
            n == self@.len(),
    {
        self.bytes.len()
    }

    /// Whether the bytes are exactly those of `other`.
    pub fn equals(&self, other: &ByteString) -> (r: bool)
        ensures
            r == (self@ == other@),
    {
        if self.bytes.len() != other.bytes.len() {
            return false;
        }
        let mut i: usize = 0;
        while i < self.bytes.len()
            invariant
                i <= self.bytes.len(),
                self.bytes.len() == other.bytes.len(),
                self@.subrange(0, i as int) == other@.subrange(0, i as int),
            decreases self.bytes.len() - i,
        {
            if self.bytes[i] != other.bytes[i] {
                return false;
            }
            assert(self@.subrange(0, i + 1) =~= self@.subrange(0, i as int).push(self@[i as int]));
            assert(other@.subrange(0, i + 1) =~= other@.subrange(0, i as int).push(
                other@[i as int],
            ));
            i += 1;
        }
        assert(self@ =~= self@.subrange(0, i as int));
        assert(other@ =~= other@.subrange(0, i as int));
        true
    }
}

} // verus!
