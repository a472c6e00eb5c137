//! A model of the host application's string object: a length, a capacity and
//! either a small inline buffer (for short content) or heap storage. The view
//! of a value is the byte sequence it holds; the representation tag and the
//! well-formedness predicate capture the layout invariants that the real
//! object must keep.

use vstd::prelude::*;

verus! {

/// Largest byte count the inline representation can hold.
pub const INLINE_CAPACITY: usize = 15;

/// Where a foreign string keeps its bytes.
#[derive(Clone, Copy, PartialEq, Eq, Structural, Debug)]
pub enum Representation {
    /// Content lives in the small buffer inside the object itself.
    Inline,
    /// Content lives in separately allocated storage.
    Heap,
}

/// A standalone foreign string value owned by this library, laid out as the
/// host expects: short content inline, longer content on the heap.
pub struct ForeignString {
    repr: Representation,
    bytes: Vec<u8>,
    capacity: usize,
}

impl View for ForeignString {
    type V = Seq<u8>;

    closed spec fn view(&self) -> Seq<u8> {
        self.bytes@
    }
}

impl ForeignString {
    /// The representation tag of this value.
    pub closed spec fn representation(&self) -> Representation {
        self.repr
    }

    /// The capacity of the backing storage, in bytes.
    pub closed spec fn spec_capacity(&self) -> nat {
        self.capacity as nat
    }

    /// Layout invariants: the length never exceeds the capacity, and an
    /// inline value never holds more than the fixed small buffer can take.
    pub closed spec fn wf(&self) -> bool {
        &&& self.bytes@.len() <= self.capacity
        &&& (self.repr == Representation::Inline ==> self.capacity == INLINE_CAPACITY)
    }

    /// Builds a standalone foreign string from `bytes`: content shorter than
    /// 16 bytes is stored inline, anything longer goes to heap storage.
    pub fn build_new(bytes: &Vec<u8>) -> (r: ForeignString)
        ensures
            r.wf(),
            r@ == bytes@,
            bytes@.len() < 16 ==> r.representation() == Representation::Inline,
            bytes@.len() >= 16 ==> r.representation() == Representation::Heap,
    {
        let content = crate::bytes::copy_bytes(bytes);
        if content.len() < 16 {
            ForeignString { repr: Representation::Inline, bytes: content, capacity: INLINE_CAPACITY }
        } else {
            let capacity = content.len();
            ForeignString { repr: Representation::Heap, bytes: content, capacity }
        }
    }

    /// The representation tag, readable at run time.
    pub fn read_representation(&self) -> (r: Representation)
        ensures
            r == self.representation(),
    {
        self.repr
    }

    /// The bytes the value holds, without any terminator.
    pub fn read_bytes(&self) -> (r: Vec<u8>)
        ensures
            r@ == self@,
    {
        crate::bytes::copy_bytes(&self.bytes)
    }

    /// The number of content bytes.
    pub fn size(&self) -> (n: usize)
        ensures
            n == self@.len(),
    {
        self.bytes.len()
    }

    /// The byte at position `index`.
    pub fn byte_at(&self, index: usize) -> (b: u8)
        requires
            index < self@.len(),
        ensures
            b == self@[index as int],
    {
        self.bytes[index]
    }

    /// Bounds-checked random-access write into the content.
    pub fn mutate_in_place(&mut self, index: usize, b: u8)
        requires
            old(self).wf(),
            index < old(self)@.len(),
        ensures
            final(self).wf(),
            final(self)@ == old(self)@.update(index as int, b),
            final(self).representation() == old(self).representation(),
            final(self).spec_capacity() == old(self).spec_capacity(),
    {
        self.bytes.set(index, b);
    }

    /// Appends one byte; an inline value whose small buffer is full moves to
    /// the heap representation first, as the host's string object would.
    pub fn push_back(&mut self, b: u8)
        requires
            old(self).wf(),
            old(self)@.len() < usize::MAX,
        ensures
            final(self).wf(),
            final(self)@ == old(self)@.push(b),
            final(self).representation() == (if old(self).representation()
                == Representation::Inline && old(self)@.len() >= INLINE_CAPACITY {
                Representation::Heap
            } else {
                old(self).representation()
            }),
    {
        if self.bytes.len() >= self.capacity {
            self.repr = Representation::Heap;
            self.capacity = self.bytes.len() + 1;
        }
        self.bytes.push(b);
    }
}

} // verus!
