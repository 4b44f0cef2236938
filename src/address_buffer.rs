//! Buffers through which the runtime hands over many addresses at a time.
use vstd::prelude::*;

use crate::object::ObjectReference;

verus! {

/// A buffer the runtime fills with addresses.
pub struct AddressBuffer {
    buffer: Vec<usize>,
}

/// A buffer taken out of an [`AddressBuffer`] once filled.
pub struct FilledBuffer {
    buffer: Vec<usize>,
}

/// The addresses of `s` as object handles.
pub open spec fn as_objrefs(s: Seq<usize>) -> Seq<ObjectReference> {
    s.map_values(|a: usize| ObjectReference { addr: a })
}

impl AddressBuffer {
    /// The capacity a new buffer is created with.
    pub const DEFAULT_CAPACITY: usize = 512;

    pub closed spec fn contents(&self) -> Seq<usize> {
        self.buffer@
    }

    pub fn create() -> (r: Self)
        ensures
            r.contents() == Seq::<usize>::empty(),
    {
        AddressBuffer { buffer: Vec::with_capacity(Self::DEFAULT_CAPACITY) }
    }

    pub fn push(&mut self, addr: usize)
        ensures
            final(self).contents() == old(self).contents().push(addr),
    {
        self.buffer.push(addr);
    }

    pub fn is_empty(&self) -> (r: bool)
        ensures
            r == (self.contents().len() == 0),
    {
        self.buffer.len() == 0
    }

    /// Takes the filled contents out and leaves a fresh empty buffer.
    pub fn take_as_filled_buffer(&mut self) -> (r: FilledBuffer)
        ensures
            r.contents() == old(self).contents(),
            final(self).contents() == Seq::<usize>::empty(),
    {
        let mut taken: Vec<usize> = Vec::with_capacity(Self::DEFAULT_CAPACITY);
        std::mem::swap(&mut self.buffer, &mut taken);
        FilledBuffer { buffer: taken }
    }
}

impl FilledBuffer {
    pub closed spec fn contents(&self) -> Seq<usize> {
        self.buffer@
    }

    pub fn as_address_vec(self) -> (r: Vec<usize>)
        ensures
            r@ == self.contents(),
    {
        self.buffer
    }

    pub fn as_objref_vec(self) -> (r: Vec<ObjectReference>)
        ensures
            r@ == as_objrefs(self.contents()),
    {
        let mut r: Vec<ObjectReference> = Vec::new();
        let mut i: usize = 0;
        while i < self.buffer.len()
            invariant
                i <= self.buffer@.len(),
                r@ == as_objrefs(self.buffer@.subrange(0, i as int)),
            decreases self.buffer@.len() - i,
        {
            r.push(ObjectReference { addr: self.buffer[i] });
            proof {
                assert(as_objrefs(self.buffer@.subrange(0, i + 1)) =~= as_objrefs(self.buffer@.subrange(0, i as int)).push(
                    ObjectReference { addr: self.buffer@[i as int] },
                ));
            }
            i = i + 1;
        }
        proof {
            assert(self.buffer@.subrange(0, self.buffer@.len() as int) =~= self.buffer@);
        }
        r
    }
}

} // verus!
