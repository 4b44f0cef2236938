//! A set of object handles that keeps the order in which they were added.
use vstd::prelude::*;
use std::collections::HashSet;

use crate::object::ObjectReference;

verus! {

broadcast use {vstd::std_specs::hash::group_hash_axioms, vstd::seq_lib::group_seq_properties};

/// The items of `s` in order of first occurrence, each once.
pub open spec fn dedup(s: Seq<ObjectReference>) -> Seq<ObjectReference>
    decreases s.len(),
{
    if s.len() == 0 {
        Seq::empty()
    } else {
        let d = dedup(s.drop_last());
        if d.contains(s.last()) {
            d
        } else {
            d.push(s.last())
        }
    }
}

/// The handles of a set, in insertion order, each once; membership is
/// answered from a hash index of their addresses.
pub struct ObjectSet {
    items: Vec<ObjectReference>,
    index: HashSet<usize>,
}

impl ObjectSet {
    pub closed spec fn inv(&self) -> bool {
        &&& self.items@.no_duplicates()
        &&& forall|a: usize|
            #![trigger self.index@.contains(a)]
            #![trigger self.items@.contains(ObjectReference { addr: a })]
            self.index@.contains(a) <==> self.items@.contains(ObjectReference { addr: a })
    }

    /// The members, in insertion order.
    pub closed spec fn items_spec(&self) -> Seq<ObjectReference> {
        self.items@
    }

    /// A well-formed set holds no member twice.
    pub proof fn lemma_no_duplicates(&self)
        requires
            self.inv(),
        ensures
            self.items_spec().no_duplicates(),
    {
    }

    pub fn new() -> (r: Self)
        ensures
            r.inv(),
            r.items_spec() == Seq::<ObjectReference>::empty(),
    {
        ObjectSet { items: Vec::new(), index: HashSet::new() }
    }

    pub fn contains(&self, o: ObjectReference) -> (r: bool)
        requires
            self.inv(),
        ensures
            r == self.items_spec().contains(o),
    {
        self.index.contains(&o.addr)
    }

    /// Adds `o` at the end unless it is a member already; returns whether it was added.
    pub fn insert(&mut self, o: ObjectReference) -> (r: bool)
        requires
            old(self).inv(),
        ensures
            final(self).inv(),
            r == !old(self).items_spec().contains(o),
            final(self).items_spec() == (if r {
                old(self).items_spec().push(o)
            } else {
                old(self).items_spec()
            }),
    {
        if self.index.contains(&o.addr) {
            return false;
        }
        let ghost before = self.items@;
        self.items.push(o);
        self.index.insert(o.addr);
        proof {
            assert forall|a: usize|
                #![trigger self.index@.contains(a)]
                #![trigger self.items@.contains(ObjectReference { addr: a })]
                self.index@.contains(a) <==> self.items@.contains(ObjectReference { addr: a }) by {
                if self.items@.contains(ObjectReference { addr: a }) {
                    let i = choose|i: int| 0 <= i < self.items@.len() && self.items@[i] == ObjectReference { addr: a };
                    if i < before.len() {
                        assert(before[i] == ObjectReference { addr: a });
                        assert(before.contains(ObjectReference { addr: a }));
                    }
                }
                if a != o.addr && self.index@.contains(a) {
                    assert(old(self).index@.contains(a));
                    let i = choose|i: int| 0 <= i < before.len() && before[i] == ObjectReference { addr: a };
                    assert(self.items@[i] == ObjectReference { addr: a });
                }
                if a == o.addr {
                    assert(self.items@[before.len() as int] == o);
                }
            }
            assert forall|i: int, j: int| 0 <= i < j < self.items@.len() implies self.items@[i] != self.items@[j] by {
                if j == before.len() {
                    assert(self.items@[i] == before[i]);
                    assert(before.contains(before[i]));
                }
            }
        }
        true
    }

    /// The members, in insertion order.
    pub fn as_slice(&self) -> (r: &[ObjectReference])
        ensures
            r@ == self.items_spec(),
    {
        self.items.as_slice()
    }

    /// The members, in insertion order, as a vector.
    pub fn into_vec(self) -> (r: Vec<ObjectReference>)
        ensures
            r@ == self.items_spec(),
    {
        self.items
    }

    /// The set of the distinct items of `v`, in order of first occurrence.
    pub fn from_vec(v: &Vec<ObjectReference>) -> (r: Self)
        ensures
            r.inv(),
            r.items_spec() == dedup(v@),
    {
        let mut s = ObjectSet::new();
        let mut i: usize = 0;
        while i < v.len()
            invariant
                i <= v@.len(),
                s.inv(),
                s.items_spec() == dedup(v@.subrange(0, i as int)),
            decreases v@.len() - i,
        {
            proof {
                assert(v@.subrange(0, i + 1).drop_last() =~= v@.subrange(0, i as int));
            }
            s.insert(v[i]);
            i = i + 1;
        }
        proof {
            assert(v@.subrange(0, v@.len() as int) =~= v@);
        }
        s
    }
}

} // verus!
