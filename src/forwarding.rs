//! The per-cycle liveness and forwarding relation reported by the collector.
use vstd::prelude::*;
use std::collections::HashMap;
use std::collections::HashSet;

use crate::object::ObjectReference;

verus! {

broadcast use vstd::std_specs::hash::group_hash_axioms;

/// What the collector decided about objects during one collection cycle:
/// which objects are reachable and where moved objects now live.
///
/// Populated while tracing, consulted (never changed) during weak processing.
pub struct Liveness {
    reachable: HashSet<usize>,
    forwarded: HashMap<usize, usize>,
    targets: HashSet<usize>,
}

/// Every moved object and its new copy are reachable, and a new copy is
/// never moved again within the same cycle.
pub open spec fn relation_wf(reachable: Set<usize>, forwarded: Map<usize, usize>) -> bool {
    forall|a: usize| #[trigger] forwarded.contains_key(a) ==> {
        &&& reachable.contains(a)
        &&& reachable.contains(forwarded[a])
        &&& !forwarded.contains_key(forwarded[a])
    }
}

/// The mathematical view of a [`Liveness`].
pub ghost struct LivenessView {
    pub reachable: Set<usize>,
    pub forwarded: Map<usize, usize>,
}

impl LivenessView {
    /// Every moved object and its new copy are reachable, and a new copy is
    /// never moved again within the same cycle.
    pub open spec fn wf(self) -> bool {
        relation_wf(self.reachable, self.forwarded)
    }

    pub open spec fn is_reachable(self, h: ObjectReference) -> bool {
        self.reachable.contains(h.addr)
    }

    /// The current location of `h`: its new copy if it moved, else itself.
    pub open spec fn forward(self, h: ObjectReference) -> ObjectReference {
        if self.forwarded.contains_key(h.addr) {
            ObjectReference { addr: self.forwarded[h.addr] }
        } else {
            h
        }
    }
}

impl View for Liveness {
    type V = LivenessView;

    closed spec fn view(&self) -> LivenessView {
        LivenessView { reachable: self.reachable@, forwarded: self.forwarded@ }
    }
}

impl Liveness {
    pub closed spec fn inv(&self) -> bool {
        &&& relation_wf(self.reachable@, self.forwarded@)
        &&& forall|t: usize| #[trigger] self.targets@.contains(t) <==> exists|a: usize|
            #[trigger] self.forwarded@.contains_key(a) && self.forwarded@[a] == t
    }

    /// No object is reachable and none has moved.
    pub fn new() -> (r: Liveness)
        ensures
            r.inv(),
            r@.wf(),
            r@.reachable == Set::<usize>::empty(),
            r@.forwarded == Map::<usize, usize>::empty(),
    {
        Liveness { reachable: HashSet::new(), forwarded: HashMap::new(), targets: HashSet::new() }
    }

    /// Records that `h` was found reachable.
    pub fn mark_reachable(&mut self, h: ObjectReference)
        requires
            old(self).inv(),
        ensures
            final(self).inv(),
            final(self)@.wf(),
            final(self)@.reachable == old(self)@.reachable.insert(h.addr),
            final(self)@.forwarded == old(self)@.forwarded,
    {
        self.reachable.insert(h.addr);
    }

    /// Records that the reachable object `from` was copied to `to`.
    ///
    /// Refused (returns `false`, nothing changes) when the move would break
    /// the relation's shape: `from == to`, `from` already moved or is itself
    /// a new copy, or `to` is already known (reachable, which includes every
    /// source and target of a move): a new copy lives where no object was.
    pub fn record_forwarding(&mut self, from: ObjectReference, to: ObjectReference) -> (r: bool)
        requires
            old(self).inv(),
        ensures
            final(self).inv(),
            final(self)@.wf(),
            r == (from.addr != to.addr && from.addr != 0 && to.addr != 0
                && !old(self)@.forwarded.contains_key(from.addr)
                && !old(self)@.reachable.contains(to.addr)
                && !(exists|a: usize| #[trigger] old(self)@.forwarded.contains_key(a)
                    && old(self)@.forwarded[a] == from.addr)),
            r ==> final(self)@.forwarded == old(self)@.forwarded.insert(from.addr, to.addr),
            r ==> final(self)@.reachable == old(self)@.reachable.insert(from.addr).insert(to.addr),
            !r ==> final(self)@ == old(self)@,
    {
        if from.addr == to.addr || from.addr == 0 || to.addr == 0
            || self.forwarded.contains_key(&from.addr) || self.reachable.contains(&to.addr)
            || self.targets.contains(&from.addr)
        {
            proof {
                if self.reachable@.contains(to.addr) {
                } else if !self.forwarded@.contains_key(from.addr) && !self.targets@.contains(from.addr) {
                    assert(!(exists|a: usize| #[trigger] old(self)@.forwarded.contains_key(a)
                        && old(self)@.forwarded[a] == from.addr));
                }
            }
            return false;
        }
        self.reachable.insert(from.addr);
        self.reachable.insert(to.addr);
        self.forwarded.insert(from.addr, to.addr);
        self.targets.insert(to.addr);
        proof {
            assert forall|t: usize| #[trigger] self.targets@.contains(t) <==> exists|a: usize|
                #[trigger] self.forwarded@.contains_key(a) && self.forwarded@[a] == t by {
                if t == to.addr {
                    assert(self.forwarded@.contains_key(from.addr));
                } else if self.targets@.contains(t) {
                    assert(old(self).targets@.contains(t));
                    let a = choose|a: usize| #[trigger] old(self).forwarded@.contains_key(a)
                        && old(self).forwarded@[a] == t;
                    assert(self.forwarded@.contains_key(a) && self.forwarded@[a] == t);
                }
                if exists|a: usize| #[trigger] self.forwarded@.contains_key(a) && self.forwarded@[a] == t {
                    let a = choose|a: usize| #[trigger] self.forwarded@.contains_key(a) && self.forwarded@[a] == t;
                    if a != from.addr {
                        assert(old(self).forwarded@.contains_key(a));
                    }
                }
            }
        }
        true
    }

    /// A well-formed record has a well-formed view.
    pub proof fn lemma_view_wf(&self)
        requires
            self.inv(),
        ensures
            self@.wf(),
    {
    }

    /// Whether `h` was found reachable in this cycle.
    pub fn is_reachable(&self, h: ObjectReference) -> (r: bool)
        requires
            self.inv(),
        ensures
            r == self@.is_reachable(h),
            self@.wf(),
    {
        self.reachable.contains(&h.addr)
    }

    /// The new copy of `h` if it moved in this cycle.
    pub fn get_forwarded_object(&self, h: ObjectReference) -> (r: Option<ObjectReference>)
        requires
            self.inv(),
        ensures
            r == (if self@.forwarded.contains_key(h.addr) {
                Some(ObjectReference { addr: self@.forwarded[h.addr] })
            } else {
                None::<ObjectReference>
            }),
            self@.wf(),
    {
        match self.forwarded.get(&h.addr) {
            Some(a) => Some(ObjectReference { addr: *a }),
            None => None,
        }
    }

    /// Resolves `h` to its current location.
    pub fn forward(&self, h: ObjectReference) -> (r: ObjectReference)
        requires
            self.inv(),
        ensures
            r == self@.forward(h),
            self@.forward(r) == r,
            self@.wf(),
    {
        match self.get_forwarded_object(h) {
            Some(n) => n,
            None => h,
        }
    }
}

/// Forwarding is idempotent: a forwarded handle already denotes its final
/// location, so forwarding it again changes nothing.
pub proof fn lemma_forward_idempotent(l: LivenessView, h: ObjectReference)
    requires
        l.wf(),
    ensures
        l.forward(l.forward(h)) == l.forward(h),
{
}

/// The current location of a reachable object is reachable, and an
/// unreachable object is never moved.
pub proof fn lemma_forward_keeps_reachability(l: LivenessView, h: ObjectReference)
    requires
        l.wf(),
    ensures
        l.is_reachable(l.forward(h)) == l.is_reachable(h),
        !l.is_reachable(h) ==> l.forward(h) == h,
{
}

} // verus!
