//! The registry of PPPs (possibly-pinning parents): objects that native code
//! may hold raw pointers into, so that their children must not move.
use vstd::prelude::*;

use crate::forwarding::{Liveness, LivenessView};
use crate::object::{contains_handle, ObjectReference};
use crate::forwarding::lemma_forward_keeps_reachability;
use crate::utils::{flatten_vecs, kept, lemma_kept_from_outs, ChunkedVecCollector, GenList};

verus! {

/// The number of PPPs whose children one pinning work packet visits.
pub const PIN_PPP_CHILDREN_PACKET_SIZE: usize = 512;

/// What becomes of the PPP `x` at the end of a cycle: dropped when it died
/// or the runtime says it no longer is a PPP, else kept at its new location.
pub open spec fn ppp_survivor(l: LivenessView, no_longer_ppp: Seq<ObjectReference>, x: ObjectReference) -> Option<ObjectReference> {
    if !l.is_reachable(x) {
        None
    } else if no_longer_ppp.contains(l.forward(x)) {
        None
    } else {
        Some(l.forward(x))
    }
}

/// The PPPs of `s` that survive the cycle, at their new locations, in order.
pub open spec fn sweep_ppps(l: LivenessView, no_longer_ppp: Seq<ObjectReference>, s: Seq<ObjectReference>) -> Seq<ObjectReference> {
    kept(s.map_values(|x: ObjectReference| ppp_survivor(l, no_longer_ppp, x)))
}

/// The successfully pinned children among `children`, in order.
pub open spec fn successful_pins(children: Seq<ObjectReference>, pinned: Seq<bool>) -> Seq<ObjectReference>
    decreases children.len(),
{
    if children.len() == 0 || pinned.len() == 0 {
        Seq::empty()
    } else {
        let init = successful_pins(children.drop_last(), pinned.drop_last());
        if pinned.last() {
            init.push(children.last())
        } else {
            init
        }
    }
}

/// The objects that must be unpinned at the end of a cycle, in order.
pub open spec fn unpins_at_cleanup(pinned: Seq<ObjectReference>, may_move: bool) -> Seq<ObjectReference> {
    if may_move {
        pinned
    } else {
        Seq::empty()
    }
}

pub struct PPPRegistry {
    ppps: GenList<ObjectReference>,
    pinned_ppp_children: Vec<ObjectReference>,
}

impl PPPRegistry {
    /// Registered PPPs not yet promoted.
    pub closed spec fn young_spec(&self) -> Seq<ObjectReference> {
        self.ppps.young_spec()
    }

    /// Registered PPPs that survived at least one cycle.
    pub closed spec fn old_spec(&self) -> Seq<ObjectReference> {
        self.ppps.old_spec()
    }

    /// The children pinned in the current cycle, to be unpinned at its end.
    pub closed spec fn pinned_spec(&self) -> Seq<ObjectReference> {
        self.pinned_ppp_children@
    }

    pub fn new() -> (r: Self)
        ensures
            r.young_spec() == Seq::<ObjectReference>::empty(),
            r.old_spec() == Seq::<ObjectReference>::empty(),
            r.pinned_spec() == Seq::<ObjectReference>::empty(),
    {
        PPPRegistry { ppps: GenList::new(), pinned_ppp_children: Vec::new() }
    }

    pub fn young(&self) -> (r: &[ObjectReference])
        ensures
            r@ == self.young_spec(),
    {
        self.ppps.young()
    }

    pub fn old_generation(&self) -> (r: &[ObjectReference])
        ensures
            r@ == self.old_spec(),
    {
        self.ppps.old_generation()
    }

    pub fn pinned_children(&self) -> (r: &[ObjectReference])
        ensures
            r@ == self.pinned_spec(),
    {
        self.pinned_ppp_children.as_slice()
    }

    pub fn register(&mut self, object: ObjectReference)
        ensures
            final(self).young_spec() == old(self).young_spec().push(object),
            final(self).old_spec() == old(self).old_spec(),
            final(self).pinned_spec() == old(self).pinned_spec(),
    {
        self.ppps.push(object);
    }

    pub fn register_many(&mut self, objects: &[ObjectReference])
        ensures
            final(self).young_spec() == old(self).young_spec() + objects@,
            final(self).old_spec() == old(self).old_spec(),
            final(self).pinned_spec() == old(self).pinned_spec(),
    {
        let mut i: usize = 0;
        while i < objects.len()
            invariant
                i <= objects@.len(),
                self.young_spec() == old(self).young_spec() + objects@.subrange(0, i as int),
                self.old_spec() == old(self).old_spec(),
                self.pinned_spec() == old(self).pinned_spec(),
            decreases objects@.len() - i,
        {
            self.ppps.push(objects[i]);
            proof {
                assert(objects@.subrange(0, i + 1) =~= objects@.subrange(0, i as int).push(objects@[i as int]));
            }
            i = i + 1;
        }
        proof {
            assert(objects@.subrange(0, objects@.len() as int) =~= objects@);
        }
    }

    /// The PPPs whose children must be pinned in this cycle, split into work
    /// packets of at most `PIN_PPP_CHILDREN_PACKET_SIZE` PPPs: the young
    /// generation, and on a full collection the old one before it. Nothing
    /// when the collection does not move objects.
    pub fn pin_ppp_children(&self, may_move: bool, is_nursery: bool) -> (r: Vec<Vec<ObjectReference>>)
        ensures
            flatten_vecs(r@) == (if !may_move {
                Seq::<ObjectReference>::empty()
            } else if is_nursery {
                self.young_spec()
            } else {
                self.old_spec() + self.young_spec()
            }),
            forall|i: int| 0 <= i < r@.len() ==> 0 < (#[trigger] r@[i])@.len() <= PIN_PPP_CHILDREN_PACKET_SIZE,
            forall|i: int| 0 <= i < r@.len() - 1 ==> (#[trigger] r@[i])@.len() == PIN_PPP_CHILDREN_PACKET_SIZE,
    {
        let mut collector: ChunkedVecCollector<ObjectReference> = ChunkedVecCollector::new(PIN_PPP_CHILDREN_PACKET_SIZE);
        if may_move {
            if !is_nursery {
                let old_gen = self.ppps.old_generation();
                let mut i: usize = 0;
                while i < old_gen.len()
                    invariant
                        collector.inv(),
                        collector.chunk_size_spec() == PIN_PPP_CHILDREN_PACKET_SIZE,
                        old_gen@ == self.old_spec(),
                        i <= old_gen@.len(),
                        collector.items() == old_gen@.subrange(0, i as int),
                    decreases old_gen@.len() - i,
                {
                    collector.add(old_gen[i]);
                    proof {
                        assert(old_gen@.subrange(0, i + 1) =~= old_gen@.subrange(0, i as int).push(old_gen@[i as int]));
                    }
                    i = i + 1;
                }
                proof {
                    assert(old_gen@.subrange(0, old_gen@.len() as int) =~= old_gen@);
                }
            }
            let ghost before = collector.items();
            let young = self.ppps.young();
            let mut i: usize = 0;
            while i < young.len()
                invariant
                    collector.inv(),
                    collector.chunk_size_spec() == PIN_PPP_CHILDREN_PACKET_SIZE,
                    young@ == self.young_spec(),
                    i <= young@.len(),
                    collector.items() == before + young@.subrange(0, i as int),
                decreases young@.len() - i,
            {
                collector.add(young[i]);
                proof {
                    assert(young@.subrange(0, i + 1) =~= young@.subrange(0, i as int).push(young@[i as int]));
                }
                i = i + 1;
            }
            proof {
                assert(young@.subrange(0, young@.len() as int) =~= young@);
                if is_nursery {
                    assert(before + young@ =~= young@);
                }
            }
        }
        collector.into_vecs()
    }

    /// Records the outcome of pinning `children`: `pinned[i]` tells whether
    /// `children[i]` was pinned. The pinned ones join the cycle's pinned set.
    pub fn record_pinned_children(&mut self, children: &Vec<ObjectReference>, pinned: &Vec<bool>)
        requires
            children@.len() == pinned@.len(),
        ensures
            final(self).pinned_spec() == old(self).pinned_spec() + successful_pins(children@, pinned@),
            final(self).young_spec() == old(self).young_spec(),
            final(self).old_spec() == old(self).old_spec(),
    {
        let mut i: usize = 0;
        while i < children.len()
            invariant
                i <= children@.len(),
                children@.len() == pinned@.len(),
                self.pinned_spec() == old(self).pinned_spec()
                    + successful_pins(children@.subrange(0, i as int), pinned@.subrange(0, i as int)),
                self.young_spec() == old(self).young_spec(),
                self.old_spec() == old(self).old_spec(),
            decreases children@.len() - i,
        {
            proof {
                let c = children@.subrange(0, i + 1);
                let p = pinned@.subrange(0, i + 1);
                assert(c.drop_last() =~= children@.subrange(0, i as int));
                assert(p.drop_last() =~= pinned@.subrange(0, i as int));
            }
            if pinned[i] {
                self.pinned_ppp_children.push(children[i]);
            }
            i = i + 1;
        }
        proof {
            assert(children@.subrange(0, children@.len() as int) =~= children@);
            assert(pinned@.subrange(0, pinned@.len() as int) =~= pinned@);
        }
    }

    /// Ends the cycle for the registry. Drops every swept PPP that died or that
    /// the runtime lists in `no_longer_ppp` (by its new location), moves the
    /// others to their new location, and promotes the young generation. A
    /// nursery collection sweeps the young generation only.
    ///
    /// Returns the children to unpin: every pinned child, exactly once, when the
    /// collection may move objects; nothing otherwise. A non-moving collection
    /// pins nothing, so its pinned set must be empty. The pinned set ends empty.
    pub fn cleanup_ppps(
        &mut self,
        liveness: &Liveness,
        no_longer_ppp: &Vec<ObjectReference>,
        may_move: bool,
        is_nursery: bool,
    ) -> (r: Vec<ObjectReference>)
        requires
            liveness.inv(),
            !may_move ==> old(self).pinned_spec().len() == 0,
        ensures
            final(self).young_spec() == Seq::<ObjectReference>::empty(),
            final(self).old_spec() == (if is_nursery {
                old(self).old_spec()
            } else {
                sweep_ppps(liveness@, no_longer_ppp@, old(self).old_spec())
            }) + sweep_ppps(liveness@, no_longer_ppp@, old(self).young_spec()),
            r@ == unpins_at_cleanup(old(self).pinned_spec(), may_move),
            final(self).pinned_spec() == Seq::<ObjectReference>::empty(),
    {
        let survivor = |x: &ObjectReference| -> (r: Option<ObjectReference>)
            requires
                liveness.inv(),
            ensures
                r == ppp_survivor(liveness@, no_longer_ppp@, *x),
        {
            if !liveness.is_reachable(*x) {
                None
            } else {
                let new_obj = liveness.forward(*x);
                if contains_handle(no_longer_ppp, new_obj) {
                    None
                } else {
                    Some(new_obj)
                }
            }
        };
        let ghost young0 = self.ppps.young_spec();
        let ghost old0 = self.ppps.old_spec();
        self.ppps.retain_mut_young(survivor);
        proof {
            let outs = choose|outs: Seq<Option<ObjectReference>>| {
                &&& outs.len() == young0.len()
                &&& forall|i: int| 0 <= i < outs.len()
                    ==> call_ensures(survivor, (&young0[i],), #[trigger] outs[i])
                &&& self.ppps.young_spec() == kept(outs)
            };
            assert(outs =~= young0.map_values(|x: ObjectReference| ppp_survivor(liveness@, no_longer_ppp@, x)));
        }
        if !is_nursery {
            self.ppps.retain_mut_old(survivor);
            proof {
                let outs = choose|outs: Seq<Option<ObjectReference>>| {
                    &&& outs.len() == old0.len()
                    &&& forall|i: int| 0 <= i < outs.len()
                        ==> call_ensures(survivor, (&old0[i],), #[trigger] outs[i])
                    &&& self.ppps.old_spec() == kept(outs)
                };
                assert(outs =~= old0.map_values(|x: ObjectReference| ppp_survivor(liveness@, no_longer_ppp@, x)));
            }
        }
        self.ppps.promote();
        let mut to_unpin: Vec<ObjectReference> = Vec::new();
        if may_move {
            std::mem::swap(&mut self.pinned_ppp_children, &mut to_unpin);
        }
        proof {
            if !may_move {
                assert(self.pinned_ppp_children@ =~= Seq::<ObjectReference>::empty());
            }
        }
        to_unpin
    }
}

impl Default for PPPRegistry {
    fn default() -> (r: Self)
        ensures
            r.young_spec() == Seq::<ObjectReference>::empty(),
            r.old_spec() == Seq::<ObjectReference>::empty(),
            r.pinned_spec() == Seq::<ObjectReference>::empty(),
    {
        Self::new()
    }
}

/// A PPP found dead is removed by the sweep: every PPP that survives it is
/// reachable, so no unreachable object remains.
pub proof fn lemma_dead_ppp_removed(
    l: LivenessView,
    no_longer_ppp: Seq<ObjectReference>,
    s: Seq<ObjectReference>,
    x: ObjectReference,
)
    requires
        l.wf(),
        !l.is_reachable(x),
    ensures
        !sweep_ppps(l, no_longer_ppp, s).contains(x),
{
    let outs = s.map_values(|y: ObjectReference| ppp_survivor(l, no_longer_ppp, y));
    if sweep_ppps(l, no_longer_ppp, s).contains(x) {
        lemma_kept_from_outs(outs, x);
        let i = choose|i: int| 0 <= i < outs.len() && #[trigger] outs[i] == Some(x);
        lemma_forward_keeps_reachability(l, s[i]);
        assert(ppp_survivor(l, no_longer_ppp, s[i]) == Some(x));
    }
}

/// The number of successful pin attempts among `pinned`.
pub open spec fn count_pins(pinned: Seq<bool>) -> nat
    decreases pinned.len(),
{
    if pinned.len() == 0 {
        0
    } else {
        count_pins(pinned.drop_last()) + if pinned.last() { 1nat } else { 0nat }
    }
}

proof fn lemma_successful_pins_len(children: Seq<ObjectReference>, pinned: Seq<bool>)
    requires
        children.len() == pinned.len(),
    ensures
        successful_pins(children, pinned).len() == count_pins(pinned),
    decreases children.len(),
{
    if children.len() > 0 {
        lemma_successful_pins_len(children.drop_last(), pinned.drop_last());
    }
}

/// Pins and unpins balance. A cycle starts with no pinned child; its pinning
/// packets record their attempts (`pinned[i]` for `children[i]`). On a moving
/// collection the cleanup unpins exactly the children recorded, one unpin per
/// successful pin. On a non-moving one no packet is made, so nothing is
/// recorded, and the cleanup unpins nothing.
pub proof fn lemma_pin_unpin_balance(children: Seq<ObjectReference>, pinned: Seq<bool>, may_move: bool)
    requires
        children.len() == pinned.len(),
    ensures
        may_move ==> unpins_at_cleanup(Seq::<ObjectReference>::empty() + successful_pins(children, pinned), may_move)
            == successful_pins(children, pinned),
        may_move ==> unpins_at_cleanup(Seq::<ObjectReference>::empty() + successful_pins(children, pinned), may_move).len()
            == count_pins(pinned),
        !may_move ==> unpins_at_cleanup(Seq::<ObjectReference>::empty() + successful_pins(
            Seq::<ObjectReference>::empty(),
            Seq::<bool>::empty(),
        ), may_move).len() == 0,
{
    assert(Seq::<ObjectReference>::empty() + successful_pins(children, pinned) =~= successful_pins(children, pinned));
    lemma_successful_pins_len(children, pinned);
}

} // verus!
