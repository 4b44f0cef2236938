//! The weak processor: once per collection, after tracing, it resolves the
//! liveness and new location of every weakly held reference.
use vstd::prelude::*;

use crate::forwarding::{lemma_forward_keeps_reachability, Liveness, LivenessView};
use crate::object::{ObjectReference, VALUE, QUNDEF};
use crate::object_set::{dedup, ObjectSet};
use crate::utils::{kept, lemma_kept_from_outs};

pub mod concurrent_set_parallel;
pub mod st_table_parallel;

verus! {

/// The two open-addressed weak sets of the runtime.
#[derive(Clone, Copy, Debug, PartialEq, Eq, Structural)]
pub enum WeakConcurrentSetKind {
    FString,
    GlobalSymbols,
}

impl WeakConcurrentSetKind {
    /// The code the runtime uses for this kind.
    pub fn as_u8(&self) -> (r: u8)
        ensures
            r == (match self {
                WeakConcurrentSetKind::FString => 0u8,
                WeakConcurrentSetKind::GlobalSymbols => 1u8,
            }),
    {
        match self {
            WeakConcurrentSetKind::FString => 0,
            WeakConcurrentSetKind::GlobalSymbols => 1,
        }
    }
}

/// The global weak tables that are swept whole by one work packet each.
#[derive(Clone, Copy, Debug, PartialEq, Eq, Structural)]
pub enum WeakTable {
    CiTable,
    OverloadedCmeTable,
    FinalizerAndObjIdTables,
    GenericFieldsTable,
    CCRefinementTable,
}

/// One unit of weak-processing work.
#[derive(Clone, Copy, Debug, PartialEq, Eq, Structural)]
pub enum WeakWork {
    /// Call `obj_free` on dead candidates and forward the live ones.
    ProcessObjFreeCandidates,
    /// Sweep one global weak table.
    UpdateTable(WeakTable),
    /// Forward or drop the write-barrier-unprotected objects.
    UpdateWbUnprotectedObjectsList,
    /// Clear or forward the discovered weak fields.
    UpdateWeakFields,
    /// Sweep one open-addressed weak set in chunks: ask the runtime for the
    /// set and its capacity, then plan with `process_weak_concurrent_set_chunked`.
    UpdateConcurrentSet(WeakConcurrentSetKind),
}

/// The work scheduled by `process_weak_stuff`: the `obj_free` sweep, the
/// weak tables in the runtime's canonical order, the write-barrier-unprotected
/// list, the weak fields, and the chunked sweeps of the two weak sets.
pub open spec fn weak_work_schedule() -> Seq<WeakWork> {
    seq![
        WeakWork::ProcessObjFreeCandidates,
        WeakWork::UpdateTable(WeakTable::CiTable),
        WeakWork::UpdateTable(WeakTable::OverloadedCmeTable),
        WeakWork::UpdateTable(WeakTable::FinalizerAndObjIdTables),
        WeakWork::UpdateTable(WeakTable::GenericFieldsTable),
        WeakWork::UpdateTable(WeakTable::CCRefinementTable),
        WeakWork::UpdateWbUnprotectedObjectsList,
        WeakWork::UpdateWeakFields,
        WeakWork::UpdateConcurrentSet(WeakConcurrentSetKind::FString),
        WeakWork::UpdateConcurrentSet(WeakConcurrentSetKind::GlobalSymbols),
    ]
}

/// What becomes of a candidate: forwarded and kept when reachable, else dropped.
pub open spec fn survivor(l: LivenessView, x: ObjectReference) -> Option<ObjectReference> {
    if l.is_reachable(x) {
        Some(l.forward(x))
    } else {
        None
    }
}

/// The reachable objects of `s`, forwarded, in order.
pub open spec fn forward_survivors(l: LivenessView, s: Seq<ObjectReference>) -> Seq<ObjectReference> {
    kept(s.map_values(|x: ObjectReference| survivor(l, x)))
}

/// The unreachable objects of `s`, in order.
pub open spec fn dead_objects(l: LivenessView, s: Seq<ObjectReference>) -> Seq<ObjectReference> {
    kept(s.map_values(|x: ObjectReference| if l.is_reachable(x) { None } else { Some(x) }))
}

/// Splits `objects` into the dead ones and the forwarded live ones.
pub fn partition_by_liveness(objects: &Vec<ObjectReference>, liveness: &Liveness) -> (r: (
    Vec<ObjectReference>,
    Vec<ObjectReference>,
))
    requires
        liveness.inv(),
    ensures
        r.0@ == dead_objects(liveness@, objects@),
        r.1@ == forward_survivors(liveness@, objects@),
{
    let mut dead: Vec<ObjectReference> = Vec::new();
    let mut live: Vec<ObjectReference> = Vec::new();
    let mut i: usize = 0;
    while i < objects.len()
        invariant
            liveness.inv(),
            i <= objects@.len(),
            dead@ == dead_objects(liveness@, objects@.subrange(0, i as int)),
            live@ == forward_survivors(liveness@, objects@.subrange(0, i as int)),
        decreases objects@.len() - i,
    {
        let object = objects[i];
        proof {
            let s = objects@.subrange(0, i + 1);
            assert(s.drop_last() =~= objects@.subrange(0, i as int));
            assert(s.map_values(|x: ObjectReference| survivor(liveness@, x)).drop_last()
                =~= s.drop_last().map_values(|x: ObjectReference| survivor(liveness@, x)));
            assert(s.map_values(|x: ObjectReference| if liveness@.is_reachable(x) { None } else { Some(x) }).drop_last()
                =~= s.drop_last().map_values(|x: ObjectReference| if liveness@.is_reachable(x) { None } else { Some(x) }));
        }
        if liveness.is_reachable(object) {
            live.push(liveness.forward(object));
        } else {
            dead.push(object);
        }
        i = i + 1;
    }
    proof {
        assert(objects@.subrange(0, objects@.len() as int) =~= objects@);
    }
    (dead, live)
}

/// What to do with one weak field, given the value it holds.
#[derive(Clone, Copy, Debug, PartialEq, Eq, Structural)]
pub enum WeakFieldUpdate {
    /// An immediate value, or a reference to an object that did not move: leave it.
    Unchanged,
    /// The referent died: overwrite the field with the "undefined" value.
    Clear(VALUE),
    /// The referent moved: overwrite the field with its new location.
    Forward(VALUE),
    /// The value is not a valid heap object: the heap is corrupt.
    Invalid,
}

/// The update of a weak field that holds `v`; `is_heap_object` tells whether
/// the collector recognises `v` as the address of an object.
pub open spec fn weak_field_update_spec(l: LivenessView, v: VALUE, is_heap_object: bool) -> WeakFieldUpdate {
    if v.is_special_const_spec() {
        WeakFieldUpdate::Unchanged
    } else if !is_heap_object {
        WeakFieldUpdate::Invalid
    } else if !l.is_reachable(ObjectReference { addr: v.0 }) {
        WeakFieldUpdate::Clear(VALUE(QUNDEF))
    } else if l.forwarded.contains_key(v.0) {
        WeakFieldUpdate::Forward(VALUE(l.forwarded[v.0]))
    } else {
        WeakFieldUpdate::Unchanged
    }
}

/// Counts of a weak-field sweep.
#[derive(Clone, Copy, Debug, PartialEq, Eq, Structural)]
pub struct WeakFieldStats {
    pub num_fields: usize,
    pub live: usize,
    pub forwarded: usize,
}

/// Whether a field update finds its referent alive.
pub open spec fn update_is_live(u: WeakFieldUpdate, v: VALUE) -> bool {
    match u {
        WeakFieldUpdate::Forward(_) => true,
        WeakFieldUpdate::Unchanged => !v.is_special_const_spec(),
        _ => false,
    }
}

/// Whether a field update moves its referent.
pub open spec fn update_is_forward(u: WeakFieldUpdate) -> bool {
    u is Forward
}

/// How many of the first `n` updates find their referent alive.
pub open spec fn count_live(updates: Seq<WeakFieldUpdate>, values: Seq<VALUE>, n: int) -> nat
    decreases n,
{
    if n <= 0 {
        0
    } else {
        count_live(updates, values, n - 1) + if update_is_live(updates[n - 1], values[n - 1]) { 1nat } else { 0nat }
    }
}

/// How many of the first `n` updates move their referent.
pub open spec fn count_forwarded(updates: Seq<WeakFieldUpdate>, n: int) -> nat
    decreases n,
{
    if n <= 0 {
        0
    } else {
        count_forwarded(updates, n - 1) + if update_is_forward(updates[n - 1]) { 1nat } else { 0nat }
    }
}

/// Decides the update of one weak field holding `value`.
pub fn update_weak_field(value: VALUE, is_heap_object: bool, liveness: &Liveness) -> (r: WeakFieldUpdate)
    requires
        liveness.inv(),
    ensures
        r == weak_field_update_spec(liveness@, value, is_heap_object),
{
    if value.is_special_const() {
        return WeakFieldUpdate::Unchanged;
    }
    if !is_heap_object {
        return WeakFieldUpdate::Invalid;
    }
    let object = ObjectReference { addr: value.0 };
    if !liveness.is_reachable(object) {
        WeakFieldUpdate::Clear(VALUE(QUNDEF))
    } else {
        match liveness.get_forwarded_object(object) {
            Some(new_object) => WeakFieldUpdate::Forward(VALUE(new_object.addr)),
            None => WeakFieldUpdate::Unchanged,
        }
    }
}

/// Decides the update of every weak field: `values[i]` is what field `i`
/// holds and `is_heap_object[i]` whether the collector recognises it as an
/// object. Also counts the fields, the live referents and the moved ones.
pub fn update_weak_fields(
    values: &Vec<VALUE>,
    is_heap_object: &Vec<bool>,
    liveness: &Liveness,
) -> (r: (Vec<WeakFieldUpdate>, WeakFieldStats))
    requires
        liveness.inv(),
        values@.len() == is_heap_object@.len(),
    ensures
        r.0@.len() == values@.len(),
        forall|i: int| 0 <= i < values@.len() ==> #[trigger] r.0@[i]
            == weak_field_update_spec(liveness@, values@[i], is_heap_object@[i]),
        r.1.num_fields == values@.len(),
        r.1.live == count_live(r.0@, values@, values@.len() as int),
        r.1.forwarded == count_forwarded(r.0@, values@.len() as int),
{
    let mut updates: Vec<WeakFieldUpdate> = Vec::new();
    let mut live: usize = 0;
    let mut forwarded: usize = 0;
    let mut i: usize = 0;
    while i < values.len()
        invariant
            liveness.inv(),
            values@.len() == is_heap_object@.len(),
            i <= values@.len(),
            updates@.len() == i,
            forall|j: int| 0 <= j < i ==> #[trigger] updates@[j]
                == weak_field_update_spec(liveness@, values@[j], is_heap_object@[j]),
            forwarded <= live <= i,
            live == count_live(updates@, values@, i as int),
            forwarded == count_forwarded(updates@, i as int),
        decreases values@.len() - i,
    {
        let u = update_weak_field(values[i], is_heap_object[i], liveness);
        let ghost before = updates@;
        match u {
            WeakFieldUpdate::Forward(_) => {
                live = live + 1;
                forwarded = forwarded + 1;
            },
            WeakFieldUpdate::Unchanged => {
                if !values[i].is_special_const() {
                    live = live + 1;
                }
            },
            _ => {},
        }
        updates.push(u);
        proof {
            lemma_counts_prefix(before, updates@, values@, i as int);
        }
        i = i + 1;
    }
    (updates, WeakFieldStats { num_fields: values.len(), live, forwarded })
}

/// The counts over a prefix depend on that prefix only.
proof fn lemma_counts_prefix(a: Seq<WeakFieldUpdate>, b: Seq<WeakFieldUpdate>, values: Seq<VALUE>, n: int)
    requires
        0 <= n <= a.len(),
        n <= b.len(),
        forall|j: int| 0 <= j < n ==> a[j] == b[j],
    ensures
        count_live(a, values, n) == count_live(b, values, n),
        count_forwarded(a, n) == count_forwarded(b, n),
    decreases n,
{
    if n > 0 {
        lemma_counts_prefix(a, b, values, n - 1);
    }
}

/// The weakly held references that the weak processor owns.
pub struct WeakProcessor {
    obj_free_candidates: Vec<ObjectReference>,
    weak_fields: Vec<usize>,
    wb_unprotected_objects: ObjectSet,
}

impl WeakProcessor {
    /// The write-barrier-unprotected objects are a well-formed set.
    pub closed spec fn inv(&self) -> bool {
        self.wb_unprotected_objects.inv()
    }

    /// Objects that need `obj_free` called when they die.
    pub closed spec fn candidates(&self) -> Seq<ObjectReference> {
        self.obj_free_candidates@
    }

    /// Addresses of the weak fields discovered in the current cycle.
    pub closed spec fn weak_fields_spec(&self) -> Seq<usize> {
        self.weak_fields@
    }

    /// Objects that need eager write-barrier treatment.
    pub closed spec fn wb_unprotected(&self) -> Seq<ObjectReference> {
        self.wb_unprotected_objects.items_spec()
    }

    pub fn obj_free_candidates(&self) -> (r: &[ObjectReference])
        ensures
            r@ == self.candidates(),
    {
        self.obj_free_candidates.as_slice()
    }

    pub fn wb_unprotected_objects(&self) -> (r: &[ObjectReference])
        ensures
            r@ == self.wb_unprotected(),
    {
        self.wb_unprotected_objects.as_slice()
    }

    pub fn new() -> (r: Self)
        ensures
            r.inv(),
            r.candidates() == Seq::<ObjectReference>::empty(),
            r.weak_fields_spec() == Seq::<usize>::empty(),
            r.wb_unprotected() == Seq::<ObjectReference>::empty(),
    {
        WeakProcessor { obj_free_candidates: Vec::new(), weak_fields: Vec::new(), wb_unprotected_objects: ObjectSet::new() }
    }

    pub fn add_obj_free_candidate(&mut self, object: ObjectReference)
        requires
            old(self).inv(),
        ensures
            final(self).inv(),
            final(self).candidates() == old(self).candidates().push(object),
            final(self).weak_fields_spec() == old(self).weak_fields_spec(),
            final(self).wb_unprotected() == old(self).wb_unprotected(),
    {
        self.obj_free_candidates.push(object);
    }

    pub fn add_obj_free_candidates(&mut self, objects: &[ObjectReference])
        requires
            old(self).inv(),
        ensures
            final(self).inv(),
            final(self).candidates() == old(self).candidates() + objects@,
            final(self).weak_fields_spec() == old(self).weak_fields_spec(),
            final(self).wb_unprotected() == old(self).wb_unprotected(),
    {
        let mut i: usize = 0;
        while i < objects.len()
            invariant
                i <= objects@.len(),
                self.inv(),
                self.candidates() == old(self).candidates() + objects@.subrange(0, i as int),
                self.weak_fields_spec() == old(self).weak_fields_spec(),
                self.wb_unprotected() == old(self).wb_unprotected(),
            decreases objects@.len() - i,
        {
            self.obj_free_candidates.push(objects[i]);
            proof {
                assert(objects@.subrange(0, i + 1) =~= objects@.subrange(0, i as int).push(objects@[i as int]));
            }
            i = i + 1;
        }
        proof {
            assert(objects@.subrange(0, objects@.len() as int) =~= objects@);
        }
    }

    /// Takes every candidate out, leaving none.
    pub fn get_all_obj_free_candidates(&mut self) -> (r: Vec<ObjectReference>)
        requires
            old(self).inv(),
        ensures
            final(self).inv(),
            r@ == old(self).candidates(),
            final(self).candidates() == Seq::<ObjectReference>::empty(),
            final(self).weak_fields_spec() == old(self).weak_fields_spec(),
            final(self).wb_unprotected() == old(self).wb_unprotected(),
    {
        let mut r: Vec<ObjectReference> = Vec::new();
        std::mem::swap(&mut self.obj_free_candidates, &mut r);
        r
    }

    pub fn clear_weak_fields(&mut self)
        requires
            old(self).inv(),
        ensures
            final(self).inv(),
            final(self).weak_fields_spec() == Seq::<usize>::empty(),
            final(self).candidates() == old(self).candidates(),
            final(self).wb_unprotected() == old(self).wb_unprotected(),
    {
        self.weak_fields.clear();
    }

    /// Records the address of a field that holds a weak reference.
    pub fn discover_weak_field(&mut self, field: usize)
        requires
            old(self).inv(),
        ensures
            final(self).inv(),
            final(self).weak_fields_spec() == old(self).weak_fields_spec().push(field),
            final(self).candidates() == old(self).candidates(),
            final(self).wb_unprotected() == old(self).wb_unprotected(),
    {
        self.weak_fields.push(field);
    }

    /// Takes every discovered weak field out, leaving none.
    pub fn get_all_weak_fields(&mut self) -> (r: Vec<usize>)
        requires
            old(self).inv(),
        ensures
            final(self).inv(),
            r@ == old(self).weak_fields_spec(),
            final(self).weak_fields_spec() == Seq::<usize>::empty(),
            final(self).candidates() == old(self).candidates(),
            final(self).wb_unprotected() == old(self).wb_unprotected(),
    {
        let mut r: Vec<usize> = Vec::new();
        std::mem::swap(&mut self.weak_fields, &mut r);
        r
    }

    /// Records an object that needs eager write-barrier treatment; an object
    /// already recorded is not recorded twice.
    pub fn register_wb_unprotected_object(&mut self, object: ObjectReference)
        requires
            old(self).inv(),
        ensures
            final(self).inv(),
            final(self).wb_unprotected() == (if old(self).wb_unprotected().contains(object) {
                old(self).wb_unprotected()
            } else {
                old(self).wb_unprotected().push(object)
            }),
            final(self).wb_unprotected().no_duplicates(),
            final(self).candidates() == old(self).candidates(),
            final(self).weak_fields_spec() == old(self).weak_fields_spec(),
    {
        self.wb_unprotected_objects.insert(object);
        proof {
            self.wb_unprotected_objects.lemma_no_duplicates();
        }
    }

    pub fn is_object_wb_unprotected(&self, object: ObjectReference) -> (r: bool)
        requires
            self.inv(),
        ensures
            r == self.wb_unprotected().contains(object),
    {
        self.wb_unprotected_objects.contains(object)
    }

    /// The work to schedule for this cycle's weak processing, in order.
    /// Scheduling does not wait for it: the collector must drain the stage.
    pub fn process_weak_stuff(&self) -> (r: Vec<WeakWork>)
        ensures
            r@ == weak_work_schedule(),
    {
        let r = vec![
            WeakWork::ProcessObjFreeCandidates,
            WeakWork::UpdateTable(WeakTable::CiTable),
            WeakWork::UpdateTable(WeakTable::OverloadedCmeTable),
            WeakWork::UpdateTable(WeakTable::FinalizerAndObjIdTables),
            WeakWork::UpdateTable(WeakTable::GenericFieldsTable),
            WeakWork::UpdateTable(WeakTable::CCRefinementTable),
            WeakWork::UpdateWbUnprotectedObjectsList,
            WeakWork::UpdateWeakFields,
            WeakWork::UpdateConcurrentSet(WeakConcurrentSetKind::FString),
            WeakWork::UpdateConcurrentSet(WeakConcurrentSetKind::GlobalSymbols),
        ];
        proof {
            assert(r@ =~= weak_work_schedule());
        }
        r
    }

    /// Sweeps the candidates for `obj_free`: returns the dead ones, each as
    /// often as it was a candidate, for the runtime to release; the live ones
    /// stay, at their new locations.
    pub fn process_obj_free_candidates(&mut self, liveness: &Liveness) -> (r: Vec<ObjectReference>)
        requires
            old(self).inv(),
            liveness.inv(),
        ensures
            final(self).inv(),
            r@ == dead_objects(liveness@, old(self).candidates()),
            final(self).candidates() == forward_survivors(liveness@, old(self).candidates()),
            final(self).weak_fields_spec() == old(self).weak_fields_spec(),
            final(self).wb_unprotected() == old(self).wb_unprotected(),
    {
        let (dead, live) = partition_by_liveness(&self.obj_free_candidates, liveness);
        self.obj_free_candidates = live;
        dead
    }

    /// Sweeps the write-barrier-unprotected objects: the dead ones leave the
    /// list, the live ones stay at their new locations, each location once.
    pub fn update_wb_unprotected_objects_list(&mut self, liveness: &Liveness)
        requires
            old(self).inv(),
            liveness.inv(),
        ensures
            final(self).inv(),
            final(self).wb_unprotected() == dedup(forward_survivors(liveness@, old(self).wb_unprotected())),
            final(self).wb_unprotected().no_duplicates(),
            final(self).candidates() == old(self).candidates(),
            final(self).weak_fields_spec() == old(self).weak_fields_spec(),
    {
        let mut old_set = ObjectSet::new();
        std::mem::swap(&mut self.wb_unprotected_objects, &mut old_set);
        let items = old_set.into_vec();
        let (_dead, live) = partition_by_liveness(&items, liveness);
        self.wb_unprotected_objects = ObjectSet::from_vec(&live);
        proof {
            self.wb_unprotected_objects.lemma_no_duplicates();
        }
    }
}

impl Default for WeakProcessor {
    fn default() -> (r: Self)
        ensures
            r.inv(),
            r.candidates() == Seq::<ObjectReference>::empty(),
            r.weak_fields_spec() == Seq::<usize>::empty(),
            r.wb_unprotected() == Seq::<ObjectReference>::empty(),
    {
        Self::new()
    }
}

/// Each occurrence of a candidate in `s` is finalized exactly once or
/// survives, never both: the dead objects and the survivors together are as
/// many as the candidates, no dead object is among the survivors, and every
/// survivor is reachable.
pub proof fn lemma_obj_free_exactly_once(l: LivenessView, s: Seq<ObjectReference>)
    requires
        l.wf(),
    ensures
        dead_objects(l, s).len() + forward_survivors(l, s).len() == s.len(),
        forall|x: ObjectReference| #[trigger] dead_objects(l, s).contains(x) ==> !l.is_reachable(x)
            && !forward_survivors(l, s).contains(x),
        forall|y: ObjectReference| #[trigger] forward_survivors(l, s).contains(y) ==> l.is_reachable(y),
    decreases s.len(),
{
    if s.len() > 0 {
        let t = s.drop_last();
        lemma_obj_free_exactly_once(l, t);
        let fs = |x: ObjectReference| survivor(l, x);
        let fd = |x: ObjectReference| if l.is_reachable(x) { None } else { Some(x) };
        assert(s.map_values(fs).drop_last() =~= t.map_values(fs));
        assert(s.map_values(fd).drop_last() =~= t.map_values(fd));
        lemma_forward_keeps_reachability(l, s.last());
    }
    assert forall|y: ObjectReference| #[trigger] forward_survivors(l, s).contains(y) implies l.is_reachable(y) by {
        let outs = s.map_values(|x: ObjectReference| survivor(l, x));
        lemma_kept_from_outs(outs, y);
        let i = choose|i: int| 0 <= i < outs.len() && #[trigger] outs[i] == Some(y);
        lemma_forward_keeps_reachability(l, s[i]);
    }
    assert forall|x: ObjectReference| #[trigger] dead_objects(l, s).contains(x) implies !l.is_reachable(x)
        && !forward_survivors(l, s).contains(x) by {
        let outs = s.map_values(|z: ObjectReference| if l.is_reachable(z) { None } else { Some(z) });
        lemma_kept_from_outs(outs, x);
    }
}

} // verus!
