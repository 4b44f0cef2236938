//! Chunked sweeping of open-addressed weak sets, addressed by slot index.
use vstd::prelude::*;

use crate::object::ObjectReference;
use crate::utils::{chunk_ranges, chunk_ranges_spec, ranges_view, AfterAll, WorkBucketStage};
use crate::weak_proc::WeakConcurrentSetKind;

verus! {

/// Sweep the slots `[begin, end)` of a weak set.
#[derive(Clone, Copy, Debug, PartialEq, Eq, Structural)]
pub struct UpdateConcurrentSetEntriesParallel {
    pub set: ObjectReference,
    pub begin: usize,
    pub end: usize,
    pub kind: WeakConcurrentSetKind,
}

/// The packets of one set's sweep and the barrier that tells the last one
/// to finish (which then reports the set's size).
pub struct ConcurrentSetSweep {
    pub chunks: Vec<UpdateConcurrentSetEntriesParallel>,
    pub counter: AfterAll<()>,
}

/// Whether `p` are the packets of `set` over the ranges `r`.
pub open spec fn set_packets_match(
    p: Seq<UpdateConcurrentSetEntriesParallel>,
    r: Seq<(int, int)>,
    set: ObjectReference,
    kind: WeakConcurrentSetKind,
) -> bool {
    &&& p.len() == r.len()
    &&& forall|i: int| 0 <= i < p.len() ==> {
        &&& (#[trigger] p[i]).begin == r[i].0
        &&& p[i].end == r[i].1
        &&& p[i].set == set
        &&& p[i].kind == kind
    }
}

/// Plans the sweep of a weak set with `capacity` slots in chunks of
/// `chunk_size` slots. A set that does not exist is skipped.
pub fn process_weak_concurrent_set_chunked(
    set: Option<ObjectReference>,
    kind: WeakConcurrentSetKind,
    capacity: usize,
    chunk_size: usize,
) -> (r: Option<ConcurrentSetSweep>)
    requires
        chunk_size > 0,
    ensures
        set.is_none() <==> r.is_none(),
        r.is_some() ==> set_packets_match(
            r.unwrap().chunks@,
            chunk_ranges_spec(0, capacity as int, chunk_size as int),
            set.unwrap(),
            kind,
        ),
        r.is_some() ==> r.unwrap().counter.counter_spec() == r.unwrap().chunks@.len(),
        r.is_some() ==> r.unwrap().counter.pending() == Seq::<()>::empty(),
        r.is_some() ==> r.unwrap().counter.stage_spec() == WorkBucketStage::VMRefClosure,
{
    let set = match set {
        Some(s) => s,
        None => {
            return None;
        },
    };
    let ranges = chunk_ranges(0, capacity, chunk_size);
    let mut chunks: Vec<UpdateConcurrentSetEntriesParallel> = Vec::new();
    let mut i: usize = 0;
    while i < ranges.len()
        invariant
            i <= ranges@.len(),
            set_packets_match(chunks@, ranges_view(ranges@).subrange(0, i as int), set, kind),
        decreases ranges@.len() - i,
    {
        let (begin, end) = ranges[i];
        chunks.push(UpdateConcurrentSetEntriesParallel { set, begin, end, kind });
        i = i + 1;
    }
    proof {
        assert(ranges_view(ranges@).subrange(0, ranges@.len() as int) =~= ranges_view(ranges@));
    }
    let mut counter: AfterAll<()> = AfterAll::new(WorkBucketStage::VMRefClosure);
    counter.count_up(chunks.len());
    Some(ConcurrentSetSweep { chunks, counter })
}

} // verus!
