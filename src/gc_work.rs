//! Transitive closure packets that trace from a list of objects.
use vstd::prelude::*;

use crate::object::ObjectReference;
use crate::utils::{flatten_vecs, ChunkedVecCollector};

verus! {

/// Trace the objects `src_objs`, scan what was reached, and continue with
/// the objects found.
pub struct ObjectsToObjectsWork {
    pub src_objs: Vec<ObjectReference>,
}

/// The source lists of a sequence of packets, in order.
pub open spec fn packet_sources(p: Seq<ObjectsToObjectsWork>) -> Seq<Vec<ObjectReference>> {
    p.map_values(|w: ObjectsToObjectsWork| w.src_objs)
}

impl ObjectsToObjectsWork {
    pub fn new(src_objs: Vec<ObjectReference>) -> (r: Self)
        ensures
            r.src_objs@ == src_objs@,
    {
        ObjectsToObjectsWork { src_objs }
    }

    /// The follow-up packets for the objects `dest_objs` found by scanning:
    /// at most `capacity` objects each, all of them, in order.
    pub fn next_packets(dest_objs: &Vec<ObjectReference>, capacity: usize) -> (r: Vec<ObjectsToObjectsWork>)
        requires
            capacity > 0,
        ensures
            flatten_vecs(packet_sources(r@)) == dest_objs@,
            forall|i: int| 0 <= i < r@.len() ==> 0 < (#[trigger] r@[i]).src_objs@.len() <= capacity,
            forall|i: int| 0 <= i < r@.len() - 1 ==> (#[trigger] r@[i]).src_objs@.len() == capacity,
    {
        let mut collector: ChunkedVecCollector<ObjectReference> = ChunkedVecCollector::new(capacity);
        let mut i: usize = 0;
        while i < dest_objs.len()
            invariant
                collector.inv(),
                collector.chunk_size_spec() == capacity,
                i <= dest_objs@.len(),
                collector.items() == dest_objs@.subrange(0, i as int),
            decreases dest_objs@.len() - i,
        {
            collector.add(dest_objs[i]);
            proof {
                assert(dest_objs@.subrange(0, i + 1) =~= dest_objs@.subrange(0, i as int).push(dest_objs@[i as int]));
            }
            i = i + 1;
        }
        proof {
            assert(dest_objs@.subrange(0, dest_objs@.len() as int) =~= dest_objs@);
        }
        let chunks = collector.into_vecs();
        let ghost chunks_view = chunks@;
        let mut r: Vec<ObjectsToObjectsWork> = Vec::new();
        let mut rest = chunks;
        while rest.len() > 0
            invariant
                rest@.len() <= chunks_view.len(),
                rest@ == chunks_view.subrange(0, rest@.len() as int),
                packet_sources(r@) == chunks_view.subrange(rest@.len() as int, chunks_view.len() as int),
                forall|j: int| 0 <= j < chunks_view.len() ==> 0 < (#[trigger] chunks_view[j])@.len() <= capacity,
                forall|j: int| 0 <= j < chunks_view.len() - 1 ==> (#[trigger] chunks_view[j])@.len() == capacity,
            decreases rest@.len(),
        {
            let ghost old_r = r@;
            let ghost old_rest = rest@;
            let v = rest.pop().unwrap();
            proof {
                assert(v == chunks_view[rest@.len() as int]);
            }
            r.insert(0, ObjectsToObjectsWork { src_objs: v });
            proof {
                assert(r@ == old_r.insert(0, ObjectsToObjectsWork { src_objs: v }));
                assert(packet_sources(r@) =~= seq![v] + packet_sources(old_r));
                assert(packet_sources(r@) =~= chunks_view.subrange(rest@.len() as int, chunks_view.len() as int));
                assert(rest@ =~= chunks_view.subrange(0, rest@.len() as int));
            }
        }
        proof {
            assert(packet_sources(r@) =~= chunks_view);
            assert forall|i: int| 0 <= i < r@.len() implies 0 < (#[trigger] r@[i]).src_objs@.len() <= capacity by {
                assert(packet_sources(r@)[i] == r@[i].src_objs);
            }
            assert forall|i: int| 0 <= i < r@.len() - 1 implies (#[trigger] r@[i]).src_objs@.len() == capacity by {
                assert(packet_sources(r@)[i] == r@[i].src_objs);
            }
        }
        r
    }
}

} // verus!
