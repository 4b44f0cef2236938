//! Chunked sweeping of bucket-style weak tables: entries and bins are swept
//! by independent packets over disjoint index ranges.
use vstd::prelude::*;

use crate::utils::{chunk_ranges, chunk_ranges_spec, AfterAll, WorkBucketStage};

verus! {

/// The shape of a table as the runtime reports it.
#[derive(Clone, Copy, Debug, PartialEq, Eq, Structural)]
pub struct StSizeInfo {
    pub entries_start: usize,
    pub entries_bound: usize,
    pub bins_num: usize,
}

/// Sweep the entries `[begin, end)` of a table.
#[derive(Clone, Copy, Debug, PartialEq, Eq, Structural)]
pub struct UpdateTableEntriesParallel {
    pub table: usize,
    pub begin: usize,
    pub end: usize,
    pub weak_keys: bool,
    pub weak_values: bool,
    pub forward: bool,
}

/// Sweep the bins `[begin, end)` of a table.
#[derive(Clone, Copy, Debug, PartialEq, Eq, Structural)]
pub struct UpdateTableBinsParallel {
    pub table: usize,
    pub begin: usize,
    pub end: usize,
}

/// The packets of one table's sweep: the entry packets run at once; the bin
/// packets wait in the barrier until every entry packet has counted down.
pub struct StTableSweep {
    pub entries: Vec<UpdateTableEntriesParallel>,
    pub after_entries: AfterAll<UpdateTableBinsParallel>,
}

/// Whether `p` are the entry packets of `table` over the ranges `r`.
pub open spec fn entries_packets_match(
    p: Seq<UpdateTableEntriesParallel>,
    r: Seq<(int, int)>,
    table: usize,
    weak_keys: bool,
    weak_values: bool,
    forward: bool,
) -> bool {
    &&& p.len() == r.len()
    &&& forall|i: int| 0 <= i < p.len() ==> {
        &&& (#[trigger] p[i]).begin == r[i].0
        &&& p[i].end == r[i].1
        &&& p[i].table == table
        &&& p[i].weak_keys == weak_keys
        &&& p[i].weak_values == weak_values
        &&& p[i].forward == forward
    }
}

/// Whether `p` are the bin packets of `table` over the ranges `r`.
pub open spec fn bins_packets_match(p: Seq<UpdateTableBinsParallel>, r: Seq<(int, int)>, table: usize) -> bool {
    &&& p.len() == r.len()
    &&& forall|i: int| 0 <= i < p.len() ==> {
        &&& (#[trigger] p[i]).begin == r[i].0
        &&& p[i].end == r[i].1
        &&& p[i].table == table
    }
}

/// Plans the sweep of `table`: entry packets over `[entries_start,
/// entries_bound)` in chunks of `entries_chunk_size`, and bin packets over
/// `[0, bins_num)` in chunks of `bins_chunk_size`, deferred until all entry
/// packets are done. The barrier releases into the weak-reference stage.
pub fn process_weak_table_chunked(
    table: usize,
    weak_keys: bool,
    weak_values: bool,
    forward: bool,
    size_info: StSizeInfo,
    entries_chunk_size: usize,
    bins_chunk_size: usize,
) -> (r: StTableSweep)
    requires
        entries_chunk_size > 0,
        bins_chunk_size > 0,
    ensures
        entries_packets_match(
            r.entries@,
            chunk_ranges_spec(size_info.entries_start as int, size_info.entries_bound as int, entries_chunk_size as int),
            table,
            weak_keys,
            weak_values,
            forward,
        ),
        bins_packets_match(
            r.after_entries.pending(),
            chunk_ranges_spec(0, size_info.bins_num as int, bins_chunk_size as int),
            table,
        ),
        r.after_entries.counter_spec() == r.entries@.len(),
        r.after_entries.stage_spec() == WorkBucketStage::VMRefClosure,
{
    let entry_ranges = chunk_ranges(size_info.entries_start, size_info.entries_bound, entries_chunk_size);
    let mut entries: Vec<UpdateTableEntriesParallel> = Vec::new();
    let mut i: usize = 0;
    while i < entry_ranges.len()
        invariant
            i <= entry_ranges@.len(),
            entries_packets_match(
                entries@,
                crate::utils::ranges_view(entry_ranges@).subrange(0, i as int),
                table,
                weak_keys,
                weak_values,
                forward,
            ),
        decreases entry_ranges@.len() - i,
    {
        let (begin, end) = entry_ranges[i];
        entries.push(UpdateTableEntriesParallel { table, begin, end, weak_keys, weak_values, forward });
        i = i + 1;
    }
    proof {
        assert(crate::utils::ranges_view(entry_ranges@).subrange(0, entry_ranges@.len() as int)
            =~= crate::utils::ranges_view(entry_ranges@));
    }
    let bin_ranges = chunk_ranges(0, size_info.bins_num, bins_chunk_size);
    let mut bins: Vec<UpdateTableBinsParallel> = Vec::new();
    let mut j: usize = 0;
    while j < bin_ranges.len()
        invariant
            j <= bin_ranges@.len(),
            bins_packets_match(bins@, crate::utils::ranges_view(bin_ranges@).subrange(0, j as int), table),
        decreases bin_ranges@.len() - j,
    {
        let (begin, end) = bin_ranges[j];
        bins.push(UpdateTableBinsParallel { table, begin, end });
        j = j + 1;
    }
    proof {
        assert(crate::utils::ranges_view(bin_ranges@).subrange(0, bin_ranges@.len() as int)
            =~= crate::utils::ranges_view(bin_ranges@));
    }
    let mut after_entries: AfterAll<UpdateTableBinsParallel> = AfterAll::new(WorkBucketStage::VMRefClosure);
    after_entries.count_up(entries.len());
    after_entries.add_packets(bins);
    proof {
        assert(Seq::<UpdateTableBinsParallel>::empty() + bins@ =~= bins@);
    }
    StTableSweep { entries, after_entries }
}

} // verus!
