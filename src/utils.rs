//! Generic work-chunking helpers: chunked collection, index-range
//! partitioning, the count-down barrier and the two-generation list.
use vstd::prelude::*;

verus! {

broadcast use {vstd::seq_lib::group_seq_properties, Seq::lemma_flatten_push};

/// The stages of the collector's work pipeline that this library schedules into.
#[derive(Clone, Copy, Debug, PartialEq, Eq, Structural)]
pub enum WorkBucketStage {
    Prepare,
    Closure,
    VMRefClosure,
}

/// Collects items into vectors of `chunk_size` items each (the last one may be shorter).
pub struct ChunkedVecCollector<T> {
    vecs: Vec<Vec<T>>,
    current_vec: Vec<T>,
    chunk_size: usize,
}

/// The items of a sequence of vectors, in order.
pub open spec fn flatten_vecs<T>(vs: Seq<Vec<T>>) -> Seq<T> {
    vs.map_values(|v: Vec<T>| v@).flatten()
}

impl<T> ChunkedVecCollector<T> {
    pub closed spec fn inv(&self) -> bool {
        &&& self.chunk_size > 0
        &&& self.current_vec@.len() < self.chunk_size
        &&& forall|i: int| 0 <= i < self.vecs@.len() ==> #[trigger] self.vecs@[i]@.len() == self.chunk_size
    }

    /// All items added so far, in order.
    pub closed spec fn items(&self) -> Seq<T> {
        flatten_vecs(self.vecs@) + self.current_vec@
    }

    pub closed spec fn chunk_size_spec(&self) -> nat {
        self.chunk_size as nat
    }

    pub fn new(chunk_size: usize) -> (r: Self)
        requires
            chunk_size > 0,
        ensures
            r.inv(),
            r.items() == Seq::<T>::empty(),
            r.chunk_size_spec() == chunk_size,
    {
        let r = ChunkedVecCollector { vecs: Vec::new(), current_vec: Vec::new(), chunk_size };
        proof {
            assert(flatten_vecs(r.vecs@) =~= Seq::<T>::empty());
        }
        r
    }

    pub fn add(&mut self, item: T)
        requires
            old(self).inv(),
        ensures
            final(self).inv(),
            final(self).items() == old(self).items().push(item),
            final(self).chunk_size_spec() == old(self).chunk_size_spec(),
    {
        self.current_vec.push(item);
        if self.current_vec.len() == self.chunk_size {
            self.flush();
        }
        proof {
            assert(self.items() =~= old(self).items().push(item));
        }
    }

    fn flush(&mut self)
        requires
            old(self).chunk_size > 0,
            old(self).current_vec@.len() == old(self).chunk_size,
            forall|i: int| 0 <= i < old(self).vecs@.len() ==> #[trigger] old(self).vecs@[i]@.len() == old(self).chunk_size,
        ensures
            final(self).inv(),
            final(self).items() == old(self).items(),
            final(self).chunk_size == old(self).chunk_size,
    {
        let mut new_vec: Vec<T> = Vec::new();
        std::mem::swap(&mut self.current_vec, &mut new_vec);
        let ghost before = self.vecs@;
        self.vecs.push(new_vec);
        proof {
            assert(before.push(new_vec).map_values(|v: Vec<T>| v@) =~= before.map_values(|v: Vec<T>| v@).push(new_vec@));
            assert(flatten_vecs(self.vecs@) == flatten_vecs(before) + new_vec@);
            assert(self.items() =~= old(self).items());
        }
    }

    /// The collected chunks: every chunk but the last holds exactly
    /// `chunk_size` items, the last holds between one and `chunk_size`.
    pub fn into_vecs(self) -> (r: Vec<Vec<T>>)
        requires
            self.inv(),
        ensures
            flatten_vecs(r@) == self.items(),
            forall|i: int| 0 <= i < r@.len() ==> 0 < (#[trigger] r@[i])@.len() <= self.chunk_size_spec(),
            forall|i: int| 0 <= i < r@.len() - 1 ==> (#[trigger] r@[i])@.len() == self.chunk_size_spec(),
    {
        let mut vecs = self.vecs;
        let current = self.current_vec;
        if current.len() > 0 {
            let ghost before = vecs@;
            vecs.push(current);
            proof {
                assert(before.push(current).map_values(|v: Vec<T>| v@) =~= before.map_values(|v: Vec<T>| v@).push(current@));
                assert(flatten_vecs(vecs@) == flatten_vecs(before) + current@);
            }
        } else {
            proof {
                assert(self.items() =~= flatten_vecs(vecs@));
            }
        }
        vecs
    }
}

/// The partition of `[begin, end)` into consecutive ranges of `c` indices,
/// the last of which may be shorter.
pub open spec fn chunk_ranges_spec(begin: int, end: int, c: int) -> Seq<(int, int)>
    decreases if end > begin { end - begin } else { 0 },
{
    if begin >= end || c <= 0 {
        Seq::empty()
    } else {
        seq![(begin, if begin + c < end { begin + c } else { end })]
            + chunk_ranges_spec(begin + c, end, c)
    }
}

/// A vector of index ranges as a sequence of pairs of integers.
pub open spec fn ranges_view(r: Seq<(usize, usize)>) -> Seq<(int, int)> {
    r.map_values(|p: (usize, usize)| (p.0 as int, p.1 as int))
}

/// Splits `[begin, end)` into consecutive chunks of `chunk_size` indices.
/// An empty range (`end <= begin`) gives no chunk.
pub fn chunk_ranges(begin: usize, end: usize, chunk_size: usize) -> (r: Vec<(usize, usize)>)
    requires
        chunk_size > 0,
    ensures
        ranges_view(r@) == chunk_ranges_spec(begin as int, end as int, chunk_size as int),
{
    let mut r: Vec<(usize, usize)> = Vec::new();
    let mut b: usize = begin;
    proof {
        assert(ranges_view(r@) + chunk_ranges_spec(b as int, end as int, chunk_size as int)
            =~= chunk_ranges_spec(begin as int, end as int, chunk_size as int));
    }
    while b < end
        invariant
            chunk_size > 0,
            begin <= b,
            ranges_view(r@) + chunk_ranges_spec(b as int, end as int, chunk_size as int)
                == chunk_ranges_spec(begin as int, end as int, chunk_size as int),
        decreases end - b,
    {
        let e: usize = if end - b > chunk_size { b + chunk_size } else { end };
        let ghost before = r@;
        r.push((b, e));
        proof {
            assert(ranges_view(r@) =~= ranges_view(before).push((b as int, e as int)));
            let rest = chunk_ranges_spec(b as int + chunk_size as int, end as int, chunk_size as int);
            assert(chunk_ranges_spec(b as int, end as int, chunk_size as int)
                =~= seq![(b as int, e as int)] + rest);
            assert(ranges_view(r@) + rest =~= ranges_view(before) + (seq![(b as int, e as int)] + rest));
        }
        if e == end {
            proof {
                assert(chunk_ranges_spec(e as int, end as int, chunk_size as int) =~= Seq::<(int, int)>::empty());
                assert(b as int + chunk_size as int >= end);
            }
            b = e;
        } else {
            b = e;
        }
    }
    proof {
        assert(ranges_view(r@) + chunk_ranges_spec(b as int, end as int, chunk_size as int) =~= ranges_view(r@));
    }
    r
}

/// Whether `x` lies in one of the half-open ranges of `r`.
pub open spec fn in_some_range(r: Seq<(int, int)>, x: int) -> bool {
    exists|i: int| 0 <= i < r.len() && (#[trigger] r[i]).0 <= x < r[i].1
}

/// The chunks of a range partition it: every index of `[begin, end)` lies in
/// some chunk, no index outside it does, chunks are non-empty, no longer than
/// `c`, each one ends before the next one begins, and there are as many as
/// the length divided by `c`, rounded up.
pub proof fn lemma_chunk_ranges_partition(begin: int, end: int, c: int)
    requires
        c > 0,
    ensures
        ({
            let r = chunk_ranges_spec(begin, end, c);
            &&& forall|x: int| #[trigger] in_some_range(r, x) <==> (begin <= x < end)
            &&& forall|i: int, j: int| 0 <= i < j < r.len() ==> (#[trigger] r[i]).1 <= (#[trigger] r[j]).0
            &&& forall|i: int| 0 <= i < r.len() ==> (#[trigger] r[i]).0 < r[i].1 <= r[i].0 + c
            &&& r.len() == (if end <= begin { 0 } else { (end - begin + c - 1) / c })
        }),
    decreases if end > begin { end - begin } else { 0 },
{
    lemma_chunk_ranges_count(begin, end, c);
    let r = chunk_ranges_spec(begin, end, c);
    if begin < end {
        lemma_chunk_ranges_partition(begin + c, end, c);
        let rest = chunk_ranges_spec(begin + c, end, c);
        assert(r == seq![r[0]] + rest);
        assert forall|i: int| 0 <= i < rest.len() implies (#[trigger] rest[i]).0 >= begin + c by {
            lemma_chunk_ranges_bounds(begin + c, end, c);
        }
        assert forall|x: int| #[trigger] in_some_range(r, x) <==> (begin <= x < end) by {
          if begin <= x < end {
            if x < begin + c {
                assert(r[0].0 <= x < r[0].1);
            } else {
                let k = choose|k: int| 0 <= k < rest.len() && (#[trigger] rest[k]).0 <= x < rest[k].1;
                assert(in_some_range(rest, x));
                assert(r[k + 1] == rest[k]);
            }
          }
          if in_some_range(r, x) {
            let i = choose|i: int| 0 <= i < r.len() && (#[trigger] r[i]).0 <= x < r[i].1;
            if i > 0 {
                assert(rest[i - 1] == r[i]);
                assert(in_some_range(rest, x));
            }
          }
        }
        assert forall|i: int, j: int| 0 <= i < j < r.len() implies (#[trigger] r[i]).1 <= (#[trigger] r[j]).0 by {
            assert(r[j] == rest[j - 1]);
            if i > 0 {
                assert(r[i] == rest[i - 1]);
            }
        }
        assert forall|i: int| 0 <= i < r.len() implies (#[trigger] r[i]).0 < r[i].1 <= r[i].0 + c by {
            if i > 0 {
                assert(r[i] == rest[i - 1]);
            }
        }
    }
}

/// The number of chunks of `[begin, end)`: the length divided by `c`,
/// rounded up.
pub proof fn lemma_chunk_ranges_count(begin: int, end: int, c: int)
    requires
        c > 0,
    ensures
        chunk_ranges_spec(begin, end, c).len() == (if end <= begin { 0 } else { (end - begin + c - 1) / c }),
    decreases if end > begin { end - begin } else { 0 },
{
    if begin < end {
        lemma_chunk_ranges_count(begin + c, end, c);
        let n = end - begin;
        vstd::arithmetic::div_mod::lemma_div_plus_one(n - 1, c);
        if n <= c {
            vstd::arithmetic::div_mod::lemma_basic_div(n - 1, c);
        }
        assert(c + (n - 1) == n + c - 1);
        assert(end - (begin + c) + c - 1 == n - 1);
    }
}

/// Every chunk of `[begin, end)` lies inside it.
proof fn lemma_chunk_ranges_bounds(begin: int, end: int, c: int)
    requires
        c > 0,
    ensures
        forall|i: int| 0 <= i < chunk_ranges_spec(begin, end, c).len() ==> begin
            <= (#[trigger] chunk_ranges_spec(begin, end, c)[i]).0 && chunk_ranges_spec(begin, end, c)[i].1 <= end,
    decreases if end > begin { end - begin } else { 0 },
{
    if begin < end {
        lemma_chunk_ranges_bounds(begin + c, end, c);
        let r = chunk_ranges_spec(begin, end, c);
        let rest = chunk_ranges_spec(begin + c, end, c);
        assert forall|i: int| 0 <= i < r.len() implies begin <= (#[trigger] r[i]).0 && r[i].1 <= end by {
            if i > 0 {
                assert(r[i] == rest[i - 1]);
            }
        }
    }
}

/// A count-down barrier: once as many chunks as were counted up have counted
/// down, the deferred packets are released, exactly once, into `stage`.
///
/// Every `count_up` for a batch happens before any `count_down` of it.
pub struct AfterAll<T> {
    counter: usize,
    stage: WorkBucketStage,
    packets: Vec<T>,
}

impl<T> AfterAll<T> {
    /// The number of chunks still to count down.
    pub closed spec fn counter_spec(&self) -> nat {
        self.counter as nat
    }

    /// The deferred packets not yet released.
    pub closed spec fn pending(&self) -> Seq<T> {
        self.packets@
    }

    pub closed spec fn stage_spec(&self) -> WorkBucketStage {
        self.stage
    }

    pub fn new(stage: WorkBucketStage) -> (r: Self)
        ensures
            r.counter_spec() == 0,
            r.pending() == Seq::<T>::empty(),
            r.stage_spec() == stage,
    {
        AfterAll { counter: 0, stage, packets: Vec::new() }
    }

    /// The stage that released packets go to.
    pub fn stage(&self) -> (r: WorkBucketStage)
        ensures
            r == self.stage_spec(),
    {
        self.stage
    }

    /// The number of chunks still to count down.
    pub fn counter(&self) -> (r: usize)
        ensures
            r == self.counter_spec(),
    {
        self.counter
    }

    /// Defers `packets` until the counter reaches zero.
    pub fn add_packets(&mut self, packets: Vec<T>)
        ensures
            final(self).pending() == old(self).pending() + packets@,
            final(self).counter_spec() == old(self).counter_spec(),
            final(self).stage_spec() == old(self).stage_spec(),
    {
        let mut packets = packets;
        self.packets.append(&mut packets);
    }

    /// Announces `n` more chunks.
    pub fn count_up(&mut self, n: usize)
        requires
            old(self).counter_spec() + n <= usize::MAX,
        ensures
            final(self).counter_spec() == old(self).counter_spec() + n,
            final(self).pending() == old(self).pending(),
            final(self).stage_spec() == old(self).stage_spec(),
    {
        self.counter = self.counter + n;
    }

    /// Records that one chunk finished. The call that brings the counter from
    /// one to zero receives every deferred packet; every other call receives
    /// `None`.
    pub fn count_down(&mut self) -> (r: Option<Vec<T>>)
        requires
            old(self).counter_spec() > 0,
        ensures
            final(self).counter_spec() == old(self).counter_spec() - 1,
            final(self).stage_spec() == old(self).stage_spec(),
            old(self).counter_spec() == 1 ==> r.is_some() && r.unwrap()@ == old(self).pending()
                && final(self).pending() == Seq::<T>::empty(),
            old(self).counter_spec() != 1 ==> r.is_none() && final(self).pending() == old(self).pending(),
    {
        let old_counter = self.counter;
        self.counter = self.counter - 1;
        if old_counter == 1 {
            let mut packets: Vec<T> = Vec::new();
            std::mem::swap(&mut self.packets, &mut packets);
            Some(packets)
        } else {
            None
        }
    }
}

/// The barrier fires exactly once. Take the states `states[0..=n]` of a
/// barrier whose counter was counted up to `n`, where each state follows the
/// previous one by a `count_down` (the counter drops by one). The count-down
/// made from `states[i]` releases the deferred packets exactly when that
/// state's counter is one: that holds for the last count-down and for no
/// other, whatever the order in which the chunks finished, and the counter
/// ends at zero.
pub proof fn lemma_after_all_fires_once<T>(states: Seq<AfterAll<T>>, n: nat)
    requires
        n > 0,
        states.len() == n + 1,
        states[0].counter_spec() == n,
        forall|i: int| 0 <= i < n ==> #[trigger] states[i + 1].counter_spec() == states[i].counter_spec() - 1,
    ensures
        forall|i: int| 0 <= i < n ==> (#[trigger] states[i].counter_spec() == 1 <==> i == n - 1),
        states[n as int].counter_spec() == 0,
{
    lemma_counter_after_count_downs(states, n, n);
    assert forall|i: int| 0 <= i < n implies (#[trigger] states[i].counter_spec() == 1 <==> i == n - 1) by {
        lemma_counter_after_count_downs(states, n, i as nat);
    }
}

proof fn lemma_counter_after_count_downs<T>(states: Seq<AfterAll<T>>, n: nat, k: nat)
    requires
        k <= n,
        states.len() == n + 1,
        states[0].counter_spec() == n,
        forall|i: int| 0 <= i < n ==> #[trigger] states[i + 1].counter_spec() == states[i].counter_spec() - 1,
    ensures
        states[k as int].counter_spec() == n - k,
    decreases k,
{
    if k > 0 {
        lemma_counter_after_count_downs(states, n, (k - 1) as nat);
        assert(states[(k - 1) + 1].counter_spec() == states[k - 1].counter_spec() - 1);
    }
}

/// A list split into a young and an old generation. New items join the young
/// generation; `promote` moves the young generation to the end of the old one.
pub struct GenList<T> {
    old_gen: Vec<T>,
    young: Vec<T>,
}

/// The items `Some` holds, in order.
pub open spec fn kept<T>(outs: Seq<Option<T>>) -> Seq<T>
    decreases outs.len(),
{
    if outs.len() == 0 {
        Seq::empty()
    } else {
        let init = kept(outs.drop_last());
        match outs.last() {
            Some(x) => init.push(x),
            None => init,
        }
    }
}

/// Applies `f` to each item: `Some(y)` keeps `y` in its place, `None` drops the item.
fn retain_map<T, F: Fn(&T) -> Option<T>>(v: &Vec<T>, f: &F) -> (r: (Vec<T>, Ghost<Seq<Option<T>>>))
    requires
        forall|i: int| 0 <= i < v@.len() ==> call_requires(*f, (&v@[i],)),
    ensures
        r.1@.len() == v@.len(),
        forall|i: int| 0 <= i < v@.len() ==> call_ensures(*f, (&v@[i],), #[trigger] r.1@[i]),
        r.0@ == kept(r.1@),
{
    let mut out: Vec<T> = Vec::new();
    let ghost mut outs: Seq<Option<T>> = Seq::empty();
    let mut i: usize = 0;
    while i < v.len()
        invariant
            i <= v@.len(),
            outs.len() == i,
            forall|j: int| 0 <= j < v@.len() ==> call_requires(*f, (&v@[j],)),
            forall|j: int| 0 <= j < i ==> call_ensures(*f, (&v@[j],), #[trigger] outs[j]),
            out@ == kept(outs),
        decreases v@.len() - i,
    {
        let o = f(&v[i]);
        proof {
            assert(outs.push(o).drop_last() =~= outs);
        }
        let ghost go = o;
        match o {
            Some(x) => {
                out.push(x);
            },
            None => {},
        }
        proof {
            outs = outs.push(go);
        }
        i = i + 1;
    }
    (out, Ghost(outs))
}

/// Every item of `kept(outs)` is held by some `Some` of `outs`.
pub proof fn lemma_kept_from_outs<T>(outs: Seq<Option<T>>, y: T)
    requires
        kept(outs).contains(y),
    ensures
        exists|i: int| 0 <= i < outs.len() && #[trigger] outs[i] == Some(y),
    decreases outs.len(),
{
    let init = kept(outs.drop_last());
    if init.contains(y) {
        lemma_kept_from_outs(outs.drop_last(), y);
        let i = choose|i: int| 0 <= i < outs.drop_last().len() && #[trigger] outs.drop_last()[i] == Some(y);
        assert(outs[i] == Some(y));
    } else {
        assert(outs[outs.len() - 1] == Some(y));
    }
}

impl<T> GenList<T> {
    pub closed spec fn young_spec(&self) -> Seq<T> {
        self.young@
    }

    pub closed spec fn old_spec(&self) -> Seq<T> {
        self.old_gen@
    }

    pub fn new() -> (r: Self)
        ensures
            r.young_spec() == Seq::<T>::empty(),
            r.old_spec() == Seq::<T>::empty(),
    {
        GenList { old_gen: Vec::new(), young: Vec::new() }
    }

    pub fn push(&mut self, v: T)
        ensures
            final(self).young_spec() == old(self).young_spec().push(v),
            final(self).old_spec() == old(self).old_spec(),
    {
        self.young.push(v);
    }

    pub fn extend(&mut self, items: Vec<T>)
        ensures
            final(self).young_spec() == old(self).young_spec() + items@,
            final(self).old_spec() == old(self).old_spec(),
    {
        let mut items = items;
        self.young.append(&mut items);
    }

    pub fn young(&self) -> (r: &[T])
        ensures
            r@ == self.young_spec(),
    {
        self.young.as_slice()
    }

    pub fn old_generation(&self) -> (r: &[T])
        ensures
            r@ == self.old_spec(),
    {
        self.old_gen.as_slice()
    }

    /// Filters the young generation in place: `f` returns `Some(y)` to keep
    /// the item rewritten as `y`, `None` to drop it. The old generation is untouched.
    pub fn retain_mut_young<F: Fn(&T) -> Option<T>>(&mut self, f: F)
        requires
            forall|x: &T| call_requires(f, (x,)),
        ensures
            final(self).old_spec() == old(self).old_spec(),
            exists|outs: Seq<Option<T>>| {
                &&& outs.len() == old(self).young_spec().len()
                &&& forall|i: int| 0 <= i < outs.len()
                    ==> call_ensures(f, (&old(self).young_spec()[i],), #[trigger] outs[i])
                &&& final(self).young_spec() == kept(outs)
            },
    {
        let (v, outs) = retain_map(&self.young, &f);
        self.young = v;
        proof {
            assert(outs@.len() == old(self).young_spec().len());
        }
    }

    /// Filters the old generation in place, as `retain_mut_young` does the young one.
    pub fn retain_mut_old<F: Fn(&T) -> Option<T>>(&mut self, f: F)
        requires
            forall|x: &T| call_requires(f, (x,)),
        ensures
            final(self).young_spec() == old(self).young_spec(),
            exists|outs: Seq<Option<T>>| {
                &&& outs.len() == old(self).old_spec().len()
                &&& forall|i: int| 0 <= i < outs.len()
                    ==> call_ensures(f, (&old(self).old_spec()[i],), #[trigger] outs[i])
                &&& final(self).old_spec() == kept(outs)
            },
    {
        let (v, outs) = retain_map(&self.old_gen, &f);
        self.old_gen = v;
        proof {
            assert(outs@.len() == old(self).old_spec().len());
        }
    }

    /// Moves every young item to the end of the old generation.
    pub fn promote(&mut self)
        ensures
            final(self).old_spec() == old(self).old_spec() + old(self).young_spec(),
            final(self).young_spec() == Seq::<T>::empty(),
    {
        self.old_gen.append(&mut self.young);
    }
}

impl<T> Default for GenList<T> {
    fn default() -> (r: Self)
        ensures
            r.young_spec() == Seq::<T>::empty(),
            r.old_spec() == Seq::<T>::empty(),
    {
        Self::new()
    }
}

/// After `promote` the young generation is empty and every item that was in
/// either generation is in the old one, the young items after the old ones.
pub proof fn lemma_promote_moves_all_young<T>(old_gen: Seq<T>, young_gen: Seq<T>, x: T)
    ensures
        young_gen.contains(x) ==> (old_gen + young_gen).contains(x),
        old_gen.contains(x) ==> (old_gen + young_gen).contains(x),
{
    if young_gen.contains(x) {
        let i = choose|i: int| 0 <= i < young_gen.len() && young_gen[i] == x;
        assert((old_gen + young_gen)[old_gen.len() + i] == x);
    }
    if old_gen.contains(x) {
        let i = choose|i: int| 0 <= i < old_gen.len() && old_gen[i] == x;
        assert((old_gen + young_gen)[i] == x);
    }
}

} // verus!
