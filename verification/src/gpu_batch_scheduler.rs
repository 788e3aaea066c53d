//! GPU batch scheduling: a memory budget, batch requests and compute pipelines.
use vstd::prelude::*;

use vstd::multiset::Multiset;

use crate::time::Instant;

verus! {

/// A region of GPU memory handed out by the pool.
#[derive(Clone, Copy, Debug, PartialEq, Eq, Structural)]
pub struct GPUMemoryAllocation {
    /// Buffer the region belongs to
    pub buffer_id: u32,
    /// Size in bytes
    pub size_bytes: usize,
    /// Offset in bytes within the buffer
    pub offset_bytes: usize,
}

impl GPUMemoryAllocation {
    /// New allocation record.
    pub fn new(buffer_id: u32, size_bytes: usize, offset_bytes: usize) -> (r: Self)
        ensures
            r.buffer_id == buffer_id,
            r.size_bytes == size_bytes,
            r.offset_bytes == offset_bytes,
    {
        GPUMemoryAllocation { buffer_id, size_bytes, offset_bytes }
    }
}

/// The allocations kept after removing every allocation of `buffer_id`.
pub open spec fn without_buffer(blocks: Seq<GPUMemoryAllocation>, buffer_id: u32) -> Seq<GPUMemoryAllocation> {
    blocks.filter(|b: GPUMemoryAllocation| b.buffer_id != buffer_id)
}

/// GPU memory budget: a byte count in use against a total, plus the list of
/// live allocations.
#[derive(Debug)]
pub struct GPUMemoryPool {
    total_memory: usize,
    allocated_memory: usize,
    free_blocks: Vec<GPUMemoryAllocation>,
    allocated_blocks: Vec<GPUMemoryAllocation>,
}

impl GPUMemoryPool {
    /// Total bytes.
    pub closed spec fn spec_total(&self) -> usize {
        self.total_memory
    }

    /// Bytes in use.
    pub closed spec fn spec_allocated(&self) -> usize {
        self.allocated_memory
    }

    /// Regions allocations are carved from, in search order.
    pub closed spec fn spec_free_blocks(&self) -> Seq<GPUMemoryAllocation> {
        self.free_blocks@
    }

    /// Live allocations, oldest first.
    pub closed spec fn spec_allocated_blocks(&self) -> Seq<GPUMemoryAllocation> {
        self.allocated_blocks@
    }

    /// Well-formedness: the bytes in use never exceed the total.
    pub open spec fn wf(&self) -> bool {
        self.spec_allocated() <= self.spec_total()
    }

    /// The free regions are those of a new pool: one region of buffer 0 at
    /// offset 0 covering the whole budget.
    pub open spec fn fresh_regions(&self) -> bool {
        self.spec_free_blocks() == seq![GPUMemoryAllocation { buffer_id: 0, size_bytes: self.spec_total(), offset_bytes: 0 }]
    }

    /// What releasing `allocation` takes the pool from `self` to `after`:
    /// the same budget and regions, its size leaves the count in use
    /// (stopping at zero), and every live allocation of its buffer is
    /// forgotten.
    pub open spec fn deallocates(self, after: Self, allocation: GPUMemoryAllocation) -> bool {
        &&& after.wf()
        &&& after.spec_total() == self.spec_total()
        &&& after.spec_free_blocks() == self.spec_free_blocks()
        &&& after.spec_allocated() == if self.spec_allocated() >= allocation.size_bytes {
            self.spec_allocated() - allocation.size_bytes
        } else {
            0
        }
        &&& after.spec_allocated_blocks() == without_buffer(self.spec_allocated_blocks(), allocation.buffer_id)
    }

    /// New pool whose single free region covers all of `total_memory`.
    pub fn new(total_memory: usize) -> (r: Self)
        ensures
            r.wf(),
            r.fresh_regions(),
            r.spec_total() == total_memory,
            r.spec_allocated() == 0,
            r.spec_free_blocks() == seq![GPUMemoryAllocation { buffer_id: 0, size_bytes: total_memory, offset_bytes: 0 }],
            r.spec_allocated_blocks() == Seq::<GPUMemoryAllocation>::empty(),
    {
        let mut free_blocks: Vec<GPUMemoryAllocation> = Vec::new();
        free_blocks.push(GPUMemoryAllocation::new(0, total_memory, 0));
        proof {
            assert(free_blocks@ =~= seq![GPUMemoryAllocation { buffer_id: 0, size_bytes: total_memory, offset_bytes: 0 }]);
        }
        GPUMemoryPool { total_memory, allocated_memory: 0, free_blocks, allocated_blocks: Vec::new() }
    }

    /// What a first-fit allocation of `size_bytes` from `self` gives: the
    /// start of the first free region that holds the bytes, when the budget
    /// allows, with the bytes counted as used and the allocation recorded;
    /// otherwise `None` and nothing changed.
    pub open spec fn allocates(self, after: Self, size_bytes: usize, r: Option<GPUMemoryAllocation>) -> bool {
        match r {
            Some(a) => size_bytes <= self.spec_total() - self.spec_allocated()
                && (exists|i: int| 0 <= i < self.spec_free_blocks().len()
                    && #[trigger] self.spec_free_blocks()[i].size_bytes >= size_bytes
                    && (forall|j: int| 0 <= j < i ==> self.spec_free_blocks()[j].size_bytes < size_bytes)
                    && a == GPUMemoryAllocation {
                        buffer_id: self.spec_free_blocks()[i].buffer_id,
                        size_bytes,
                        offset_bytes: self.spec_free_blocks()[i].offset_bytes,
                    })
                && after.spec_allocated() == self.spec_allocated() + size_bytes
                && after.spec_allocated_blocks() == self.spec_allocated_blocks().push(a),
            None => (size_bytes > self.spec_total() - self.spec_allocated()
                    || forall|i: int| 0 <= i < self.spec_free_blocks().len()
                        ==> #[trigger] self.spec_free_blocks()[i].size_bytes < size_bytes)
                && after.spec_allocated() == self.spec_allocated()
                && after.spec_allocated_blocks() == self.spec_allocated_blocks(),
        }
    }

    /// Reserves `size_bytes` at the start of the first free region that can
    /// hold them; `None` when the budget or every region is too small.
    /// Free regions are not shrunk by an allocation.
    pub fn allocate(&mut self, size_bytes: usize) -> (r: Option<GPUMemoryAllocation>)
        requires
            old(self).wf(),
        ensures
            final(self).wf(),
            final(self).spec_total() == old(self).spec_total(),
            final(self).spec_free_blocks() == old(self).spec_free_blocks(),
            old(self).allocates(*final(self), size_bytes, r),
    {
        if size_bytes > self.total_memory - self.allocated_memory {
            return None;
        }
        let mut i: usize = 0;
        while i < self.free_blocks.len()
            invariant
                self.wf(),
                *self == *old(self),
                size_bytes <= self.total_memory - self.allocated_memory,
                i <= self.free_blocks@.len(),
                forall|j: int| 0 <= j < i ==> #[trigger] self.free_blocks@[j].size_bytes < size_bytes,
            decreases self.free_blocks@.len() - i,
        {
            let block = self.free_blocks[i];
            if block.size_bytes >= size_bytes {
                let allocation = GPUMemoryAllocation::new(block.buffer_id, size_bytes, block.offset_bytes);
                proof {
                    let ii = i as int;
                    assert(0 <= ii < old(self).spec_free_blocks().len()
                        && old(self).spec_free_blocks()[ii].size_bytes >= size_bytes
                        && (forall|j: int| 0 <= j < ii ==> old(self).spec_free_blocks()[j].size_bytes < size_bytes));
                }
                self.allocated_blocks.push(allocation);
                self.allocated_memory = self.allocated_memory + size_bytes;
                return Some(allocation);
            }
            i = i + 1;
        }
        None
    }

    /// Releases an allocation: its size leaves the count in use (stopping at
    /// zero) and every live allocation of the same buffer is forgotten.
    pub fn deallocate(&mut self, allocation: &GPUMemoryAllocation)
        requires
            old(self).wf(),
        ensures
            old(self).deallocates(*final(self), *allocation),
    {
        self.allocated_memory = self.allocated_memory.saturating_sub(allocation.size_bytes);
        let mut kept: Vec<GPUMemoryAllocation> = Vec::new();
        let mut i: usize = 0;
        while i < self.allocated_blocks.len()
            invariant
                i <= self.allocated_blocks@.len(),
                self.allocated_blocks@ == old(self).allocated_blocks@,
                kept@ == without_buffer(self.allocated_blocks@.subrange(0, i as int), allocation.buffer_id),
            decreases self.allocated_blocks@.len() - i,
        {
            let b = self.allocated_blocks[i];
            proof {
                let s = self.allocated_blocks@.subrange(0, i + 1);
                assert(s.drop_last() =~= self.allocated_blocks@.subrange(0, i as int));
                reveal_with_fuel(Seq::filter, 1);
            }
            if b.buffer_id != allocation.buffer_id {
                kept.push(b);
            }
            i = i + 1;
        }
        proof {
            assert(self.allocated_blocks@.subrange(0, i as int) =~= self.allocated_blocks@);
        }
        self.allocated_blocks = kept;
    }

    /// Bytes in use and total bytes.
    pub fn memory_usage(&self) -> (r: (usize, usize))
        ensures
            r == (self.spec_allocated(), self.spec_total()),
    {
        (self.allocated_memory, self.total_memory)
    }
}

/// One item of a GPU batch.
#[derive(Clone, Debug)]
pub struct GPUBatchItem<T: Clone> {
    /// Item identifier
    pub id: String,
    /// Payload
    pub data: T,
    /// GPU memory the item needs, in bytes
    pub required_memory: usize,
}

impl<T: Clone> GPUBatchItem<T> {
    /// New batch item.
    pub fn new(id: String, data: T, required_memory: usize) -> (r: Self)
        ensures
            r.id == id,
            r.data == data,
            r.required_memory == required_memory,
    {
        GPUBatchItem { id, data, required_memory }
    }
}

/// Sum of the memory the items need.
pub open spec fn items_memory<T: Clone>(items: Seq<GPUBatchItem<T>>) -> int
    decreases items.len(),
{
    if items.len() == 0 {
        0
    } else {
        items_memory(items.drop_last()) + items.last().required_memory
    }
}

proof fn lemma_items_memory_prefix<T: Clone>(items: Seq<GPUBatchItem<T>>, n: int)
    requires
        0 <= n <= items.len(),
    ensures
        items_memory(items.subrange(0, n)) <= items_memory(items),
    decreases items.len() - n,
{
    if n < items.len() {
        lemma_items_memory_prefix(items, n + 1);
        assert(items.subrange(0, n + 1).drop_last() =~= items.subrange(0, n));
    } else {
        assert(items.subrange(0, n) =~= items);
    }
}

/// A batch of items submitted together with a priority.
#[derive(Clone, Debug)]
pub struct GPUBatchRequest<T: Clone> {
    /// Items of the batch
    pub items: Vec<GPUBatchItem<T>>,
    /// Priority (higher runs first)
    pub priority: u32,
    /// When the batch was made
    pub timestamp: Instant,
}

impl<T: Clone> GPUBatchRequest<T> {
    /// New request stamped with the current time.
    pub fn new(items: Vec<GPUBatchItem<T>>, priority: u32) -> (r: Self)
        ensures
            r.items@ == items@,
            r.priority == priority,
            r.timestamp.wf(),
    {
        GPUBatchRequest { items, priority, timestamp: Instant::now() }
    }

    /// New request with a given timestamp.
    pub fn with_timestamp(items: Vec<GPUBatchItem<T>>, priority: u32, timestamp: Instant) -> (r: Self)
        ensures
            r.items@ == items@,
            r.priority == priority,
            r.timestamp == timestamp,
    {
        GPUBatchRequest { items, priority, timestamp }
    }

    /// Memory the whole batch needs.
    pub fn total_memory_required(&self) -> (r: usize)
        requires
            items_memory(self.items@) <= usize::MAX,
        ensures
            r == items_memory(self.items@),
    {
        let mut acc: usize = 0;
        let mut i: usize = 0;
        while i < self.items.len()
            invariant
                i <= self.items@.len(),
                acc == items_memory(self.items@.subrange(0, i as int)),
                items_memory(self.items@) <= usize::MAX,
            decreases self.items@.len() - i,
        {
            proof {
                assert(self.items@.subrange(0, i + 1).drop_last() =~= self.items@.subrange(0, i as int));
                lemma_items_memory_prefix(self.items@, i + 1);
            }
            acc = acc + self.items[i].required_memory;
            i = i + 1;
        }
        proof {
            assert(self.items@.subrange(0, i as int) =~= self.items@);
        }
        acc
    }
}

/// A compute shader and its thread-group shape.
#[derive(Debug)]
pub struct GPUComputePipeline {
    /// Shader name
    pub shader_name: String,
    /// Thread-group size in each dimension
    pub thread_group_size: (u32, u32, u32),
    /// Features the pipeline uses
    pub features: Vec<String>,
}

/// Threads in one group of a pipeline.
pub open spec fn threads_per_group(size: (u32, u32, u32)) -> int {
    size.0 * size.1 * size.2
}

/// `batch_size` rounded up to a whole number of thread groups.
pub open spec fn rounded_threads(batch_size: int, per_group: int) -> int {
    ((batch_size + per_group - 1) / per_group) * per_group
}

impl GPUComputePipeline {
    /// New pipeline with no features.
    pub fn new(shader_name: String, thread_group_size: (u32, u32, u32)) -> (r: Self)
        ensures
            r.shader_name == shader_name,
            r.thread_group_size == thread_group_size,
            r.features@.len() == 0,
    {
        GPUComputePipeline { shader_name, thread_group_size, features: Vec::new() }
    }

    /// The pipeline with its features replaced.
    pub fn with_features(self, features: Vec<String>) -> (r: Self)
        ensures
            r.shader_name == self.shader_name,
            r.thread_group_size == self.thread_group_size,
            r.features@ == features@,
    {
        let mut p = self;
        p.features = features;
        p
    }

    /// Threads to launch for `batch_size` items: the batch rounded up to a
    /// whole number of thread groups.
    pub fn recommended_threads(&self, batch_size: usize) -> (r: usize)
        requires
            0 < threads_per_group(self.thread_group_size) <= usize::MAX,
            rounded_threads(batch_size as int, threads_per_group(self.thread_group_size)) <= usize::MAX,
        ensures
            r == rounded_threads(batch_size as int, threads_per_group(self.thread_group_size)),
            r >= batch_size,
    {
        let (x, y, z) = self.thread_group_size;
        proof {
            assert((x as int) * (y as int) * (z as int) <= 0x1_0000_0000_0000_0000_0000_0000) by (nonlinear_arith)
                requires x <= 0xffff_ffff, y <= 0xffff_ffff, z <= 0xffff_ffff;
        }
        proof {
            assert((x as int) * (y as int) <= 0xffff_ffff_ffff_ffff) by (nonlinear_arith)
                requires x <= 0xffff_ffff, y <= 0xffff_ffff;
        }
        let xy: u128 = (x as u128) * (y as u128);
        let per_group128: u128 = xy * (z as u128);
        let per_group: usize = per_group128 as usize;
        let extra: usize = if batch_size % per_group != 0 { 1 } else { 0 };
        proof {
            let b = batch_size as int;
            let g = per_group as int;
            assert(b / g + extra <= usize::MAX) by (nonlinear_arith)
                requires g > 0, 0 <= b <= usize::MAX, extra == if b % g != 0 { 1int } else { 0int };
        }
        let groups = batch_size / per_group + extra;
        proof {
            let b = batch_size as int;
            let g = per_group as int;
            assert(groups == (b + g - 1) / g) by (nonlinear_arith)
                requires g > 0, b >= 0, groups == b / g + if b % g != 0 { 1int } else { 0int };
            assert(groups * g >= b) by (nonlinear_arith)
                requires g > 0, b >= 0, groups == (b + g - 1) / g;
        }
        groups * per_group
    }
}


/// `a` runs before `b`: it has the higher priority, or the same priority and
/// the earlier timestamp.
pub open spec fn runs_before<T: Clone>(a: GPUBatchRequest<T>, b: GPUBatchRequest<T>) -> bool {
    ||| a.priority > b.priority
    ||| (a.priority == b.priority && a.timestamp.spec_since_epoch().total_nanos()
        < b.timestamp.spec_since_epoch().total_nanos())
}

/// `p` is where `x` goes in `s`: after every request that `x` does not run
/// before, and before the first one that it does.
pub open spec fn is_insert_pos<T: Clone>(s: Seq<GPUBatchRequest<T>>, x: GPUBatchRequest<T>, p: int) -> bool {
    &&& 0 <= p <= s.len()
    &&& forall|k: int| 0 <= k < p ==> !runs_before(x, #[trigger] s[k])
    &&& p < s.len() ==> runs_before(x, s[p])
}

/// The requests in the order they run: by priority, highest first, then by
/// timestamp; requests that tie keep their queue order.
pub open spec fn run_order<T: Clone>(s: Seq<GPUBatchRequest<T>>) -> Seq<GPUBatchRequest<T>>
    decreases s.len(),
{
    if s.len() == 0 {
        s
    } else {
        let r = run_order(s.drop_last());
        r.insert(choose|p: int| is_insert_pos(r, s.last(), p), s.last())
    }
}

/// `s` is in run order: no request runs before one ahead of it.
pub open spec fn in_run_order<T: Clone>(s: Seq<GPUBatchRequest<T>>) -> bool {
    forall|i: int, j: int| 0 <= i < j < s.len() ==> !runs_before(#[trigger] s[j], #[trigger] s[i])
}

/// There is one place for `x` in `s`.
proof fn lemma_insert_pos_unique<T: Clone>(s: Seq<GPUBatchRequest<T>>, x: GPUBatchRequest<T>, p: int, q: int)
    requires
        is_insert_pos(s, x, p),
        is_insert_pos(s, x, q),
    ensures
        p == q,
{
    if p < q {
        assert(!runs_before(x, s[p]));
    }
    if q < p {
        assert(!runs_before(x, s[q]));
    }
}

/// A place exists for `x` in a sequence in run order, and inserting `x`
/// there keeps the order and adds `x` to the contents.
proof fn lemma_insert_in_order<T: Clone>(s: Seq<GPUBatchRequest<T>>, x: GPUBatchRequest<T>)
    requires
        in_run_order(s),
    ensures
        exists|p: int| is_insert_pos(s, x, p),
        in_run_order(s.insert(choose|p: int| is_insert_pos(s, x, p), x)),
        s.insert(choose|p: int| is_insert_pos(s, x, p), x).to_multiset() == s.to_multiset().insert(x),
    decreases s.len(),
{
    broadcast use vstd::multiset::group_multiset_axioms;
    broadcast use vstd::seq_lib::group_to_multiset_ensures;

    lemma_insert_pos_exists(s, x, 0);
    let p = choose|p: int| is_insert_pos(s, x, p);
    let t = s.insert(p, x);
    s.insert_ensures(p, x);
    assert forall|i: int, j: int| 0 <= i < j < t.len() implies !runs_before(#[trigger] t[j], #[trigger] t[i]) by {
        if j < p {
            assert(t[i] == s[i] && t[j] == s[j]);
        } else if j == p {
            assert(t[i] == s[i]);
        } else if i == p {
            assert(t[j] == s[j - 1]);
            assert(runs_before(x, s[p]));
            if j - 1 > p {
                assert(!runs_before(s[j - 1], s[p]));
            }
        } else if i < p {
            assert(t[i] == s[i] && t[j] == s[j - 1]);
        } else {
            assert(t[i] == s[i - 1] && t[j] == s[j - 1]);
        }
    }
    assert(t.remove(p) =~= s);
    assert(t.to_multiset().remove(x) == s.to_multiset());
    assert(t.to_multiset() =~= s.to_multiset().insert(x));
}

/// Scanning from `from`, past requests that `x` does not run before, finds
/// its place.
proof fn lemma_insert_pos_exists<T: Clone>(s: Seq<GPUBatchRequest<T>>, x: GPUBatchRequest<T>, from: int)
    requires
        0 <= from <= s.len(),
        forall|k: int| 0 <= k < from ==> !runs_before(x, #[trigger] s[k]),
    ensures
        exists|p: int| is_insert_pos(s, x, p),
    decreases s.len() - from,
{
    if from == s.len() || runs_before(x, s[from]) {
        assert(is_insert_pos(s, x, from));
    } else {
        lemma_insert_pos_exists(s, x, from + 1);
    }
}

/// The run order holds the queued requests, each as often as it was queued,
/// and is in run order.
pub proof fn lemma_run_order<T: Clone>(s: Seq<GPUBatchRequest<T>>)
    ensures
        in_run_order(run_order(s)),
        run_order(s).to_multiset() == s.to_multiset(),
    decreases s.len(),
{
    broadcast use vstd::seq_lib::group_to_multiset_ensures;

    if s.len() == 0 {
        assert(s.to_multiset() =~= Multiset::empty());
    } else {
        lemma_run_order(s.drop_last());
        lemma_insert_in_order(run_order(s.drop_last()), s.last());
        assert(s.drop_last().push(s.last()) =~= s);
    }
}

/// The request handed out next runs no later than any queued request, and
/// the requests left behind are the queued ones without it.
pub proof fn lemma_next_batch_runs_first<T: Clone>(q: Seq<GPUBatchRequest<T>>)
    requires
        q.len() > 0,
    ensures
        forall|i: int| 0 <= i < q.len() ==> !runs_before(#[trigger] q[i], run_order(q)[0]),
        run_order(q).drop_first().to_multiset() == q.to_multiset().remove(run_order(q)[0]),
{
    broadcast use vstd::seq_lib::group_to_multiset_ensures;
    broadcast use vstd::multiset::group_multiset_axioms;

    let r = run_order(q);
    lemma_run_order(q);
    assert(r.to_multiset().len() == q.to_multiset().len());
    assert(r.len() == q.len());
    assert forall|i: int| 0 <= i < q.len() implies !runs_before(#[trigger] q[i], r[0]) by {
        assert(q.to_multiset().count(q[i]) > 0);
        assert(r.contains(q[i]));
        let j = choose|j: int| 0 <= j < r.len() && r[j] == q[i];
        if j > 0 {
            assert(!runs_before(r[j], r[0]));
        }
    }
    assert(r.remove(0) =~= r.drop_first());
}

/// Where `x` goes in `v`.
fn insert_position<T: Clone>(v: &Vec<GPUBatchRequest<T>>, x: &GPUBatchRequest<T>) -> (r: usize)
    ensures
        is_insert_pos(v@, *x, r as int),
{
    let mut j: usize = 0;
    while j < v.len()
        invariant
            j <= v@.len(),
            forall|k: int| 0 <= k < j ==> !runs_before(*x, #[trigger] v@[k]),
        decreases v@.len() - j,
    {
        let b = &v[j];
        if x.priority > b.priority || (x.priority == b.priority && x.timestamp.is_before(&b.timestamp)) {
            return j;
        }
        j = j + 1;
    }
    j
}

/// The requests of `items` rearranged into run order.
fn sort_by_run_order<T: Clone>(items: Vec<GPUBatchRequest<T>>) -> (r: Vec<GPUBatchRequest<T>>)
    ensures
        r@ == run_order(items@),
{
    let ghost all = items@;
    let n = items.len();
    let mut rest = items;
    let mut sorted: Vec<GPUBatchRequest<T>> = Vec::new();
    let mut i: usize = 0;
    while rest.len() > 0
        invariant
            i + rest@.len() == all.len(),
            all.len() == n,
            rest@ == all.skip(i as int),
            sorted@ == run_order(all.take(i as int)),
        decreases rest@.len(),
    {
        let x = rest.remove(0);
        let p = insert_position(&sorted, &x);
        proof {
            let pre = all.take(i as int);
            let post = all.take(i + 1);
            assert(post.drop_last() =~= pre);
            assert(post.last() == x);
            let q = choose|q: int| is_insert_pos(run_order(pre), x, q);
            lemma_insert_pos_unique(run_order(pre), x, p as int, q);
        }
        sorted.insert(p, x);
        i = i + 1;
        proof {
            assert(rest@ =~= all.skip(i as int));
        }
    }
    proof {
        assert(all.take(i as int) =~= all);
    }
    sorted
}

/// Output of a batch: the data of its items, concatenated in order.
pub open spec fn batch_output(items: Seq<GPUBatchItem<Vec<u8>>>) -> Seq<u8>
    decreases items.len(),
{
    if items.len() == 0 {
        Seq::empty()
    } else {
        batch_output(items.drop_last()) + items.last().data@
    }
}

/// Concatenates the data of the batch's items, in order.
pub fn concat_batch_data(batch: &GPUBatchRequest<Vec<u8>>) -> (r: Vec<u8>)
    ensures
        r@ == batch_output(batch.items@),
{
    let mut out: Vec<u8> = Vec::new();
    let mut i: usize = 0;
    while i < batch.items.len()
        invariant
            i <= batch.items@.len(),
            out@ == batch_output(batch.items@.take(i as int)),
        decreases batch.items@.len() - i,
    {
        let data = &batch.items[i].data;
        let ghost before = out@;
        let mut k: usize = 0;
        while k < data.len()
            invariant
                k <= data@.len(),
                out@ == before + data@.take(k as int),
            decreases data@.len() - k,
        {
            out.push(data[k]);
            k = k + 1;
            proof {
                assert(out@ =~= before + data@.take(k as int));
            }
        }
        proof {
            let post = batch.items@.take(i + 1);
            assert(post.drop_last() =~= batch.items@.take(i as int));
            assert(data@.take(k as int) =~= data@);
        }
        i = i + 1;
    }
    proof {
        assert(batch.items@.take(i as int) =~= batch.items@);
    }
    out
}

/// Queues GPU batch requests against a memory budget and hands them out in
/// run order.
#[derive(Debug)]
pub struct GPUBatchScheduler {
    memory_pool: GPUMemoryPool,
    pipeline: GPUComputePipeline,
    max_queue_size: usize,
    queue: Vec<GPUBatchRequest<Vec<u8>>>,
}

impl GPUBatchScheduler {
    /// The queued requests, oldest first.
    pub closed spec fn queued(&self) -> Seq<GPUBatchRequest<Vec<u8>>> {
        self.queue@
    }

    /// The memory budget.
    pub closed spec fn pool(&self) -> GPUMemoryPool {
        self.memory_pool
    }

    /// The compute pipeline.
    pub closed spec fn spec_pipeline(&self) -> GPUComputePipeline {
        self.pipeline
    }

    /// Most requests the queue holds.
    pub closed spec fn capacity(&self) -> usize {
        self.max_queue_size
    }

    /// Well-formedness: the pool is consistent and the capacity is 100.
    pub open spec fn wf(&self) -> bool {
        self.pool().wf() && self.capacity() == 100
    }

    /// Scheduler with an empty queue and `total_gpu_memory` bytes of budget.
    pub fn new(total_gpu_memory: usize, pipeline: GPUComputePipeline) -> (r: Self)
        ensures
            r.wf(),
            r.queued().len() == 0,
            r.pool().spec_total() == total_gpu_memory,
            r.pool().spec_allocated() == 0,
    {
        GPUBatchScheduler {
            memory_pool: GPUMemoryPool::new(total_gpu_memory),
            pipeline,
            max_queue_size: 100,
            queue: Vec::new(),
        }
    }

    /// Queues `request` unless the queue is full or the budget cannot hold
    /// it besides the memory in use.
    pub fn schedule_batch(&mut self, request: GPUBatchRequest<Vec<u8>>) -> (r: Result<String, String>)
        requires
            old(self).wf(),
            items_memory(request.items@) <= usize::MAX,
        ensures
            final(self).wf(),
            final(self).pool() == old(self).pool(),
            final(self).spec_pipeline() == old(self).spec_pipeline(),
            old(self).queued().len() >= 100 ==> (r matches Err(m) && m@ == "Queue is full"@
                && final(self).queued() == old(self).queued()),
            old(self).queued().len() < 100 && old(self).pool().spec_allocated() + items_memory(request.items@)
                > old(self).pool().spec_total() ==> (r matches Err(m) && m@ == "Insufficient GPU memory"@
                && final(self).queued() == old(self).queued()),
            old(self).queued().len() < 100 && old(self).pool().spec_allocated() + items_memory(request.items@)
                <= old(self).pool().spec_total() ==> (r matches Ok(m) && m@ == "Batch scheduled"@
                && final(self).queued() == old(self).queued().push(request)),
    {
        if self.queue.len() >= self.max_queue_size {
            return Err(crate::error::text("Queue is full"));
        }
        let required_memory = request.total_memory_required();
        let (used, total) = self.memory_pool.memory_usage();
        if required_memory > total - used {
            return Err(crate::error::text("Insufficient GPU memory"));
        }
        self.queue.push(request);
        Ok(crate::error::text("Batch scheduled"))
    }

    /// How taking the next batch takes the scheduler from `self` to `after`
    /// with result `r`: an empty queue gives nothing and stays; otherwise
    /// the first request in run order comes out and the rest stay queued in
    /// run order. The budget, the capacity and the pipeline do not change.
    pub open spec fn next_batch_step(self, after: Self, r: Option<GPUBatchRequest<Vec<u8>>>) -> bool {
        &&& after.pool() == self.pool()
        &&& after.capacity() == self.capacity()
        &&& after.spec_pipeline() == self.spec_pipeline()
        &&& self.queued().len() == 0 ==> r is None && after.queued() == self.queued()
        &&& self.queued().len() > 0 ==> (r matches Some(b) && b == run_order(self.queued())[0]
            && after.queued() == run_order(self.queued()).drop_first())
    }

    /// Takes the request that runs first; the rest stay queued in run order.
    pub fn get_next_batch(&mut self) -> (r: Option<GPUBatchRequest<Vec<u8>>>)
        ensures
            old(self).next_batch_step(*final(self), r),
    {
        let mut items: Vec<GPUBatchRequest<Vec<u8>>> = Vec::new();
        std::mem::swap(&mut items, &mut self.queue);
        let mut sorted = sort_by_run_order(items);
        proof {
            broadcast use vstd::seq_lib::group_to_multiset_ensures;
            lemma_run_order(old(self).queued());
            if old(self).queued().len() == 0 {
                assert(old(self).queued() =~= Seq::<GPUBatchRequest<Vec<u8>>>::empty());
            }
            if old(self).queued().len() > 0 {
                assert(sorted@.len() > 0) by {
                    assert(old(self).queued().to_multiset().len() > 0);
                }
            }
        }
        if sorted.len() > 0 {
            let batch = sorted.remove(0);
            self.queue = sorted;
            proof {
                assert(self.queue@ =~= run_order(old(self).queued()).drop_first());
            }
            Some(batch)
        } else {
            self.queue = sorted;
            None
        }
    }

    /// Bytes in use and total bytes of the budget.
    pub fn get_memory_usage(&self) -> (r: (usize, usize))
        ensures
            r == (self.pool().spec_allocated(), self.pool().spec_total()),
    {
        self.memory_pool.memory_usage()
    }

    /// Number of queued requests.
    pub fn get_queue_size(&self) -> (r: usize)
        ensures
            r == self.queued().len(),
    {
        self.queue.len()
    }

    /// The compute pipeline.
    pub fn get_pipeline(&self) -> (r: &GPUComputePipeline)
        ensures
            *r == self.spec_pipeline(),
    {
        &self.pipeline
    }

    /// Takes `size` bytes from the budget.
    pub fn allocate_memory(&mut self, size: usize) -> (r: Option<GPUMemoryAllocation>)
        requires
            old(self).wf(),
        ensures
            final(self).wf(),
            final(self).queued() == old(self).queued(),
            final(self).spec_pipeline() == old(self).spec_pipeline(),
            final(self).pool().spec_total() == old(self).pool().spec_total(),
            final(self).pool().spec_free_blocks() == old(self).pool().spec_free_blocks(),
            old(self).pool().allocates(final(self).pool(), size, r),
    {
        self.memory_pool.allocate(size)
    }

    /// Returns an allocation to the budget.
    pub fn deallocate_memory(&mut self, allocation: &GPUMemoryAllocation)
        requires
            old(self).wf(),
        ensures
            final(self).wf(),
            final(self).queued() == old(self).queued(),
            final(self).spec_pipeline() == old(self).spec_pipeline(),
            final(self).pool().spec_total() == old(self).pool().spec_total(),
            final(self).pool().spec_allocated() == if old(self).pool().spec_allocated() >= allocation.size_bytes {
                old(self).pool().spec_allocated() - allocation.size_bytes
            } else {
                0
            },
            final(self).pool().spec_allocated_blocks() == without_buffer(
                old(self).pool().spec_allocated_blocks(),
                allocation.buffer_id,
            ),
    {
        self.memory_pool.deallocate(allocation);
    }
}

/// Taking the next batch hands out nothing exactly when the queue is empty;
/// otherwise it hands out a queued request of the highest priority, the one
/// with the earliest timestamp among requests of that priority, and leaves
/// exactly the other queued requests, one fewer than before.
pub proof fn lemma_take_highest_priority(before: GPUBatchScheduler, after: GPUBatchScheduler, r: Option<GPUBatchRequest<Vec<u8>>>)
    requires
        before.next_batch_step(after, r),
    ensures
        r is None <==> before.queued().len() == 0,
        r matches Some(b) ==> {
            &&& before.queued().to_multiset().count(b) > 0
            &&& forall|i: int| 0 <= i < before.queued().len() ==> (#[trigger] before.queued()[i]).priority <= b.priority
            &&& forall|i: int| 0 <= i < before.queued().len() && (#[trigger] before.queued()[i]).priority == b.priority
                ==> b.timestamp.spec_since_epoch().total_nanos()
                    <= before.queued()[i].timestamp.spec_since_epoch().total_nanos()
            &&& after.queued().to_multiset() == before.queued().to_multiset().remove(b)
            &&& after.queued().len() + 1 == before.queued().len()
        },
{
    broadcast use vstd::seq_lib::group_to_multiset_ensures;
    broadcast use vstd::multiset::group_multiset_axioms;

    let q = before.queued();
    if q.len() > 0 {
        lemma_run_order(q);
        lemma_next_batch_runs_first(q);
        let b = run_order(q)[0];
        assert(run_order(q).len() == q.len()) by {
            assert(run_order(q).to_multiset().len() == q.to_multiset().len());
        }
        assert(run_order(q).contains(b));
        assert(q.to_multiset().count(b) > 0);
        assert forall|i: int| 0 <= i < q.len() implies (#[trigger] q[i]).priority <= b.priority by {
            assert(!runs_before(q[i], b));
        }
        assert forall|i: int| 0 <= i < q.len() && (#[trigger] q[i]).priority == b.priority
            implies b.timestamp.spec_since_epoch().total_nanos() <= q[i].timestamp.spec_since_epoch().total_nanos() by {
            assert(!runs_before(q[i], b));
        }
        assert(after.queued().to_multiset().len() == q.to_multiset().remove(b).len());
    }
}

/// One call on a GPU memory pool and what it gave back.
pub enum PoolCall {
    /// `allocate(size_bytes)` and its result
    Allocate(usize, Option<GPUMemoryAllocation>),
    /// `deallocate(&allocation)`
    Deallocate(GPUMemoryAllocation),
}

/// How a call takes a pool from `a` to `b`, as `allocate` and `deallocate`
/// state it.
pub open spec fn pool_step(a: GPUMemoryPool, b: GPUMemoryPool, c: PoolCall) -> bool {
    match c {
        PoolCall::Allocate(size_bytes, r) => b.wf() && b.spec_total() == a.spec_total()
            && b.spec_free_blocks() == a.spec_free_blocks() && a.allocates(b, size_bytes, r),
        PoolCall::Deallocate(allocation) => a.deallocates(b, allocation),
    }
}

/// Over any sequence of calls on a pool made by `new`: the bytes in use
/// never exceed the total; an allocation succeeds exactly when the bytes
/// still free hold it, and then hands out that many bytes at the start of
/// the budget and counts them as used; a failed allocation changes nothing
/// in use.
pub proof fn lemma_pool_calls(pools: Seq<GPUMemoryPool>, calls: Seq<PoolCall>)
    requires
        pools.len() == calls.len() + 1,
        pools[0].wf(),
        pools[0].fresh_regions(),
        forall|i: int| 0 <= i < calls.len() ==> #[trigger] pool_step(pools[i], pools[i + 1], calls[i]),
    ensures
        forall|i: int| 0 <= i < pools.len() ==> (#[trigger] pools[i]).wf() && pools[i].fresh_regions()
            && pools[i].spec_total() == pools[0].spec_total(),
        forall|i: int| 0 <= i < calls.len() ==> (#[trigger] calls[i] matches PoolCall::Allocate(size_bytes, r) ==> {
            &&& r is Some <==> size_bytes <= pools[i].spec_total() - pools[i].spec_allocated()
            &&& r matches Some(a) ==> a == (GPUMemoryAllocation { buffer_id: 0, size_bytes, offset_bytes: 0 })
                && pools[i + 1].spec_allocated() == pools[i].spec_allocated() + size_bytes
            &&& r is None ==> pools[i + 1].spec_allocated() == pools[i].spec_allocated()
        }),
    decreases calls.len(),
{
    if calls.len() > 0 {
        let k = calls.len() - 1;
        let ps = pools.drop_last();
        let cs = calls.drop_last();
        assert forall|i: int| 0 <= i < cs.len() implies #[trigger] pool_step(ps[i], ps[i + 1], cs[i]) by {
            assert(pool_step(pools[i], pools[i + 1], calls[i]));
        }
        lemma_pool_calls(ps, cs);
        assert(ps[k] == pools[k]);
        assert(pool_step(pools[k], pools[k + 1], calls[k]));
        let p = pools[k];
        assert(p.wf() && p.fresh_regions() && p.spec_total() == pools[0].spec_total());
        assert(p.spec_free_blocks().len() == 1);
        assert(p.spec_free_blocks()[0].size_bytes == p.spec_total());
        assert forall|i: int| 0 <= i < pools.len() implies (#[trigger] pools[i]).wf() && pools[i].fresh_regions()
            && pools[i].spec_total() == pools[0].spec_total() by {
            if i < k + 1 {
                assert(ps[i] == pools[i]);
            }
        }
        assert forall|i: int| 0 <= i < calls.len() implies (#[trigger] calls[i] matches PoolCall::Allocate(size_bytes, r) ==> {
            &&& r is Some <==> size_bytes <= pools[i].spec_total() - pools[i].spec_allocated()
            &&& r matches Some(a) ==> a == (GPUMemoryAllocation { buffer_id: 0, size_bytes, offset_bytes: 0 })
                && pools[i + 1].spec_allocated() == pools[i].spec_allocated() + size_bytes
            &&& r is None ==> pools[i + 1].spec_allocated() == pools[i].spec_allocated()
        }) by {
            if i < k {
                assert(ps[i] == pools[i] && ps[i + 1] == pools[i + 1] && cs[i] == calls[i]);
            } else {
                if let PoolCall::Allocate(size_bytes, r) = calls[i] {
                    if size_bytes <= p.spec_total() - p.spec_allocated() {
                        assert(p.spec_free_blocks()[0].size_bytes >= size_bytes);
                    }
                }
            }
        }
    }
}

} // verus!
