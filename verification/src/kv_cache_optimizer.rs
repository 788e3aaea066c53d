//! Key-value caches of attention layers: per-layer buffers that tokens'
//! keys and values are appended to and read back from. Each element is the
//! IEEE-754 bit pattern of an `f32`; the caches only copy elements.
use vstd::prelude::*;

use crate::error::{text, MinervaError, MinervaResult};

verus! {

/// A half-open range `[start, end)` of cache positions.
#[derive(Debug, Clone, Copy, PartialEq, Eq, Structural)]
pub struct CacheRange {
    /// Start index
    pub start: usize,
    /// End index (exclusive)
    pub end: usize,
}

impl CacheRange {
    /// New range.
    pub fn new(start: usize, end: usize) -> (r: Self)
        ensures
            r == (CacheRange { start, end }),
    {
        CacheRange { start, end }
    }
}

/// Keys and values of new tokens, to be appended to a layer's cache.
#[derive(Debug)]
pub struct KVPair<'a> {
    /// Key elements
    pub keys: &'a [u32],
    /// Value elements
    pub values: &'a [u32],
}

impl<'a> KVPair<'a> {
    /// Pair of `keys` and `values`.
    pub fn new(keys: &'a [u32], values: &'a [u32]) -> (r: Self)
        ensures
            r.keys@ == keys@,
            r.values@ == values@,
    {
        KVPair { keys, values }
    }
}

/// `buf` with `new` written over it from position `at`.
pub open spec fn written_at(buf: Seq<u32>, at: int, new: Seq<u32>) -> Seq<u32> {
    buf.take(at) + new + buf.skip(at + new.len())
}

/// Size of an `f32`, in bytes.
pub open spec fn f32_bytes() -> int {
    4
}

/// The cache of one layer: fixed-size key and value buffers filled from the
/// front up to `seq_len`.
#[derive(Debug, Clone)]
pub struct LayerKVCache {
    /// Key buffer
    pub keys: Vec<u32>,
    /// Value buffer
    pub values: Vec<u32>,
    /// Elements filled
    pub seq_len: usize,
    /// Longest sequence the cache is meant for
    pub max_seq_len: usize,
}

/// `n` zero elements.
fn zeros(n: usize) -> (r: Vec<u32>)
    ensures
        r@ == Seq::new(n as nat, |i: int| 0u32),
{
    let mut v: Vec<u32> = Vec::new();
    let mut i: usize = 0;
    while i < n
        invariant
            i <= n,
            v@ == Seq::new(i as nat, |k: int| 0u32),
        decreases n - i,
    {
        v.push(0);
        i = i + 1;
        proof {
            assert(v@ =~= Seq::new(i as nat, |k: int| 0u32));
        }
    }
    v
}

impl LayerKVCache {
    /// Well-formedness: the filled part lies within both buffers, and the
    /// buffers' bytes fit in memory.
    pub open spec fn wf(&self) -> bool {
        &&& self.seq_len <= self.keys@.len()
        &&& self.seq_len <= self.values@.len()
        &&& (self.keys@.len() + self.values@.len()) * f32_bytes() <= usize::MAX
    }

    /// Empty cache with buffers of `cache_size` zeros.
    pub fn new(max_seq_len: usize, cache_size: usize) -> (r: Self)
        requires
            cache_size * 2 * f32_bytes() <= usize::MAX,
        ensures
            r.wf(),
            r.keys@ == Seq::new(cache_size as nat, |i: int| 0u32),
            r.values@ == Seq::new(cache_size as nat, |i: int| 0u32),
            r.seq_len == 0,
            r.max_seq_len == max_seq_len,
    {
        LayerKVCache { keys: zeros(cache_size), values: zeros(cache_size), seq_len: 0, max_seq_len }
    }

    /// Appends `new_keys` and `new_values` after the filled part.
    pub fn append(&mut self, new_keys: &[u32], new_values: &[u32]) -> (r: MinervaResult<()>)
        requires
            old(self).wf(),
        ensures
            final(self).wf(),
            final(self).max_seq_len == old(self).max_seq_len,
            final(self).keys@.len() == old(self).keys@.len(),
            final(self).values@.len() == old(self).values@.len(),
            new_keys@.len() != new_values@.len() ==> (r matches Err(MinervaError::InferenceError(m))
                && m@ == "Keys and values size mismatch"@ && *final(self) == *old(self)),
            new_keys@.len() == new_values@.len() && old(self).seq_len + new_keys@.len() > old(
                self,
            ).keys@.len() ==> (r matches Err(MinervaError::InferenceError(m)) && m@
                == "KV cache exceeded maximum size"@ && *final(self) == *old(self)),
            new_keys@.len() == new_values@.len() && old(self).seq_len + new_keys@.len() <= old(
                self,
            ).keys@.len() && old(self).seq_len + new_keys@.len() > old(self).values@.len() ==> (r matches Err(
                MinervaError::InferenceError(m),
            ) && m@ == "KV cache exceeded maximum size"@ && *final(self) == *old(self)),
            new_keys@.len() == new_values@.len() && old(self).seq_len + new_keys@.len() <= old(
                self,
            ).keys@.len() && old(self).seq_len + new_keys@.len() <= old(self).values@.len() ==> (r is Ok
                && final(self).seq_len == old(self).seq_len + new_keys@.len() && final(self).keys@
                == written_at(old(self).keys@, old(self).seq_len as int, new_keys@) && final(self).values@
                == written_at(old(self).values@, old(self).seq_len as int, new_values@)),
    {
        if new_keys.len() != new_values.len() {
            return Err(MinervaError::InferenceError(text("Keys and values size mismatch")));
        }
        let token_size = new_keys.len();
        if token_size > self.keys.len() - self.seq_len || token_size > self.values.len() - self.seq_len {
            return Err(MinervaError::InferenceError(text("KV cache exceeded maximum size")));
        }
        let start = self.seq_len;
        let ghost old_keys = self.keys@;
        let ghost old_values = self.values@;
        let mut k: usize = 0;
        while k < token_size
            invariant
                k <= token_size,
                start + token_size <= usize::MAX,
                self.seq_len == start,
                self.max_seq_len == old(self).max_seq_len,
                token_size == new_keys@.len(),
                token_size == new_values@.len(),
                start + token_size <= self.keys@.len(),
                start + token_size <= self.values@.len(),
                self.keys@.len() == old_keys.len(),
                self.values@.len() == old_values.len(),
                self.keys@ == written_at(old_keys, start as int, new_keys@.take(k as int)),
                self.values@ == written_at(old_values, start as int, new_values@.take(k as int)),
            decreases token_size - k,
        {
            self.keys.set(start + k, new_keys[k]);
            self.values.set(start + k, new_values[k]);
            k = k + 1;
            proof {
                assert(self.keys@ =~= written_at(old_keys, start as int, new_keys@.take(k as int)));
                assert(self.values@ =~= written_at(old_values, start as int, new_values@.take(k as int)));
            }
        }
        proof {
            assert(new_keys@.take(k as int) =~= new_keys@);
            assert(new_values@.take(k as int) =~= new_values@);
        }
        self.seq_len = start + token_size;
        Ok(())
    }

    /// Elements `start..end` of `buf`, if the range is nonempty and filled.
    fn read_range(buf: &Vec<u32>, seq_len: usize, start: usize, end: usize) -> (r: MinervaResult<Vec<u32>>)
        requires
            seq_len <= buf@.len(),
        ensures
            end > seq_len || start >= end ==> (r matches Err(MinervaError::InferenceError(m)) && m@
                == "Invalid cache range"@),
            end <= seq_len && start < end ==> (r matches Ok(v) && v@ == buf@.subrange(start as int, end as int)),
    {
        if end > seq_len || start >= end {
            return Err(MinervaError::InferenceError(text("Invalid cache range")));
        }
        let mut out: Vec<u32> = Vec::new();
        let mut i: usize = start;
        while i < end
            invariant
                start <= i <= end,
                end <= buf@.len(),
                out@ == buf@.subrange(start as int, i as int),
            decreases end - i,
        {
            out.push(buf[i]);
            i = i + 1;
            proof {
                assert(out@ =~= buf@.subrange(start as int, i as int));
            }
        }
        Ok(out)
    }

    /// Keys at positions `start..end`.
    pub fn get_keys(&self, start: usize, end: usize) -> (r: MinervaResult<Vec<u32>>)
        requires
            self.wf(),
        ensures
            end > self.seq_len || start >= end ==> (r matches Err(MinervaError::InferenceError(m))
                && m@ == "Invalid cache range"@),
            end <= self.seq_len && start < end ==> (r matches Ok(v) && v@ == self.keys@.subrange(
                start as int,
                end as int,
            )),
    {
        Self::read_range(&self.keys, self.seq_len, start, end)
    }

    /// Values at positions `start..end`.
    pub fn get_values(&self, start: usize, end: usize) -> (r: MinervaResult<Vec<u32>>)
        requires
            self.wf(),
        ensures
            end > self.seq_len || start >= end ==> (r matches Err(MinervaError::InferenceError(m))
                && m@ == "Invalid cache range"@),
            end <= self.seq_len && start < end ==> (r matches Ok(v) && v@ == self.values@.subrange(
                start as int,
                end as int,
            )),
    {
        Self::read_range(&self.values, self.seq_len, start, end)
    }

    /// Marks the cache empty; the buffers keep their contents.
    pub fn clear(&mut self)
        ensures
            final(self).seq_len == 0,
            final(self).keys == old(self).keys,
            final(self).values == old(self).values,
            final(self).max_seq_len == old(self).max_seq_len,
    {
        self.seq_len = 0;
    }

    /// Bytes of the two buffers.
    pub fn memory_usage(&self) -> (r: usize)
        requires
            self.wf(),
        ensures
            r == (self.keys@.len() + self.values@.len()) * f32_bytes(),
    {
        (self.keys.len() + self.values.len()) * 4
    }
}

/// A read of the positions an append wrote gives back what was appended,
/// and the positions before them keep what they held.
pub proof fn lemma_read_after_append(buf: Seq<u32>, at: int, new: Seq<u32>)
    requires
        0 <= at,
        at + new.len() <= buf.len(),
    ensures
        written_at(buf, at, new).len() == buf.len(),
        written_at(buf, at, new).subrange(at, at + new.len()) == new,
        written_at(buf, at, new).subrange(0, at) == buf.subrange(0, at),
{
    let w = written_at(buf, at, new);
    assert(w.subrange(at, at + new.len()) =~= new);
    assert(w.subrange(0, at) =~= buf.subrange(0, at));
}

/// The caches of all layers of a model, one per layer id.
#[derive(Debug)]
pub struct KVCacheManager {
    caches: Vec<LayerKVCache>,
    num_layers: usize,
    max_seq_len: usize,
    cache_size_per_layer: usize,
}

impl KVCacheManager {
    /// The layer caches, by layer id.
    pub closed spec fn layers(&self) -> Seq<LayerKVCache> {
        self.caches@
    }

    /// Number of layers.
    pub closed spec fn spec_num_layers(&self) -> usize {
        self.num_layers
    }

    /// Longest sequence each layer is meant for.
    pub closed spec fn spec_max_seq_len(&self) -> usize {
        self.max_seq_len
    }

    /// Elements in each layer's buffers.
    pub closed spec fn spec_cache_size(&self) -> usize {
        self.cache_size_per_layer
    }

    /// Well-formedness: one well-formed cache per layer, each with buffers of
    /// the per-layer size, and the bytes of all of them fit in memory.
    pub open spec fn wf(&self) -> bool {
        &&& self.layers().len() == self.spec_num_layers()
        &&& forall|i: int| 0 <= i < self.layers().len() ==> (#[trigger] self.layers()[i]).wf()
            && self.layers()[i].keys@.len() == self.spec_cache_size()
            && self.layers()[i].values@.len() == self.spec_cache_size()
        &&& self.spec_num_layers() * self.spec_cache_size() * 2 * f32_bytes() <= usize::MAX
    }

    /// Caches for `num_layers` layers, each with buffers of
    /// `max_seq_len * hidden_dim` elements.
    pub fn new(num_layers: usize, max_seq_len: usize, hidden_dim: usize) -> (r: Self)
        requires
            num_layers * (max_seq_len * hidden_dim) * 2 * f32_bytes() <= usize::MAX,
            max_seq_len * hidden_dim <= usize::MAX,
        ensures
            r.wf(),
            r.spec_num_layers() == num_layers,
            r.spec_max_seq_len() == max_seq_len,
            r.spec_cache_size() == max_seq_len * hidden_dim,
            forall|i: int| 0 <= i < num_layers ==> (#[trigger] r.layers()[i]).seq_len == 0
                && r.layers()[i].max_seq_len == max_seq_len,
    {
        let cache_size_per_layer = max_seq_len * hidden_dim;
        proof {
            if num_layers > 0 {
                assert(cache_size_per_layer * 2 * 4 <= num_layers * cache_size_per_layer * 2 * 4) by (nonlinear_arith)
                    requires num_layers >= 1, cache_size_per_layer >= 0;
            }
        }
        let mut caches: Vec<LayerKVCache> = Vec::new();
        let mut layer_id: usize = 0;
        while layer_id < num_layers
            invariant
                layer_id <= num_layers,
                caches@.len() == layer_id,
                num_layers > 0 ==> cache_size_per_layer * 2 * f32_bytes() <= usize::MAX,
                forall|i: int| 0 <= i < layer_id ==> (#[trigger] caches@[i]).wf()
                    && caches@[i].keys@.len() == cache_size_per_layer
                    && caches@[i].values@.len() == cache_size_per_layer
                    && caches@[i].seq_len == 0 && caches@[i].max_seq_len == max_seq_len,
            decreases num_layers - layer_id,
        {
            caches.push(LayerKVCache::new(max_seq_len, cache_size_per_layer));
            layer_id = layer_id + 1;
        }
        KVCacheManager { caches, num_layers, max_seq_len, cache_size_per_layer }
    }

    /// Number of layers.
    pub fn num_layers(&self) -> (r: usize)
        ensures
            r == self.spec_num_layers(),
    {
        self.num_layers
    }

    /// Longest sequence each layer is meant for.
    pub fn max_seq_len(&self) -> (r: usize)
        ensures
            r == self.spec_max_seq_len(),
    {
        self.max_seq_len
    }

    /// Appends the keys and values of `kv` to the cache of layer `layer_id`.
    pub fn add_layer_cache(&mut self, layer_id: usize, kv: KVPair) -> (r: MinervaResult<()>)
        requires
            old(self).wf(),
        ensures
            final(self).wf(),
            final(self).spec_num_layers() == old(self).spec_num_layers(),
            final(self).spec_max_seq_len() == old(self).spec_max_seq_len(),
            final(self).spec_cache_size() == old(self).spec_cache_size(),
            layer_id >= old(self).spec_num_layers() ==> (r matches Err(MinervaError::InferenceError(m))
                && m@ == "Layer ID "@ + crate::error::decimal_text(layer_id as nat) + " out of range"@
                && final(self).layers() == old(self).layers()),
            layer_id < old(self).spec_num_layers() ==> ({
                let c = old(self).layers()[layer_id as int];
                let c2 = final(self).layers()[layer_id as int];
                &&& final(self).layers() == old(self).layers().update(layer_id as int, c2)
                &&& (kv.keys@.len() != kv.values@.len() || c.seq_len + kv.keys@.len() > c.keys@.len()
                    ==> r is Err && c2 == c)
                &&& (kv.keys@.len() == kv.values@.len() && c.seq_len + kv.keys@.len() <= c.keys@.len()
                    ==> r is Ok && c2.seq_len == c.seq_len + kv.keys@.len()
                    && c2.keys@ == written_at(c.keys@, c.seq_len as int, kv.keys@)
                    && c2.values@ == written_at(c.values@, c.seq_len as int, kv.values@)
                    && c2.max_seq_len == c.max_seq_len)
            }),
    {
        if layer_id >= self.num_layers {
            return Err(
                MinervaError::InferenceError(
                    crate::error::text_with_number("Layer ID ", layer_id as u128, " out of range"),
                ),
            );
        }
        let ghost before = self.caches@;
        let mut cache = self.caches.remove(layer_id);
        let r = cache.append(kv.keys, kv.values);
        self.caches.insert(layer_id, cache);
        proof {
            assert(self.caches@ =~= before.update(layer_id as int, self.caches@[layer_id as int]));
            assert forall|i: int| 0 <= i < self.layers().len() implies (#[trigger] self.layers()[i]).wf()
                && self.layers()[i].keys@.len() == self.spec_cache_size()
                && self.layers()[i].values@.len() == self.spec_cache_size() by {
                if i != layer_id {
                    assert(self.layers()[i] == before[i]);
                }
            }
        }
        r
    }

    /// Keys of layer `layer_id` at the positions of `range`.
    pub fn get_cached_keys(&self, layer_id: usize, range: CacheRange) -> (r: MinervaResult<Vec<u32>>)
        requires
            self.wf(),
        ensures
            layer_id >= self.spec_num_layers() ==> (r matches Err(MinervaError::InferenceError(m))
                && m@ == "Cache not found"@),
            layer_id < self.spec_num_layers() ==> ({
                let c = self.layers()[layer_id as int];
                &&& (range.end > c.seq_len || range.start >= range.end ==> r is Err)
                &&& (range.end <= c.seq_len && range.start < range.end ==> (r matches Ok(v) && v@
                    == c.keys@.subrange(range.start as int, range.end as int)))
            }),
    {
        if layer_id >= self.caches.len() {
            return Err(MinervaError::InferenceError(text("Cache not found")));
        }
        self.caches[layer_id].get_keys(range.start, range.end)
    }

    /// Values of layer `layer_id` at the positions of `range`.
    pub fn get_cached_values(&self, layer_id: usize, range: CacheRange) -> (r: MinervaResult<Vec<u32>>)
        requires
            self.wf(),
        ensures
            layer_id >= self.spec_num_layers() ==> (r matches Err(MinervaError::InferenceError(m))
                && m@ == "Cache not found"@),
            layer_id < self.spec_num_layers() ==> ({
                let c = self.layers()[layer_id as int];
                &&& (range.end > c.seq_len || range.start >= range.end ==> r is Err)
                &&& (range.end <= c.seq_len && range.start < range.end ==> (r matches Ok(v) && v@
                    == c.values@.subrange(range.start as int, range.end as int)))
            }),
    {
        if layer_id >= self.caches.len() {
            return Err(MinervaError::InferenceError(text("Cache not found")));
        }
        self.caches[layer_id].get_values(range.start, range.end)
    }

    /// Elements filled in layer `layer_id`.
    pub fn seq_len(&self, layer_id: usize) -> (r: MinervaResult<usize>)
        requires
            self.wf(),
        ensures
            layer_id >= self.spec_num_layers() ==> (r matches Err(MinervaError::InferenceError(m))
                && m@ == "Cache not found"@),
            layer_id < self.spec_num_layers() ==> r == Ok::<usize, MinervaError>(
                self.layers()[layer_id as int].seq_len,
            ),
    {
        if layer_id >= self.caches.len() {
            return Err(MinervaError::InferenceError(text("Cache not found")));
        }
        Ok(self.caches[layer_id].seq_len)
    }

    /// Empties every layer.
    pub fn clear_all(&mut self)
        requires
            old(self).wf(),
        ensures
            final(self).wf(),
            final(self).spec_num_layers() == old(self).spec_num_layers(),
            final(self).spec_max_seq_len() == old(self).spec_max_seq_len(),
            final(self).spec_cache_size() == old(self).spec_cache_size(),
            forall|i: int| 0 <= i < final(self).layers().len() ==> (#[trigger] final(self).layers()[i]).seq_len
                == 0 && final(self).layers()[i].keys == old(self).layers()[i].keys
                && final(self).layers()[i].values == old(self).layers()[i].values
                && final(self).layers()[i].max_seq_len == old(self).layers()[i].max_seq_len,
    {
        let ghost before = self.caches@;
        let mut i: usize = 0;
        while i < self.caches.len()
            invariant
                i <= self.caches@.len(),
                self.caches@.len() == before.len(),
                self.num_layers == old(self).num_layers,
                self.max_seq_len == old(self).max_seq_len,
                self.cache_size_per_layer == old(self).cache_size_per_layer,
                before == old(self).caches@,
                old(self).wf(),
                forall|j: int| 0 <= j < before.len() ==> (#[trigger] self.caches@[j]).keys == before[j].keys
                    && self.caches@[j].values == before[j].values
                    && self.caches@[j].max_seq_len == before[j].max_seq_len
                    && (j < i ==> self.caches@[j].seq_len == 0)
                    && (j >= i ==> self.caches@[j].seq_len == before[j].seq_len),
            decreases self.caches@.len() - i,
        {
            let mut cache = self.caches.remove(i);
            cache.clear();
            self.caches.insert(i, cache);
            i = i + 1;
        }
        proof {
            assert forall|j: int| 0 <= j < self.layers().len() implies (#[trigger] self.layers()[j]).wf()
                && self.layers()[j].keys@.len() == self.spec_cache_size()
                && self.layers()[j].values@.len() == self.spec_cache_size() by {
                assert(before[j].wf());
            }
        }
    }

    /// Empties layer `layer_id`.
    pub fn clear_layer(&mut self, layer_id: usize) -> (r: MinervaResult<()>)
        requires
            old(self).wf(),
        ensures
            final(self).wf(),
            final(self).spec_num_layers() == old(self).spec_num_layers(),
            final(self).spec_max_seq_len() == old(self).spec_max_seq_len(),
            final(self).spec_cache_size() == old(self).spec_cache_size(),
            layer_id >= old(self).spec_num_layers() ==> (r matches Err(MinervaError::InferenceError(m))
                && m@ == "Cache not found"@ && final(self).layers() == old(self).layers()),
            layer_id < old(self).spec_num_layers() ==> r is Ok && final(self).layers() == old(
                self,
            ).layers().update(
                layer_id as int,
                LayerKVCache { seq_len: 0, ..old(self).layers()[layer_id as int] },
            ),
    {
        if layer_id >= self.caches.len() {
            return Err(MinervaError::InferenceError(text("Cache not found")));
        }
        let ghost before = self.caches@;
        let mut cache = self.caches.remove(layer_id);
        cache.clear();
        self.caches.insert(layer_id, cache);
        proof {
            assert(self.caches@ =~= before.update(
                layer_id as int,
                LayerKVCache { seq_len: 0, ..before[layer_id as int] },
            ));
            assert forall|i: int| 0 <= i < self.layers().len() implies (#[trigger] self.layers()[i]).wf()
                && self.layers()[i].keys@.len() == self.spec_cache_size()
                && self.layers()[i].values@.len() == self.spec_cache_size() by {
                assert(before[i].wf());
            }
        }
        Ok(())
    }

    /// Bytes of all layers' buffers.
    pub fn total_memory_usage(&self) -> (r: usize)
        requires
            self.wf(),
        ensures
            r == self.spec_num_layers() * self.spec_cache_size() * 2 * f32_bytes(),
    {
        let ghost per = self.spec_cache_size() * 2 * f32_bytes();
        let mut total: usize = 0;
        let mut i: usize = 0;
        while i < self.caches.len()
            invariant
                self.wf(),
                i <= self.caches@.len(),
                per == self.spec_cache_size() * 2 * f32_bytes(),
                total == i * per,
            decreases self.caches@.len() - i,
        {
            let c = &self.caches[i];
            proof {
                assert(c.wf());
                assert((i + 1) * per <= self.spec_num_layers() * per) by (nonlinear_arith)
                    requires i + 1 <= self.spec_num_layers(), per >= 0;
                assert(self.spec_num_layers() * self.spec_cache_size() * 2 * f32_bytes() == self.spec_num_layers() * per) by (nonlinear_arith)
                    requires per == self.spec_cache_size() * 2 * f32_bytes();
                assert((i + 1) * per == i * per + per) by (nonlinear_arith);
            }
            total = total + c.memory_usage();
            i = i + 1;
        }
        proof {
            assert(self.spec_num_layers() * self.spec_cache_size() * 2 * f32_bytes() == self.spec_num_layers() * per) by (nonlinear_arith)
                requires per == self.spec_cache_size() * 2 * f32_bytes();
        }
        total
    }

    /// Bytes of layer `layer_id`'s buffers.
    pub fn layer_memory_usage(&self, layer_id: usize) -> (r: MinervaResult<usize>)
        requires
            self.wf(),
        ensures
            layer_id >= self.spec_num_layers() ==> (r matches Err(MinervaError::InferenceError(m))
                && m@ == "Cache not found"@),
            layer_id < self.spec_num_layers() ==> r == Ok::<usize, MinervaError>(
                (self.spec_cache_size() * 2 * f32_bytes()) as usize,
            ),
    {
        if layer_id >= self.caches.len() {
            return Err(MinervaError::InferenceError(text("Cache not found")));
        }
        let c = &self.caches[layer_id];
        proof {
            assert(c.wf());
        }
        Ok(c.memory_usage())
    }

    /// Whether layer `layer_id` has filled as many elements as its longest
    /// sequence.
    pub fn is_full(&self, layer_id: usize) -> (r: MinervaResult<bool>)
        requires
            self.wf(),
        ensures
            layer_id >= self.spec_num_layers() ==> (r matches Err(MinervaError::InferenceError(m))
                && m@ == "Cache not found"@),
            layer_id < self.spec_num_layers() ==> r == Ok::<bool, MinervaError>(
                self.layers()[layer_id as int].seq_len >= self.layers()[layer_id as int].max_seq_len,
            ),
    {
        if layer_id >= self.caches.len() {
            return Err(MinervaError::InferenceError(text("Cache not found")));
        }
        Ok(self.caches[layer_id].seq_len >= self.caches[layer_id].max_seq_len)
    }

    /// How many more elements layer `layer_id` is meant to take.
    pub fn remaining_capacity(&self, layer_id: usize) -> (r: MinervaResult<usize>)
        requires
            self.wf(),
            layer_id < self.spec_num_layers() ==> self.layers()[layer_id as int].seq_len
                <= self.layers()[layer_id as int].max_seq_len,
        ensures
            layer_id >= self.spec_num_layers() ==> (r matches Err(MinervaError::InferenceError(m))
                && m@ == "Cache not found"@),
            layer_id < self.spec_num_layers() ==> r == Ok::<usize, MinervaError>(
                (self.layers()[layer_id as int].max_seq_len - self.layers()[layer_id as int].seq_len) as usize,
            ),
    {
        if layer_id >= self.caches.len() {
            return Err(MinervaError::InferenceError(text("Cache not found")));
        }
        Ok(self.caches[layer_id].max_seq_len - self.caches[layer_id].seq_len)
    }
}

} // verus!
