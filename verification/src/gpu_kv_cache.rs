//! Key-value caches of the GPU backend, generic over the matrix type they
//! keep: a token counter, and per-layer lists of key and value matrices
//! bounded by the maximum sequence length.
use vstd::prelude::*;

use crate::error::{inference_err, text, MinervaError, MinervaResult};

verus! {

/// Cache of the keys and values seen so far; it counts tokens and keeps
/// no matrices yet.
#[derive(Debug)]
pub struct KVCache<T> {
    /// Cached keys
    pub k: Option<Vec<T>>,
    /// Cached values
    pub v: Option<Vec<T>>,
    /// Tokens appended since the last reset
    pub seq_len: usize,
}

impl<T> KVCache<T> {
    /// An empty cache.
    pub fn new() -> (r: Self)
        ensures
            r.k is None,
            r.v is None,
            r.seq_len == 0,
    {
        KVCache { k: None, v: None, seq_len: 0 }
    }

    /// Counts one more token; the matrices themselves are not kept.
    /// Always reports an update.
    pub fn append(&mut self, _new_k: T, _new_v: T) -> (r: bool)
        requires
            old(self).seq_len < usize::MAX,
        ensures
            r,
            final(self).seq_len == old(self).seq_len + 1,
            final(self).k == old(self).k,
            final(self).v == old(self).v,
    {
        self.seq_len = self.seq_len + 1;
        true
    }

    /// Forgets everything, for a new sequence.
    pub fn reset(&mut self)
        ensures
            final(self).k is None,
            final(self).v is None,
            final(self).seq_len == 0,
    {
        self.k = None;
        self.v = None;
        self.seq_len = 0;
    }

    /// Tokens appended since the last reset.
    pub fn len(&self) -> (r: usize)
        ensures
            r == self.seq_len,
    {
        self.seq_len
    }

    /// Whether no token was appended since the last reset.
    pub fn is_empty(&self) -> (r: bool)
        ensures
            r == (self.seq_len == 0),
    {
        self.seq_len == 0
    }
}

/// Per-layer lists of key and value matrices, each list bounded by the
/// maximum sequence length.
#[derive(Debug)]
pub struct KVCacheOptimized<T> {
    /// Keys of each layer, oldest first
    pub k_caches: Vec<Vec<T>>,
    /// Values of each layer, oldest first
    pub v_caches: Vec<Vec<T>>,
    /// Tokens generated so far
    pub seq_len: usize,
    /// Most entries per layer
    pub max_seq_len: usize,
    /// Layers
    pub num_layers: usize,
    /// Key-value heads
    pub num_kv_heads: usize,
    /// Size of each head
    pub head_dim: usize,
}

impl<T> KVCacheOptimized<T> {
    /// Keys cached for each layer, oldest first.
    pub open spec fn spec_keys(&self) -> Seq<Seq<T>> {
        self.k_caches@.map_values(|layer: Vec<T>| layer@)
    }

    /// Values cached for each layer, oldest first.
    pub open spec fn spec_values(&self) -> Seq<Seq<T>> {
        self.v_caches@.map_values(|layer: Vec<T>| layer@)
    }

    /// Well-formedness: one key list and one value list per layer, of one
    /// length, never longer than the maximum sequence length.
    pub open spec fn wf(&self) -> bool {
        &&& self.spec_keys().len() == self.num_layers
        &&& self.spec_values().len() == self.num_layers
        &&& forall|l: int|
            0 <= l < self.num_layers ==> (#[trigger] self.spec_keys()[l]).len() <= self.max_seq_len
                && self.spec_values()[l].len() == self.spec_keys()[l].len()
    }

    /// An empty cache of `num_layers` layers.
    pub fn new(num_layers: usize, num_kv_heads: usize, head_dim: usize, max_seq_len: usize) -> (r: Self)
        ensures
            r.wf(),
            r.seq_len == 0,
            r.max_seq_len == max_seq_len,
            r.num_layers == num_layers,
            r.num_kv_heads == num_kv_heads,
            r.head_dim == head_dim,
            forall|l: int| 0 <= l < num_layers ==> (#[trigger] r.spec_keys()[l]).len() == 0,
            forall|l: int| 0 <= l < num_layers ==> (#[trigger] r.spec_values()[l]).len() == 0,
    {
        let mut k_caches: Vec<Vec<T>> = Vec::new();
        let mut v_caches: Vec<Vec<T>> = Vec::new();
        let mut i: usize = 0;
        while i < num_layers
            invariant
                i <= num_layers,
                k_caches@.len() == i,
                v_caches@.len() == i,
                forall|l: int| 0 <= l < i ==> (#[trigger] k_caches@[l])@.len() == 0,
                forall|l: int| 0 <= l < i ==> (#[trigger] v_caches@[l])@.len() == 0,
            decreases num_layers - i,
        {
            k_caches.push(Vec::new());
            v_caches.push(Vec::new());
            i = i + 1;
        }
        let cache = KVCacheOptimized { k_caches, v_caches, seq_len: 0, max_seq_len, num_layers, num_kv_heads, head_dim };
        proof {
            assert forall|l: int| 0 <= l < num_layers implies (#[trigger] cache.spec_keys()[l]).len() == 0 by {
                assert(cache.spec_keys()[l] == cache.k_caches@[l]@);
            }
            assert forall|l: int| 0 <= l < num_layers implies (#[trigger] cache.spec_values()[l]).len() == 0 by {
                assert(cache.spec_values()[l] == cache.v_caches@[l]@);
            }
        }
        cache
    }

    /// Appends a key and a value matrix to layer `layer_idx`. A layer
    /// outside the cache is refused, and so is a full layer, with the limit
    /// and the entries it would take.
    pub fn append(&mut self, layer_idx: usize, k_new: T, v_new: T) -> (r: MinervaResult<()>)
        requires
            old(self).wf(),
            layer_idx < old(self).num_layers ==> old(self).spec_keys()[layer_idx as int].len() < usize::MAX,
        ensures
            final(self).wf(),
            final(self).seq_len == old(self).seq_len,
            final(self).max_seq_len == old(self).max_seq_len,
            final(self).num_layers == old(self).num_layers,
            final(self).num_kv_heads == old(self).num_kv_heads,
            final(self).head_dim == old(self).head_dim,
            layer_idx >= old(self).num_layers ==> inference_err(r, "Layer index out of bounds"@)
                && final(self).spec_keys() == old(self).spec_keys() && final(self).spec_values() == old(
                self,
            ).spec_values(),
            layer_idx < old(self).num_layers && old(self).spec_keys()[layer_idx as int].len()
                >= old(self).max_seq_len ==> (r matches Err(MinervaError::ContextLimitExceeded { max, required })
                && max == old(self).max_seq_len && required == old(self).spec_keys()[layer_idx as int].len() + 1
                && final(self).spec_keys() == old(self).spec_keys() && final(self).spec_values() == old(
                self,
            ).spec_values()),
            layer_idx < old(self).num_layers && old(self).spec_keys()[layer_idx as int].len()
                < old(self).max_seq_len ==> (r is Ok && final(self).spec_keys() == old(self).spec_keys().update(
                layer_idx as int,
                old(self).spec_keys()[layer_idx as int].push(k_new),
            ) && final(self).spec_values() == old(self).spec_values().update(
                layer_idx as int,
                old(self).spec_values()[layer_idx as int].push(v_new),
            )),
    {
        if layer_idx >= self.num_layers {
            return Err(MinervaError::InferenceError(text("Layer index out of bounds")));
        }
        proof {
            assert(self.k_caches@[layer_idx as int]@ == self.spec_keys()[layer_idx as int]);
        }
        let len = self.k_caches[layer_idx].len();
        if len >= self.max_seq_len {
            return Err(MinervaError::ContextLimitExceeded { max: self.max_seq_len, required: len + 1 });
        }
        let ghost old_keys = self.spec_keys();
        let ghost old_values = self.spec_values();
        self.k_caches[layer_idx].push(k_new);
        self.v_caches[layer_idx].push(v_new);
        proof {
            assert(self.spec_keys() =~= old_keys.update(layer_idx as int, old_keys[layer_idx as int].push(k_new)));
            assert(self.spec_values() =~= old_values.update(
                layer_idx as int,
                old_values[layer_idx as int].push(v_new),
            ));
        }
        Ok(())
    }

    /// The keys and values of layer `layer_idx`, oldest first.
    pub fn get(&self, layer_idx: usize) -> (r: MinervaResult<(Vec<&T>, Vec<&T>)>)
        requires
            self.wf(),
        ensures
            layer_idx >= self.num_layers ==> inference_err(r, "Layer index out of bounds"@),
            layer_idx < self.num_layers ==> (r matches Ok(kv) && kv.0@.len() == self.spec_keys()[layer_idx as int].len()
                && kv.1@.len() == self.spec_values()[layer_idx as int].len() && (forall|i: int|
                0 <= i < kv.0@.len() ==> *#[trigger] kv.0@[i] == self.spec_keys()[layer_idx as int][i]) && (forall|
                i: int,
            |
                0 <= i < kv.1@.len() ==> *#[trigger] kv.1@[i] == self.spec_values()[layer_idx as int][i])),
    {
        if layer_idx >= self.num_layers {
            return Err(MinervaError::InferenceError(text("Layer index out of bounds")));
        }
        let keys = &self.k_caches[layer_idx];
        let values = &self.v_caches[layer_idx];
        proof {
            assert(keys@ == self.spec_keys()[layer_idx as int]);
            assert(values@ == self.spec_values()[layer_idx as int]);
        }
        let mut k_refs: Vec<&T> = Vec::new();
        let mut i: usize = 0;
        while i < keys.len()
            invariant
                i <= keys@.len(),
                k_refs@.len() == i,
                forall|j: int| 0 <= j < i ==> *#[trigger] k_refs@[j] == keys@[j],
            decreases keys@.len() - i,
        {
            k_refs.push(&keys[i]);
            i = i + 1;
        }
        let mut v_refs: Vec<&T> = Vec::new();
        let mut j: usize = 0;
        while j < values.len()
            invariant
                j <= values@.len(),
                v_refs@.len() == j,
                forall|q: int| 0 <= q < j ==> *#[trigger] v_refs@[q] == values@[q],
            decreases values@.len() - j,
        {
            v_refs.push(&values[j]);
            j = j + 1;
        }
        Ok((k_refs, v_refs))
    }

    /// Empties every layer and sets the token count back to zero.
    pub fn reset(&mut self)
        requires
            old(self).wf(),
        ensures
            final(self).wf(),
            final(self).seq_len == 0,
            final(self).max_seq_len == old(self).max_seq_len,
            final(self).num_layers == old(self).num_layers,
            final(self).num_kv_heads == old(self).num_kv_heads,
            final(self).head_dim == old(self).head_dim,
            forall|l: int| 0 <= l < final(self).num_layers ==> (#[trigger] final(self).spec_keys()[l]).len() == 0,
            forall|l: int| 0 <= l < final(self).num_layers ==> (#[trigger] final(self).spec_values()[l]).len() == 0,
    {
        self.seq_len = 0;
        let mut layer: usize = 0;
        while layer < self.num_layers
            invariant
                layer <= self.num_layers,
                self.num_layers == old(self).num_layers,
                self.max_seq_len == old(self).max_seq_len,
                self.num_kv_heads == old(self).num_kv_heads,
                self.head_dim == old(self).head_dim,
                self.seq_len == 0,
                self.k_caches@.len() == self.num_layers,
                self.v_caches@.len() == self.num_layers,
                forall|l: int| 0 <= l < layer ==> (#[trigger] self.k_caches@[l])@.len() == 0,
                forall|l: int| 0 <= l < layer ==> (#[trigger] self.v_caches@[l])@.len() == 0,
            decreases self.num_layers - layer,
        {
            self.k_caches.set(layer, Vec::new());
            self.v_caches.set(layer, Vec::new());
            layer = layer + 1;
        }
        proof {
            assert forall|l: int| 0 <= l < self.num_layers implies (#[trigger] self.spec_keys()[l]).len() == 0 by {
                assert(self.spec_keys()[l] == self.k_caches@[l]@);
            }
            assert forall|l: int| 0 <= l < self.num_layers implies (#[trigger] self.spec_values()[l]).len() == 0 by {
                assert(self.spec_values()[l] == self.v_caches@[l]@);
            }
        }
    }

    /// Counts one more generated token.
    pub fn next_token(&mut self)
        requires
            old(self).seq_len < usize::MAX,
        ensures
            final(self).seq_len == old(self).seq_len + 1,
            final(self).max_seq_len == old(self).max_seq_len,
            final(self).num_layers == old(self).num_layers,
            final(self).num_kv_heads == old(self).num_kv_heads,
            final(self).head_dim == old(self).head_dim,
            final(self).spec_keys() == old(self).spec_keys(),
            final(self).spec_values() == old(self).spec_values(),
    {
        self.seq_len = self.seq_len + 1;
    }
}

} // verus!
