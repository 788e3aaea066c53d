//! A key-value cache laid out by layer, position, head and head dimension.
//! Each element is the IEEE-754 bit pattern of an `f32`; the cache only
//! copies elements.
use vstd::prelude::*;

use crate::error::{decimal_text, text_with_number, MinervaError, MinervaResult};

verus! {

/// Shape of a key-value cache.
#[derive(Debug, Clone, Copy, PartialEq, Eq, Structural)]
pub struct KVCacheConfig {
    /// Number of layers
    pub num_layers: usize,
    /// Maximum sequence length
    pub max_seq_len: usize,
    /// Number of attention heads
    pub num_heads: usize,
    /// Head dimension
    pub head_dim: usize,
}

/// Elements one position holds: every head's vector.
pub open spec fn position_len(c: KVCacheConfig) -> int {
    c.num_heads * c.head_dim
}

/// Elements the whole cache holds.
pub open spec fn cache_len(c: KVCacheConfig) -> int {
    c.num_layers * c.max_seq_len * position_len(c)
}

/// Where the elements of (`layer`, `pos`) start.
pub open spec fn slot(c: KVCacheConfig, layer: int, pos: int) -> int {
    (layer * c.max_seq_len + pos) * position_len(c)
}

/// The keys and values of one token at one layer and position.
#[derive(Debug, Clone)]
pub struct KVStoreParams {
    /// Layer index
    pub layer: usize,
    /// Sequence position
    pub pos: usize,
    /// Key elements, head after head
    pub k: Vec<u32>,
    /// Value elements, head after head
    pub v: Vec<u32>,
}

impl KVStoreParams {
    /// Builder for layer 0, position 0.
    pub fn builder(k: Vec<u32>, v: Vec<u32>) -> (r: KVStoreParamsBuilder)
        ensures
            r.spec_layer() == 0,
            r.spec_pos() == 0,
            r.spec_k() == k@,
            r.spec_v() == v@,
    {
        KVStoreParamsBuilder { layer: 0, pos: 0, k, v }
    }
}

/// Builds a `KVStoreParams`.
#[derive(Debug)]
pub struct KVStoreParamsBuilder {
    layer: usize,
    pos: usize,
    k: Vec<u32>,
    v: Vec<u32>,
}

impl KVStoreParamsBuilder {
    /// Layer chosen so far.
    pub closed spec fn spec_layer(&self) -> usize {
        self.layer
    }

    /// Position chosen so far.
    pub closed spec fn spec_pos(&self) -> usize {
        self.pos
    }

    /// Key elements.
    pub closed spec fn spec_k(&self) -> Seq<u32> {
        self.k@
    }

    /// Value elements.
    pub closed spec fn spec_v(&self) -> Seq<u32> {
        self.v@
    }

    /// Sets the layer.
    pub fn layer(self, layer: usize) -> (r: Self)
        ensures
            r.spec_layer() == layer,
            r.spec_pos() == self.spec_pos(),
            r.spec_k() == self.spec_k(),
            r.spec_v() == self.spec_v(),
    {
        KVStoreParamsBuilder { layer, ..self }
    }

    /// Sets the position.
    pub fn pos(self, pos: usize) -> (r: Self)
        ensures
            r.spec_pos() == pos,
            r.spec_layer() == self.spec_layer(),
            r.spec_k() == self.spec_k(),
            r.spec_v() == self.spec_v(),
    {
        KVStoreParamsBuilder { pos, ..self }
    }

    /// The parameters.
    pub fn build(self) -> (r: KVStoreParams)
        ensures
            r.layer == self.spec_layer(),
            r.pos == self.spec_pos(),
            r.k@ == self.spec_k(),
            r.v@ == self.spec_v(),
    {
        KVStoreParams { layer: self.layer, pos: self.pos, k: self.k, v: self.v }
    }
}

/// Heads of a token `k` holds in full, up to the number of heads.
pub open spec fn whole_heads(c: KVCacheConfig, k_len: int) -> int {
    if c.head_dim == 0 {
        0
    } else if k_len / (c.head_dim as int) < c.num_heads as int {
        k_len / (c.head_dim as int)
    } else {
        c.num_heads as int
    }
}

/// `buf` with `new` written over it from position `at`.
pub open spec fn overwrite(buf: Seq<u32>, at: int, new: Seq<u32>) -> Seq<u32> {
    buf.take(at) + new + buf.skip(at + new.len())
}

/// Keys and values of every layer, position and head, zero until stored.
#[derive(Debug)]
pub struct KVCache {
    config: KVCacheConfig,
    keys: Vec<u32>,
    values: Vec<u32>,
}

/// `n` zero elements.
fn zeroed(n: usize) -> (r: Vec<u32>)
    ensures
        r@ == Seq::new(n as nat, |i: int| 0u32),
{
    let mut v: Vec<u32> = Vec::new();
    let mut i: usize = 0;
    while i < n
        invariant
            i <= n,
            v@ == Seq::new(i as nat, |k: int| 0u32),
        decreases n - i,
    {
        v.push(0);
        i = i + 1;
        proof {
            assert(v@ =~= Seq::new(i as nat, |k: int| 0u32));
        }
    }
    v
}

/// A position's elements lie inside the cache.
proof fn lemma_slot_in_range(c: KVCacheConfig, layer: int, pos: int)
    requires
        0 <= layer < c.num_layers,
        0 <= pos < c.max_seq_len,
    ensures
        0 <= slot(c, layer, pos),
        slot(c, layer, pos) + position_len(c) <= cache_len(c),
{
    let s = c.max_seq_len as int;
    let q = position_len(c);
    assert(q >= 0) by (nonlinear_arith)
        requires q == c.num_heads * c.head_dim;
    assert(layer * s + pos + 1 <= c.num_layers * s) by (nonlinear_arith)
        requires 0 <= layer < c.num_layers, 0 <= pos < s;
    assert((layer * s + pos + 1) * q <= (c.num_layers * s) * q) by (nonlinear_arith)
        requires layer * s + pos + 1 <= c.num_layers * s, q >= 0;
    assert(0 <= (layer * s + pos) * q) by (nonlinear_arith)
        requires 0 <= layer, 0 <= pos, 0 <= s, q >= 0;
    assert((layer * s + pos + 1) * q == (layer * s + pos) * q + q) by (nonlinear_arith);
    assert(c.num_layers * c.max_seq_len * q == (c.num_layers * s) * q);
}

/// The index arithmetic of a position stays within machine integers.
proof fn lemma_index_fits(c: KVCacheConfig, layer: int, pos: int)
    requires
        0 <= layer < c.num_layers,
        0 <= pos < c.max_seq_len,
        c.num_layers * c.max_seq_len <= usize::MAX,
        cache_len(c) <= usize::MAX,
    ensures
        0 <= layer * c.max_seq_len,
        layer * c.max_seq_len + pos < c.num_layers * c.max_seq_len,
        position_len(c) <= cache_len(c),
        0 <= position_len(c),
        0 <= slot(c, layer, pos),
        slot(c, layer, pos) + position_len(c) <= cache_len(c),
{
    lemma_slot_in_range(c, layer, pos);
    let s = c.max_seq_len as int;
    let q = position_len(c);
    assert(q >= 0) by (nonlinear_arith)
        requires q == c.num_heads * c.head_dim;
    assert(0 <= layer * s) by (nonlinear_arith)
        requires 0 <= layer, 0 <= s;
    assert(layer * s + pos < c.num_layers * s) by (nonlinear_arith)
        requires 0 <= layer < c.num_layers, 0 <= pos < s;
    assert(c.num_layers * s >= 1);
    assert(q <= (c.num_layers * s) * q) by (nonlinear_arith)
        requires c.num_layers * s >= 1, q >= 0;
    assert(c.num_layers * c.max_seq_len * q == (c.num_layers * s) * q);
}

impl KVCache {
    /// The shape.
    pub closed spec fn spec_config(&self) -> KVCacheConfig {
        self.config
    }

    /// All key elements, layer by layer, position by position, head by head.
    pub closed spec fn spec_keys(&self) -> Seq<u32> {
        self.keys@
    }

    /// All value elements, in the same order.
    pub closed spec fn spec_values(&self) -> Seq<u32> {
        self.values@
    }

    /// Well-formedness: both buffers hold one element per layer, position,
    /// head and head dimension.
    pub open spec fn wf(&self) -> bool {
        &&& self.spec_config().num_layers * self.spec_config().max_seq_len <= usize::MAX
        &&& cache_len(self.spec_config()) <= usize::MAX
        &&& self.spec_keys().len() == cache_len(self.spec_config())
        &&& self.spec_values().len() == cache_len(self.spec_config())
    }

    /// The keys of (`layer`, `pos`).
    pub open spec fn keys_at(&self, layer: int, pos: int) -> Seq<u32> {
        let s = slot(self.spec_config(), layer, pos);
        self.spec_keys().subrange(s, s + position_len(self.spec_config()))
    }

    /// The values of (`layer`, `pos`).
    pub open spec fn values_at(&self, layer: int, pos: int) -> Seq<u32> {
        let s = slot(self.spec_config(), layer, pos);
        self.spec_values().subrange(s, s + position_len(self.spec_config()))
    }

    /// A zeroed cache of the given shape.
    pub fn new(config: KVCacheConfig) -> (r: Self)
        requires
            cache_len(config) * 2 * 4 <= usize::MAX,
            config.num_layers * config.max_seq_len <= usize::MAX,
        ensures
            r.wf(),
            r.spec_config() == config,
            r.spec_keys() == Seq::new(cache_len(config) as nat, |i: int| 0u32),
            r.spec_values() == Seq::new(cache_len(config) as nat, |i: int| 0u32),
    {
        let rows = config.num_layers * config.max_seq_len;
        let n: usize = if rows == 0 {
            proof {
                assert(cache_len(config) == 0) by (nonlinear_arith)
                    requires rows == config.num_layers * config.max_seq_len, rows == 0,
                        cache_len(config) == config.num_layers * config.max_seq_len * position_len(config);
            }
            0
        } else {
            proof {
                lemma_index_fits(config, 0, 0);
            }
            rows * (config.num_heads * config.head_dim)
        };
        KVCache { config, keys: zeroed(n), values: zeroed(n) }
    }

    /// Stores a token's keys and values at a layer and position: each head
    /// that `k` holds in full is copied, with the value elements at the same
    /// offsets; the other heads keep their elements.
    pub fn store(&mut self, params: KVStoreParams) -> (r: MinervaResult<()>)
        requires
            old(self).wf(),
            params.layer < old(self).spec_config().num_layers && params.pos < old(self).spec_config().max_seq_len
                ==> old(self).spec_config().num_heads > 0 && whole_heads(old(self).spec_config(), params.k@.len() as int)
                * old(self).spec_config().head_dim <= params.v@.len(),
        ensures
            final(self).wf(),
            final(self).spec_config() == old(self).spec_config(),
            params.layer >= old(self).spec_config().num_layers ==> (r matches Err(MinervaError::InferenceError(m))
                && m@ == "Layer index "@ + decimal_text(params.layer as nat) + " out of bounds"@
                && *final(self) == *old(self)),
            params.layer < old(self).spec_config().num_layers && params.pos >= old(self).spec_config().max_seq_len
                ==> (r matches Err(MinervaError::InferenceError(m)) && m@ == "Position "@ + decimal_text(
                params.pos as nat,
            ) + " out of bounds"@ && *final(self) == *old(self)),
            params.layer < old(self).spec_config().num_layers && params.pos < old(self).spec_config().max_seq_len
                ==> ({
                let c = old(self).spec_config();
                let s = slot(c, params.layer as int, params.pos as int);
                let n = whole_heads(c, params.k@.len() as int) * c.head_dim;
                &&& r is Ok
                &&& final(self).spec_keys() == overwrite(old(self).spec_keys(), s, params.k@.take(n))
                &&& final(self).spec_values() == overwrite(old(self).spec_values(), s, params.v@.take(n))
            }),
    {
        let c = self.config;
        if params.layer >= c.num_layers {
            return Err(MinervaError::InferenceError(text_with_number("Layer index ", params.layer as u128, " out of bounds")));
        }
        if params.pos >= c.max_seq_len {
            return Err(MinervaError::InferenceError(text_with_number("Position ", params.pos as u128, " out of bounds")));
        }
        proof {
            lemma_index_fits(c, params.layer as int, params.pos as int);
        }
        let per_pos = c.num_heads * c.head_dim;
        let base = (params.layer * c.max_seq_len + params.pos) * per_pos;
        let heads: usize = if c.head_dim == 0 {
            0
        } else if params.k.len() / c.head_dim < c.num_heads {
            params.k.len() / c.head_dim
        } else {
            c.num_heads
        };
        let ghost n = whole_heads(c, params.k@.len() as int) * c.head_dim;
        proof {
            assert(heads as int == whole_heads(c, params.k@.len() as int));
            assert(heads * c.head_dim <= per_pos) by (nonlinear_arith)
                requires heads <= c.num_heads, per_pos == c.num_heads * c.head_dim;
            if c.head_dim > 0 {
                assert(heads * c.head_dim <= params.k@.len()) by (nonlinear_arith)
                    requires c.head_dim > 0, heads <= (params.k@.len() as int) / (c.head_dim as int);
            }
        }
        let count = heads * c.head_dim;
        let ghost old_keys = self.keys@;
        let ghost old_values = self.values@;
        let mut i: usize = 0;
        while i < count
            invariant
                i <= count,
                count == n,
                count <= per_pos,
                count <= params.k@.len(),
                count <= params.v@.len(),
                base + per_pos <= self.keys@.len(),
                base + per_pos <= self.values@.len(),
                base + per_pos <= usize::MAX,
                self.config == c,
                self.keys@.len() == old_keys.len(),
                self.values@.len() == old_values.len(),
                self.keys@ == overwrite(old_keys, base as int, params.k@.take(i as int)),
                self.values@ == overwrite(old_values, base as int, params.v@.take(i as int)),
            decreases count - i,
        {
            self.keys.set(base + i, params.k[i]);
            self.values.set(base + i, params.v[i]);
            i = i + 1;
            proof {
                assert(self.keys@ =~= overwrite(old_keys, base as int, params.k@.take(i as int)));
                assert(self.values@ =~= overwrite(old_values, base as int, params.v@.take(i as int)));
            }
        }
        Ok(())
    }

    /// The keys and values stored at a layer and position.
    pub fn get(&self, layer: usize, pos: usize) -> (r: MinervaResult<(Vec<u32>, Vec<u32>)>)
        requires
            self.wf(),
        ensures
            layer >= self.spec_config().num_layers ==> (r matches Err(MinervaError::InferenceError(m)) && m@
                == "Layer index "@ + decimal_text(layer as nat) + " out of bounds"@),
            layer < self.spec_config().num_layers && pos >= self.spec_config().max_seq_len ==> (r matches Err(
                MinervaError::InferenceError(m),
            ) && m@ == "Position "@ + decimal_text(pos as nat) + " out of bounds"@),
            layer < self.spec_config().num_layers && pos < self.spec_config().max_seq_len ==> (r matches Ok(kv)
                && kv.0@ == self.keys_at(layer as int, pos as int) && kv.1@ == self.values_at(
                layer as int,
                pos as int,
            )),
    {
        let c = self.config;
        if layer >= c.num_layers {
            return Err(MinervaError::InferenceError(text_with_number("Layer index ", layer as u128, " out of bounds")));
        }
        if pos >= c.max_seq_len {
            return Err(MinervaError::InferenceError(text_with_number("Position ", pos as u128, " out of bounds")));
        }
        proof {
            lemma_index_fits(c, layer as int, pos as int);
        }
        let per_pos = c.num_heads * c.head_dim;
        let base = (layer * c.max_seq_len + pos) * per_pos;
        let mut k: Vec<u32> = Vec::new();
        let mut v: Vec<u32> = Vec::new();
        let mut i: usize = 0;
        while i < per_pos
            invariant
                i <= per_pos,
                base + per_pos <= self.keys@.len(),
                base + per_pos <= self.values@.len(),
                base + per_pos <= usize::MAX,
                k@ == self.keys@.subrange(base as int, base + i),
                v@ == self.values@.subrange(base as int, base + i),
            decreases per_pos - i,
        {
            k.push(self.keys[base + i]);
            v.push(self.values[base + i]);
            i = i + 1;
            proof {
                assert(k@ =~= self.keys@.subrange(base as int, base + i));
                assert(v@ =~= self.values@.subrange(base as int, base + i));
            }
        }
        Ok((k, v))
    }

    /// Sets every element back to zero.
    pub fn clear(&mut self)
        requires
            old(self).wf(),
        ensures
            final(self).wf(),
            final(self).spec_config() == old(self).spec_config(),
            final(self).spec_keys() == Seq::new(old(self).spec_keys().len(), |i: int| 0u32),
            final(self).spec_values() == Seq::new(old(self).spec_values().len(), |i: int| 0u32),
    {
        let mut i: usize = 0;
        while i < self.keys.len()
            invariant
                i <= self.keys@.len(),
                self.keys@.len() == old(self).keys@.len(),
                self.values@ == old(self).values@,
                self.config == old(self).config,
                forall|j: int| 0 <= j < i ==> self.keys@[j] == 0u32,
            decreases self.keys@.len() - i,
        {
            self.keys.set(i, 0);
            i = i + 1;
        }
        let mut j: usize = 0;
        while j < self.values.len()
            invariant
                j <= self.values@.len(),
                self.values@.len() == old(self).values@.len(),
                self.keys@.len() == old(self).keys@.len(),
                self.config == old(self).config,
                forall|q: int| 0 <= q < self.keys@.len() ==> self.keys@[q] == 0u32,
                forall|q: int| 0 <= q < j ==> self.values@[q] == 0u32,
            decreases self.values@.len() - j,
        {
            self.values.set(j, 0);
            j = j + 1;
        }
        proof {
            assert(self.keys@ =~= Seq::new(old(self).keys@.len(), |i: int| 0u32));
            assert(self.values@ =~= Seq::new(old(self).values@.len(), |i: int| 0u32));
        }
    }
}

/// A position stored with a token that holds every head in full reads back
/// as that token; every other position keeps what it held.
pub proof fn lemma_get_after_store(
    c: KVCacheConfig,
    keys: Seq<u32>,
    layer: int,
    pos: int,
    k: Seq<u32>,
    other_layer: int,
    other_pos: int,
)
    requires
        keys.len() == cache_len(c),
        0 <= layer < c.num_layers,
        0 <= pos < c.max_seq_len,
        0 <= other_layer < c.num_layers,
        0 <= other_pos < c.max_seq_len,
        k.len() == position_len(c),
        c.head_dim > 0,
        (other_layer, other_pos) != (layer, pos),
    ensures
        ({
            let s = slot(c, layer, pos);
            let n = whole_heads(c, k.len() as int) * c.head_dim;
            let after = overwrite(keys, s, k.take(n));
            let o = slot(c, other_layer, other_pos);
            &&& after.subrange(s, s + position_len(c)) == k
            &&& after.subrange(o, o + position_len(c)) == keys.subrange(o, o + position_len(c))
        }),
{
    lemma_slot_in_range(c, layer, pos);
    lemma_slot_in_range(c, other_layer, other_pos);
    let s = slot(c, layer, pos);
    let q = position_len(c);
    let h = c.head_dim as int;
    assert((k.len() as int) / h == c.num_heads) by (nonlinear_arith)
        requires k.len() == c.num_heads * h, h > 0;
    assert(whole_heads(c, k.len() as int) * c.head_dim == q);
    assert(k.take(q) =~= k);
    let after = overwrite(keys, s, k);
    assert(after.subrange(s, s + q) =~= k);
    let o = slot(c, other_layer, other_pos);
    let a = layer * c.max_seq_len + pos;
    let b = other_layer * c.max_seq_len + other_pos;
    assert(a != b) by (nonlinear_arith)
        requires (other_layer, other_pos) != (layer, pos), 0 <= pos < c.max_seq_len, 0 <= other_pos < c.max_seq_len,
            a == layer * c.max_seq_len + pos, b == other_layer * c.max_seq_len + other_pos;
    assert(o + q <= s || s + q <= o) by (nonlinear_arith)
        requires a != b, q >= 0, s == a * q, o == b * q;
    assert(after.subrange(o, o + q) =~= keys.subrange(o, o + q));
}

} // verus!
