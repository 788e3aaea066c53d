//! The SafeTensors backend's model: its configuration and every weight
//! matrix, loaded from one SafeTensors buffer, with its parameter count and
//! the embedding lookup that starts a forward pass.
use vstd::prelude::*;

use crate::config::ModelConfig;
use crate::error::{MinervaError, MinervaResult};
use crate::layers::BackendStats;
use crate::safetensors_loader::{
    filled, layer_tensor_name, load_error, loaded_or, loaded_tensor, tensor_view, AttentionWeights, MLPWeights,
    SafeTensorsLoader, WeightTensor, ONE_BITS,
};

verus! {

/// Elements a matrix's shape holds.
pub open spec fn tensor_size(t: WeightTensor) -> int {
    t.rows * t.cols
}

/// The matrix holds one element per row and column.
pub open spec fn tensor_wf(t: WeightTensor) -> bool {
    t.data@.len() == t.rows * t.cols
}

/// Elements of a layer's four attention projections.
pub open spec fn attention_size(a: AttentionWeights) -> int {
    tensor_size(a.q_proj) + tensor_size(a.k_proj) + tensor_size(a.v_proj) + tensor_size(a.o_proj)
}

/// Elements of a layer's three feed-forward projections.
pub open spec fn mlp_size(m: MLPWeights) -> int {
    tensor_size(m.gate_proj) + tensor_size(m.up_proj) + tensor_size(m.down_proj)
}

/// Elements of all attention projections.
pub open spec fn attention_total(layers: Seq<AttentionWeights>) -> int
    decreases layers.len(),
{
    if layers.len() == 0 {
        0
    } else {
        attention_total(layers.drop_last()) + attention_size(layers.last())
    }
}

/// Elements of all feed-forward projections.
pub open spec fn mlp_total(layers: Seq<MLPWeights>) -> int
    decreases layers.len(),
{
    if layers.len() == 0 {
        0
    } else {
        mlp_total(layers.drop_last()) + mlp_size(layers.last())
    }
}

/// Attention projections of layer `l` as loading gives them.
pub open spec fn loaded_attention(buffer: Seq<u8>, l: usize, a: AttentionWeights) -> bool {
    &&& tensor_view(a.q_proj) == loaded_or(buffer, layer_tensor_name(l, ".self_attn.q_proj.weight"@), 0)
    &&& tensor_view(a.k_proj) == loaded_or(buffer, layer_tensor_name(l, ".self_attn.k_proj.weight"@), 0)
    &&& tensor_view(a.v_proj) == loaded_or(buffer, layer_tensor_name(l, ".self_attn.v_proj.weight"@), 0)
    &&& tensor_view(a.o_proj) == loaded_or(buffer, layer_tensor_name(l, ".self_attn.o_proj.weight"@), 0)
}

/// Feed-forward projections of layer `l` as loading gives them.
pub open spec fn loaded_mlp(buffer: Seq<u8>, l: usize, m: MLPWeights) -> bool {
    &&& tensor_view(m.gate_proj) == loaded_or(buffer, layer_tensor_name(l, ".mlp.gate_proj.weight"@), 0)
    &&& tensor_view(m.up_proj) == loaded_or(buffer, layer_tensor_name(l, ".mlp.up_proj.weight"@), 0)
    &&& tensor_view(m.down_proj) == loaded_or(buffer, layer_tensor_name(l, ".mlp.down_proj.weight"@), 0)
}

/// A model held as weight matrices.
#[derive(Debug)]
pub struct GPUSafeTensorsBackend {
    /// The architecture
    pub config: ModelConfig,
    /// Token embedding matrix
    pub embedding: WeightTensor,
    /// Final normalisation weight
    pub norm_weight: WeightTensor,
    /// Output head
    pub lm_head: WeightTensor,
    /// Attention projections, layer by layer
    pub attention_layers: Vec<AttentionWeights>,
    /// Feed-forward projections, layer by layer
    pub mlp_layers: Vec<MLPWeights>,
    /// Normalisation weights before attention, layer by layer
    pub attn_norm_weights: Vec<WeightTensor>,
    /// Normalisation weights before the feed-forward layer, layer by layer
    pub ffn_norm_weights: Vec<WeightTensor>,
    /// Where the weights were read from
    pub model_path: String,
}

impl GPUSafeTensorsBackend {
    /// Loads every weight matrix of a model with architecture `config` from
    /// the SafeTensors `buffer` read from `model_path`: the embedding, which
    /// must load, the final weights, and the weights of each layer.
    pub fn from_buffer(config: ModelConfig, buffer: &[u8], model_path: &str) -> (r: MinervaResult<Self>)
        ensures
            loaded_tensor(buffer@, "model.embed_tokens.weight"@) is None ==> (r matches Err(
                MinervaError::ModelLoadingError(m),
            ) && m@ == load_error(buffer@, "model.embed_tokens.weight"@)),
            loaded_tensor(buffer@, "model.embed_tokens.weight"@) matches Some(e) ==> (r matches Ok(b)
                && b.config.num_hidden_layers == config.num_hidden_layers && b.config.hidden_size
                == config.hidden_size && b.config.vocab_size == config.vocab_size && b.model_path@ == model_path@
                && tensor_view(b.embedding) == e && tensor_view(b.norm_weight) == loaded_or(
                buffer@,
                "model.norm.weight"@,
                ONE_BITS,
            ) && tensor_view(b.lm_head) == loaded_or(buffer@, "lm_head.weight"@, 0) && b.attention_layers@.len()
                == config.num_hidden_layers && b.mlp_layers@.len() == config.num_hidden_layers
                && b.attn_norm_weights@.len() == config.num_hidden_layers && b.ffn_norm_weights@.len()
                == config.num_hidden_layers && (forall|l: int|
                0 <= l < config.num_hidden_layers ==> loaded_attention(
                    buffer@,
                    l as usize,
                    #[trigger] b.attention_layers@[l],
                )) && (forall|l: int|
                0 <= l < config.num_hidden_layers ==> loaded_mlp(buffer@, l as usize, #[trigger] b.mlp_layers@[l]))
                && (forall|l: int|
                0 <= l < config.num_hidden_layers ==> tensor_view(#[trigger] b.attn_norm_weights@[l]) == loaded_or(
                    buffer@,
                    layer_tensor_name(l as usize, ".input_layernorm.weight"@),
                    ONE_BITS,
                )) && (forall|l: int|
                0 <= l < config.num_hidden_layers ==> tensor_view(#[trigger] b.ffn_norm_weights@[l]) == loaded_or(
                    buffer@,
                    layer_tensor_name(l as usize, ".post_attention_layernorm.weight"@),
                    ONE_BITS,
                ))),
    {
        let embedding = match SafeTensorsLoader::load_embedding(buffer) {
            Ok(e) => e,
            Err(e) => {
                return Err(e);
            },
        };
        let (norm_weight, lm_head) = SafeTensorsLoader::load_final_weights(buffer)?;
        let mut attention_layers: Vec<AttentionWeights> = Vec::new();
        let mut mlp_layers: Vec<MLPWeights> = Vec::new();
        let mut attn_norm_weights: Vec<WeightTensor> = Vec::new();
        let mut ffn_norm_weights: Vec<WeightTensor> = Vec::new();
        let n = config.num_hidden_layers;
        let mut layer_idx: usize = 0;
        while layer_idx < n
            invariant
                layer_idx <= n,
                attention_layers@.len() == layer_idx,
                mlp_layers@.len() == layer_idx,
                attn_norm_weights@.len() == layer_idx,
                ffn_norm_weights@.len() == layer_idx,
                forall|l: int| 0 <= l < layer_idx ==> loaded_attention(buffer@, l as usize, #[trigger] attention_layers@[l]),
                forall|l: int| 0 <= l < layer_idx ==> loaded_mlp(buffer@, l as usize, #[trigger] mlp_layers@[l]),
                forall|l: int|
                    0 <= l < layer_idx ==> tensor_view(#[trigger] attn_norm_weights@[l]) == loaded_or(
                        buffer@,
                        layer_tensor_name(l as usize, ".input_layernorm.weight"@),
                        ONE_BITS,
                    ),
                forall|l: int|
                    0 <= l < layer_idx ==> tensor_view(#[trigger] ffn_norm_weights@[l]) == loaded_or(
                        buffer@,
                        layer_tensor_name(l as usize, ".post_attention_layernorm.weight"@),
                        ONE_BITS,
                    ),
            decreases n - layer_idx,
        {
            let attn = SafeTensorsLoader::load_attention_projections(buffer, layer_idx)?;
            attention_layers.push(attn);
            let mlp = SafeTensorsLoader::load_mlp_weights(buffer, layer_idx)?;
            mlp_layers.push(mlp);
            let (attn_norm, ffn_norm) = SafeTensorsLoader::load_norm_weights(buffer, layer_idx)?;
            attn_norm_weights.push(attn_norm);
            ffn_norm_weights.push(ffn_norm);
            layer_idx = layer_idx + 1;
        }
        let mut path = String::new();
        path.append(model_path);
        Ok(GPUSafeTensorsBackend {
            config,
            embedding,
            norm_weight,
            lm_head,
            attention_layers,
            mlp_layers,
            attn_norm_weights,
            ffn_norm_weights,
            model_path: path,
        })
    }

    /// The architecture.
    pub fn get_config(&self) -> (r: &ModelConfig)
        ensures
            *r == self.config,
    {
        &self.config
    }

    /// Parameters of the model, counted by the shapes of the embedding, the
    /// output head and every attention and feed-forward projection, with
    /// the layer count and sizes of the architecture.
    pub fn get_stats(&self) -> (r: BackendStats)
        requires
            tensor_size(self.embedding) + tensor_size(self.lm_head) + attention_total(self.attention_layers@)
                + mlp_total(self.mlp_layers@) <= usize::MAX,
        ensures
            r.total_parameters == tensor_size(self.embedding) + tensor_size(self.lm_head) + attention_total(
                self.attention_layers@,
            ) + mlp_total(self.mlp_layers@),
            r.num_layers == self.config.num_hidden_layers,
            r.hidden_size == self.config.hidden_size,
            r.vocab_size == self.config.vocab_size,
    {
        proof {
            lemma_sizes_nonnegative(self);
        }
        let mut attn_sum: usize = 0;
        let mut i: usize = 0;
        while i < self.attention_layers.len()
            invariant
                i <= self.attention_layers@.len(),
                attn_sum == attention_total(self.attention_layers@.take(i as int)),
                attention_total(self.attention_layers@) <= usize::MAX,
            decreases self.attention_layers@.len() - i,
        {
            let a = &self.attention_layers[i];
            proof {
                let pre = self.attention_layers@.take(i + 1);
                assert(pre.drop_last() =~= self.attention_layers@.take(i as int));
                lemma_attention_total_prefix(self.attention_layers@, i + 1);
                lemma_attention_sizes(*a);
            }
            let size = a.q_proj.rows * a.q_proj.cols + a.k_proj.rows * a.k_proj.cols + a.v_proj.rows * a.v_proj.cols
                + a.o_proj.rows * a.o_proj.cols;
            attn_sum = attn_sum + size;
            i = i + 1;
        }
        proof {
            assert(self.attention_layers@.take(i as int) =~= self.attention_layers@);
        }
        let mut mlp_sum: usize = 0;
        let mut j: usize = 0;
        while j < self.mlp_layers.len()
            invariant
                j <= self.mlp_layers@.len(),
                mlp_sum == mlp_total(self.mlp_layers@.take(j as int)),
                mlp_total(self.mlp_layers@) <= usize::MAX,
            decreases self.mlp_layers@.len() - j,
        {
            let m = &self.mlp_layers[j];
            proof {
                let pre = self.mlp_layers@.take(j + 1);
                assert(pre.drop_last() =~= self.mlp_layers@.take(j as int));
                lemma_mlp_total_prefix(self.mlp_layers@, j + 1);
                lemma_mlp_sizes(*m);
            }
            let size = m.gate_proj.rows * m.gate_proj.cols + m.up_proj.rows * m.up_proj.cols + m.down_proj.rows
                * m.down_proj.cols;
            mlp_sum = mlp_sum + size;
            j = j + 1;
        }
        proof {
            assert(self.mlp_layers@.take(j as int) =~= self.mlp_layers@);
        }
        let total = self.embedding.rows * self.embedding.cols + self.lm_head.rows * self.lm_head.cols + attn_sum
            + mlp_sum;
        BackendStats {
            total_parameters: total,
            num_layers: self.config.num_hidden_layers,
            hidden_size: self.config.hidden_size,
            vocab_size: self.config.vocab_size,
        }
    }

    /// Hidden states of a token sequence: row `i` is the first
    /// `hidden_size` elements of the embedding row of token `i`, or zeros
    /// for a token outside the embedding matrix.
    pub fn embedding_lookup(&self, token_ids: &[usize]) -> (r: MinervaResult<WeightTensor>)
        requires
            tensor_wf(self.embedding),
            token_ids@.len() * self.config.hidden_size * 4 <= isize::MAX,
        ensures
            r matches Ok(t) && t.rows == token_ids@.len() && t.cols == self.config.hidden_size && tensor_wf(t)
                && forall|i: int, j: int|
                0 <= i < token_ids@.len() && 0 <= j < self.config.hidden_size ==> #[trigger] t.data@[i
                    * self.config.hidden_size + j] == if token_ids@[i] < self.embedding.rows && j
                    < self.embedding.cols {
                    self.embedding.data@[token_ids@[i] * self.embedding.cols + j]
                } else {
                    0u32
                },
    {
        let h = self.config.hidden_size;
        let n = token_ids.len();
        let rows = self.embedding.rows;
        let cols = self.embedding.cols;
        let data_len = self.embedding.data.len();
        proof {
            assert(data_len == rows * cols);
        }
        let width: usize = if h < cols {
            h
        } else {
            cols
        };
        let mut out: Vec<u32> = Vec::new();
        let mut i: usize = 0;
        while i < n
            invariant
                i <= n,
                n == token_ids@.len(),
                h == self.config.hidden_size,
                rows == self.embedding.rows,
                cols == self.embedding.cols,
                width <= h,
                width <= cols,
                width == h || width == cols,
                tensor_wf(self.embedding),
                rows * cols <= usize::MAX,
                n * h * 4 <= isize::MAX,
                out@.len() == i * h,
                forall|a: int, b: int|
                    0 <= a < i && 0 <= b < h ==> #[trigger] out@[a * h + b] == if token_ids@[a] < rows && b < cols {
                        self.embedding.data@[token_ids@[a] * cols + b]
                    } else {
                        0u32
                    },
            decreases n - i,
        {
            let t = token_ids[i];
            proof {
                assert(i * h + h <= n * h) by (nonlinear_arith)
                    requires i < n, h >= 0;
                assert(n * h <= n * h * 4) by (nonlinear_arith)
                    requires n * h >= 0;
                assert(0 <= i * h) by (nonlinear_arith)
                    requires i >= 0, h >= 0;
                if t < rows {
                    assert(t * cols + cols <= rows * cols) by (nonlinear_arith)
                        requires t < rows, cols >= 0;
                    assert(0 <= t * cols) by (nonlinear_arith)
                        requires t >= 0, cols >= 0;
                }
            }
            let base = i * h;
            let mut j: usize = 0;
            while j < h
                invariant
                    j <= h,
                    i < n,
                    t == token_ids@[i as int],
                    n == token_ids@.len(),
                    h == self.config.hidden_size,
                    rows == self.embedding.rows,
                    cols == self.embedding.cols,
                    width <= h,
                    width <= cols,
                    width == h || width == cols,
                    tensor_wf(self.embedding),
                    rows * cols <= usize::MAX,
                    t < rows ==> t * cols + cols <= rows * cols,
                    t < rows ==> 0 <= t * cols,
                    base == i * h,
                    base + h <= n * h,
                    n * h * 4 <= isize::MAX,
                    out@.len() == base + j,
                    forall|a: int, b: int|
                        0 <= a < i && 0 <= b < h ==> #[trigger] out@[a * h + b] == if token_ids@[a] < rows && b
                            < cols {
                            self.embedding.data@[token_ids@[a] * cols + b]
                        } else {
                            0u32
                        },
                    forall|b: int|
                        0 <= b < j ==> #[trigger] out@[base + b] == if t < rows && b < cols {
                            self.embedding.data@[t * cols + b]
                        } else {
                            0u32
                        },
                decreases h - j,
            {
                let v: u32 = if t < rows && j < width {
                    self.embedding.data[t * cols + j]
                } else {
                    0
                };
                let ghost before = out@;
                out.push(v);
                proof {
                    assert forall|a: int, b: int| 0 <= a < i && 0 <= b < h implies #[trigger] out@[a * h + b] == if token_ids@[a]
                        < rows && b < cols {
                        self.embedding.data@[token_ids@[a] * cols + b]
                    } else {
                        0u32
                    } by {
                        assert(a * h + b < i * h) by (nonlinear_arith)
                            requires 0 <= a < i, 0 <= b < h;
                        assert(0 <= a * h + b) by (nonlinear_arith)
                            requires 0 <= a, 0 <= b, h >= 0;
                        assert(out@[a * h + b] == before[a * h + b]);
                    }
                    assert forall|b: int| 0 <= b < j + 1 implies #[trigger] out@[base + b] == if t < rows && b < cols {
                        self.embedding.data@[t * cols + b]
                    } else {
                        0u32
                    } by {
                        if b < j {
                            assert(out@[base + b] == before[base + b]);
                        }
                    }
                }
                j = j + 1;
            }
            proof {
                assert forall|a: int, b: int| 0 <= a < i + 1 && 0 <= b < h implies #[trigger] out@[a * h + b] == if token_ids@[a]
                    < rows && b < cols {
                    self.embedding.data@[token_ids@[a] * cols + b]
                } else {
                    0u32
                } by {
                    if a == i {
                        assert(out@[base + b] == out@[a * h + b]);
                    }
                }
                assert((i + 1) * h == i * h + h) by (nonlinear_arith);
            }
            i = i + 1;
        }
        proof {
            assert(n * h <= n * h * 4) by (nonlinear_arith)
                requires n * h >= 0;
        }
        Ok(WeightTensor { rows: n, cols: h, data: out })
    }
}

/// Shapes hold no negative sizes.
proof fn lemma_sizes_nonnegative(b: &GPUSafeTensorsBackend)
    ensures
        tensor_size(b.embedding) >= 0,
        tensor_size(b.lm_head) >= 0,
        attention_total(b.attention_layers@) >= 0,
        mlp_total(b.mlp_layers@) >= 0,
{
    lemma_tensor_size(b.embedding);
    lemma_tensor_size(b.lm_head);
    lemma_attention_total_prefix(b.attention_layers@, b.attention_layers@.len() as int);
    lemma_mlp_total_prefix(b.mlp_layers@, b.mlp_layers@.len() as int);
    assert(b.attention_layers@.take(b.attention_layers@.len() as int) =~= b.attention_layers@);
    assert(b.mlp_layers@.take(b.mlp_layers@.len() as int) =~= b.mlp_layers@);
}

/// A shape's size is not negative.
proof fn lemma_tensor_size(t: WeightTensor)
    ensures
        tensor_size(t) >= 0,
{
    assert(t.rows * t.cols >= 0) by (nonlinear_arith)
        requires t.rows >= 0, t.cols >= 0;
}

/// The sizes of one layer's attention projections are not negative.
proof fn lemma_attention_sizes(a: AttentionWeights)
    ensures
        tensor_size(a.q_proj) >= 0,
        tensor_size(a.k_proj) >= 0,
        tensor_size(a.v_proj) >= 0,
        tensor_size(a.o_proj) >= 0,
{
    lemma_tensor_size(a.q_proj);
    lemma_tensor_size(a.k_proj);
    lemma_tensor_size(a.v_proj);
    lemma_tensor_size(a.o_proj);
}

/// The sizes of one layer's feed-forward projections are not negative.
proof fn lemma_mlp_sizes(m: MLPWeights)
    ensures
        tensor_size(m.gate_proj) >= 0,
        tensor_size(m.up_proj) >= 0,
        tensor_size(m.down_proj) >= 0,
{
    lemma_tensor_size(m.gate_proj);
    lemma_tensor_size(m.up_proj);
    lemma_tensor_size(m.down_proj);
}

/// A prefix of the layers holds no more attention parameters than all of
/// them.
proof fn lemma_attention_total_prefix(layers: Seq<AttentionWeights>, k: int)
    requires
        0 <= k <= layers.len(),
    ensures
        0 <= attention_total(layers.take(k)) <= attention_total(layers),
    decreases layers.len(),
{
    if layers.len() > 0 {
        let d = layers.drop_last();
        lemma_attention_sizes(layers.last());
        if k == layers.len() {
            assert(layers.take(k) =~= layers);
            lemma_attention_total_prefix(d, d.len() as int);
            assert(d.take(d.len() as int) =~= d);
        } else {
            lemma_attention_total_prefix(d, k);
            assert(d.take(k) =~= layers.take(k));
        }
    } else {
        assert(layers.take(k) =~= layers);
    }
}

/// A prefix of the layers holds no more feed-forward parameters than all
/// of them.
proof fn lemma_mlp_total_prefix(layers: Seq<MLPWeights>, k: int)
    requires
        0 <= k <= layers.len(),
    ensures
        0 <= mlp_total(layers.take(k)) <= mlp_total(layers),
    decreases layers.len(),
{
    if layers.len() > 0 {
        let d = layers.drop_last();
        lemma_mlp_sizes(layers.last());
        if k == layers.len() {
            assert(layers.take(k) =~= layers);
            lemma_mlp_total_prefix(d, d.len() as int);
            assert(d.take(d.len() as int) =~= d);
        } else {
            lemma_mlp_total_prefix(d, k);
            assert(d.take(k) =~= layers.take(k));
        }
    } else {
        assert(layers.take(k) =~= layers);
    }
}

} // verus!
