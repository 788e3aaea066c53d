//! Shapes of the transformer's layers, their settings, and the causal mask.
use vstd::prelude::*;

use crate::error::{decimal_text, inference_err, render_decimal, text, text_with_number, MinervaError, MinervaResult};

verus! {

/// Activation function of a feed-forward layer.
#[derive(Debug, Clone, Copy, PartialEq, Eq, Structural)]
pub enum Activation {
    /// Gaussian error linear unit
    GELU,
    /// Sigmoid linear unit
    SiLU,
    /// Rectified linear unit
    ReLU,
}

/// Shape of an attention computation.
#[derive(Debug, Clone, Copy, PartialEq, Eq, Structural)]
pub struct AttentionConfig {
    /// Sequence length
    pub seq_len: usize,
    /// Size of each head
    pub head_size: usize,
    /// Mask future positions
    pub causal: bool,
}

/// Shape of a feed-forward computation.
#[derive(Debug, Clone, Copy, PartialEq, Eq, Structural)]
pub struct FeedforwardConfig {
    /// Sequence length
    pub seq_len: usize,
    /// Hidden size
    pub hidden_size: usize,
    /// Inner size
    pub intermediate_size: usize,
    /// Activation function
    pub activation: Activation,
}

impl AttentionConfig {
    /// Elements each of the query, key and value buffers holds.
    pub open spec fn spec_input_len(&self) -> int {
        self.seq_len * self.head_size
    }

    /// Checks the buffers of scaled dot-product attention: the query, the
    /// keys and the values each hold `seq_len` rows of `head_size`.
    pub fn check_input(&self, query_len: usize, key_len: usize, value_len: usize) -> (r: MinervaResult<()>)
        requires
            self.spec_input_len() <= usize::MAX,
        ensures
            query_len != self.spec_input_len() ==> (r matches Err(MinervaError::InferenceError(m)) && m@
                == "Query shape mismatch: expected "@ + decimal_text(self.spec_input_len() as nat) + ", got "@
                + decimal_text(query_len as nat)),
            query_len == self.spec_input_len() && (key_len != self.spec_input_len() || value_len
                != self.spec_input_len()) ==> inference_err(r, "Key/value shape mismatch"@),
            query_len == self.spec_input_len() && key_len == self.spec_input_len() && value_len
                == self.spec_input_len() ==> r is Ok,
    {
        let n = self.seq_len * self.head_size;
        if query_len != n {
            let mut m = text_with_number("Query shape mismatch: expected ", n as u128, ", got ");
            let got = render_decimal(query_len as u128);
            m.append(got.as_str());
            return Err(MinervaError::InferenceError(m));
        }
        if key_len != n || value_len != n {
            return Err(MinervaError::InferenceError(text("Key/value shape mismatch")));
        }
        Ok(())
    }
}

impl FeedforwardConfig {
    /// Checks the buffers of a feed-forward computation: the input holds
    /// `seq_len` rows of `hidden_size`, the up projection is `hidden_size`
    /// by `intermediate_size` and the down projection the reverse.
    pub fn check_shapes(&self, input_len: usize, up_len: usize, down_len: usize) -> (r: MinervaResult<()>)
        requires
            self.seq_len * self.hidden_size <= usize::MAX,
            self.hidden_size * self.intermediate_size <= usize::MAX,
        ensures
            input_len != self.seq_len * self.hidden_size ==> inference_err(r, "Input shape mismatch"@),
            input_len == self.seq_len * self.hidden_size && up_len != self.hidden_size * self.intermediate_size
                ==> inference_err(r, "Up weight shape mismatch"@),
            input_len == self.seq_len * self.hidden_size && up_len == self.hidden_size * self.intermediate_size
                && down_len != self.intermediate_size * self.hidden_size ==> inference_err(
                r,
                "Down weight shape mismatch"@,
            ),
            input_len == self.seq_len * self.hidden_size && up_len == self.hidden_size * self.intermediate_size
                && down_len == self.intermediate_size * self.hidden_size ==> r is Ok,
    {
        if input_len != self.seq_len * self.hidden_size {
            return Err(MinervaError::InferenceError(text("Input shape mismatch")));
        }
        if up_len != self.hidden_size * self.intermediate_size {
            return Err(MinervaError::InferenceError(text("Up weight shape mismatch")));
        }
        proof {
            assert(self.intermediate_size * self.hidden_size == self.hidden_size * self.intermediate_size)
                by (nonlinear_arith);
        }
        if down_len != self.intermediate_size * self.hidden_size {
            return Err(MinervaError::InferenceError(text("Down weight shape mismatch")));
        }
        Ok(())
    }
}

/// Checks the buffers of layer normalisation: the input holds `seq_len`
/// rows of `hidden_size`, and a scale, when given, holds `hidden_size`.
pub fn check_layer_norm(input_len: usize, seq_len: usize, hidden_size: usize, scale_len: Option<usize>) -> (r:
    MinervaResult<()>)
    requires
        seq_len * hidden_size <= usize::MAX,
    ensures
        input_len != seq_len * hidden_size ==> inference_err(r, "Input size mismatch"@),
        input_len == seq_len * hidden_size && (scale_len matches Some(n) && n != hidden_size) ==> inference_err(
            r,
            "Scale size mismatch"@,
        ),
        input_len == seq_len * hidden_size && !(scale_len matches Some(n) && n != hidden_size) ==> r is Ok,
{
    if input_len != seq_len * hidden_size {
        return Err(MinervaError::InferenceError(text("Input size mismatch")));
    }
    match scale_len {
        Some(n) => {
            if n != hidden_size {
                return Err(MinervaError::InferenceError(text("Scale size mismatch")));
            }
        },
        None => {},
    }
    Ok(())
}

/// Checks the buffers of RMS normalisation: one weight per input element.
pub fn check_rmsnorm(input_len: usize, weight_len: usize) -> (r: MinervaResult<()>)
    ensures
        input_len != weight_len ==> (r matches Err(MinervaError::InferenceError(m)) && m@ == "Input size "@
            + decimal_text(input_len as nat) + " != weight size "@ + decimal_text(weight_len as nat)),
        input_len == weight_len ==> r is Ok,
{
    if input_len != weight_len {
        let mut m = text_with_number("Input size ", input_len as u128, " != weight size ");
        let w = render_decimal(weight_len as u128);
        m.append(w.as_str());
        return Err(MinervaError::InferenceError(m));
    }
    Ok(())
}

/// The blocks of query positions that blockwise attention processes: each
/// starts `block_size` after the previous one and ends at `block_size`
/// further on or at the sequence's end.
pub open spec fn block_ranges(seq_len: nat, block_size: nat) -> Seq<(usize, usize)> {
    Seq::new(
        ((seq_len + block_size - 1) / block_size as int) as nat,
        |i: int|
            (
                (i * block_size) as usize,
                (if i * block_size + block_size <= seq_len {
                    i * block_size + block_size
                } else {
                    seq_len as int
                }) as usize,
            ),
    )
}

/// The (start, end) ranges of query positions that blockwise attention
/// takes in turn.
pub fn attention_blocks(seq_len: usize, block_size: usize) -> (r: Vec<(usize, usize)>)
    requires
        block_size > 0,
    ensures
        r@ == block_ranges(seq_len as nat, block_size as nat),
{
    let mut out: Vec<(usize, usize)> = Vec::new();
    let mut start: usize = 0;
    let mut k: usize = 0;
    proof {
        let q = (seq_len + block_size - 1) / (block_size as int);
        assert(seq_len > 0 ==> q >= 1) by (nonlinear_arith)
            requires q == (seq_len + block_size - 1) / (block_size as int), block_size > 0;
        assert(seq_len == 0 ==> q == 0) by (nonlinear_arith)
            requires q == (seq_len + block_size - 1) / (block_size as int), block_size > 0;
        assert(q <= seq_len) by (nonlinear_arith)
            requires q == (seq_len + block_size - 1) / (block_size as int), block_size > 0, seq_len >= 0;
    }
    while start < seq_len
        invariant
            block_size > 0,
            (seq_len + block_size - 1) / (block_size as int) <= seq_len,
            start == k * block_size,
            k <= (seq_len + block_size - 1) / (block_size as int),
            start < seq_len ==> k < (seq_len + block_size - 1) / (block_size as int),
            start >= seq_len ==> k == (seq_len + block_size - 1) / (block_size as int),
            out@.len() == k,
            forall|i: int| 0 <= i < k ==> #[trigger] out@[i] == block_ranges(seq_len as nat, block_size as nat)[i],
        decreases seq_len - start,
    {
        let end: usize = if seq_len - start > block_size {
            start + block_size
        } else {
            seq_len
        };
        proof {
            assert(block_ranges(seq_len as nat, block_size as nat)[k as int] == (start, end)) by {
                assert(k < (seq_len + block_size - 1) / (block_size as int));
            }
        }
        out.push((start, end));
        proof {
            let q = (seq_len + block_size - 1) / (block_size as int);
            assert((k + 1) * block_size == start + block_size) by (nonlinear_arith)
                requires start == k * block_size;
            if end == seq_len {
                assert(k + 1 == q) by (nonlinear_arith)
                    requires start == k * block_size, start < seq_len, seq_len <= start + block_size,
                        q == (seq_len + block_size - 1) / (block_size as int), block_size > 0;
            } else {
                assert(k + 1 < q) by (nonlinear_arith)
                    requires start == k * block_size, start + block_size < seq_len,
                        q == (seq_len + block_size - 1) / (block_size as int), block_size > 0;
            }
        }
        if end == seq_len {
            k = k + 1;
            proof {
                assert(out@ =~= block_ranges(seq_len as nat, block_size as nat));
            }
            return out;
        }
        start = end;
        k = k + 1;
    }
    proof {
        assert(out@ =~= block_ranges(seq_len as nat, block_size as nat));
    }
    out
}

/// Sizes of a model backend.
#[derive(Debug, Clone, Copy, PartialEq, Eq, Structural)]
pub struct BackendStats {
    /// Parameters in all
    pub total_parameters: usize,
    /// Layers
    pub num_layers: usize,
    /// Hidden size
    pub hidden_size: usize,
    /// Vocabulary size
    pub vocab_size: usize,
}

/// Token sampler over a vocabulary.
#[derive(Debug, Clone, Copy, PartialEq, Eq, Structural)]
pub struct Decoder {
    vocab_size: usize,
    max_seq_len: usize,
}

impl Decoder {
    /// Vocabulary size.
    pub closed spec fn spec_vocab_size(&self) -> usize {
        self.vocab_size
    }

    /// Maximum sequence length.
    pub closed spec fn spec_max_seq_len(&self) -> usize {
        self.max_seq_len
    }

    /// New decoder.
    pub fn new(vocab_size: usize, max_seq_len: usize) -> (r: Self)
        ensures
            r.spec_vocab_size() == vocab_size,
            r.spec_max_seq_len() == max_seq_len,
    {
        Decoder { vocab_size, max_seq_len }
    }

    /// Vocabulary size.
    pub fn vocab_size(&self) -> (r: usize)
        ensures
            r == self.spec_vocab_size(),
    {
        self.vocab_size
    }

    /// Maximum sequence length.
    pub fn max_seq_len(&self) -> (r: usize)
        ensures
            r == self.spec_max_seq_len(),
    {
        self.max_seq_len
    }

    /// Checks the logits handed to sampling: one per vocabulary entry.
    pub fn check_logits(&self, logits_len: usize) -> (r: MinervaResult<()>)
        ensures
            logits_len != self.spec_vocab_size() ==> (r matches Err(MinervaError::InferenceError(m)) && m@
                == "Logits size "@ + decimal_text(logits_len as nat) + " != vocab size "@ + decimal_text(
                self.spec_vocab_size() as nat,
            )),
            logits_len == self.spec_vocab_size() ==> r is Ok,
    {
        if logits_len != self.vocab_size {
            let mut m = text_with_number("Logits size ", logits_len as u128, " != vocab size ");
            let v = render_decimal(self.vocab_size as u128);
            m.append(v.as_str());
            return Err(MinervaError::InferenceError(m));
        }
        Ok(())
    }

    /// Checks a generation request: a nonempty prompt, and room for the
    /// prompt and the new tokens within the maximum sequence length.
    pub fn check_generation(&self, initial_len: usize, num_tokens: usize) -> (r: MinervaResult<()>)
        requires
            initial_len + num_tokens <= usize::MAX,
        ensures
            initial_len == 0 ==> inference_err(r, "Initial tokens cannot be empty"@),
            initial_len > 0 && initial_len + num_tokens > self.spec_max_seq_len() ==> inference_err(
                r,
                "Sequence too long for max_seq_len"@,
            ),
            initial_len > 0 && initial_len + num_tokens <= self.spec_max_seq_len() ==> r is Ok,
    {
        if initial_len == 0 {
            return Err(MinervaError::InferenceError(text("Initial tokens cannot be empty")));
        }
        if initial_len + num_tokens > self.max_seq_len {
            return Err(MinervaError::InferenceError(text("Sequence too long for max_seq_len")));
        }
        Ok(())
    }
}

/// Feed-forward layer shape.
#[derive(Debug, Clone, Copy, PartialEq, Eq, Structural)]
pub struct FeedForward {
    /// Hidden size
    pub hidden_size: usize,
    /// Inner size
    pub intermediate_size: usize,
}

impl FeedForward {
    /// New feed-forward layer.
    pub fn new(hidden_size: usize, intermediate_size: usize) -> (r: Self)
        ensures
            r == (FeedForward { hidden_size, intermediate_size }),
    {
        FeedForward { hidden_size, intermediate_size }
    }

    /// Checks the input and weights of a feed-forward pass: one hidden
    /// state, an up projection of `hidden_size` by `intermediate_size`, and
    /// a down projection of `intermediate_size` by `hidden_size`.
    pub fn check_forward(&self, x_len: usize, up_len: usize, down_len: usize) -> (r: MinervaResult<()>)
        requires
            self.hidden_size * self.intermediate_size <= usize::MAX,
        ensures
            x_len != self.hidden_size ==> (r matches Err(MinervaError::InferenceError(m)) && m@ == "Input size "@
                + decimal_text(x_len as nat) + " != hidden size "@ + decimal_text(self.hidden_size as nat)),
            x_len == self.hidden_size && up_len != self.hidden_size * self.intermediate_size ==> inference_err(
                r,
                "Up weight dimension mismatch"@,
            ),
            x_len == self.hidden_size && up_len == self.hidden_size * self.intermediate_size && down_len
                != self.intermediate_size * self.hidden_size ==> inference_err(r, "Down weight dimension mismatch"@),
            x_len == self.hidden_size && up_len == self.hidden_size * self.intermediate_size && down_len
                == self.intermediate_size * self.hidden_size ==> r is Ok,
    {
        if x_len != self.hidden_size {
            let mut m = text_with_number("Input size ", x_len as u128, " != hidden size ");
            let h = render_decimal(self.hidden_size as u128);
            m.append(h.as_str());
            return Err(MinervaError::InferenceError(m));
        }
        if up_len != self.hidden_size * self.intermediate_size {
            return Err(MinervaError::InferenceError(text("Up weight dimension mismatch")));
        }
        proof {
            assert(self.intermediate_size * self.hidden_size == self.hidden_size * self.intermediate_size) by (nonlinear_arith);
        }
        if down_len != self.intermediate_size * self.hidden_size {
            return Err(MinervaError::InferenceError(text("Down weight dimension mismatch")));
        }
        Ok(())
    }
}

/// Multi-head attention layer shape.
#[derive(Debug, Clone, Copy, PartialEq, Eq, Structural)]
pub struct MultiHeadAttention {
    num_heads: usize,
    head_dim: usize,
}

/// Whether `x` is a multiple of `d`, as std's `is_multiple_of` says (only zero
/// is a multiple of zero).
pub open spec fn multiple_of(x: int, d: int) -> bool {
    if d == 0 { x == 0 } else { x % d == 0 }
}

impl MultiHeadAttention {
    /// Number of heads.
    pub closed spec fn spec_num_heads(&self) -> usize {
        self.num_heads
    }

    /// Size of each head.
    pub closed spec fn spec_head_dim(&self) -> usize {
        self.head_dim
    }

    /// Attention with `num_heads` heads over `total_dim` dimensions. The
    /// dimensions must split evenly across the heads, and the heads' total
    /// size must be even for rotary embeddings.
    pub fn new(num_heads: usize, total_dim: usize) -> (r: MinervaResult<Self>)
        requires
            num_heads > 0 || total_dim != 0,
        ensures
            !multiple_of(total_dim as int, num_heads as int) ==> inference_err(
                r,
                "Total dimension must be divisible by num_heads"@,
            ),
            multiple_of(total_dim as int, num_heads as int) && num_heads > 0 ==> {
                let head_dim = total_dim / num_heads;
                &&& multiple_of((num_heads * head_dim) as int, 2) ==> (r matches Ok(a)
                    && a.spec_num_heads() == num_heads && a.spec_head_dim() == head_dim)
                &&& !multiple_of((num_heads * head_dim) as int, 2) ==> inference_err(
                    r,
                    "num_heads * head_dim must be even for RoPE"@,
                )
            },
    {
        let divisible = if num_heads == 0 { total_dim == 0 } else { total_dim % num_heads == 0 };
        if !divisible {
            return Err(MinervaError::InferenceError(text("Total dimension must be divisible by num_heads")));
        }
        let head_dim = total_dim / num_heads;
        proof {
            assert(num_heads * head_dim <= total_dim) by (nonlinear_arith)
                requires num_heads > 0, head_dim == total_dim / num_heads;
        }
        if (num_heads * head_dim) % 2 != 0 {
            return Err(MinervaError::InferenceError(text("num_heads * head_dim must be even for RoPE")));
        }
        Ok(MultiHeadAttention { num_heads, head_dim })
    }

    /// Number of heads.
    pub fn num_heads(&self) -> (r: usize)
        ensures
            r == self.spec_num_heads(),
    {
        self.num_heads
    }

    /// Size of each head.
    pub fn head_dim(&self) -> (r: usize)
        ensures
            r == self.spec_head_dim(),
    {
        self.head_dim
    }
}

/// Mask that keeps each position from attending to later ones: entry
/// `i * seq_len + j` is true exactly when `j <= i`.
pub fn create_causal_mask(seq_len: usize) -> (r: Vec<bool>)
    requires
        seq_len * seq_len <= usize::MAX,
    ensures
        r@.len() == seq_len * seq_len,
        forall|i: int, j: int| 0 <= i < seq_len && 0 <= j < seq_len ==> #[trigger] r@[i * seq_len + j] == (j <= i),
{
    let total = seq_len * seq_len;
    let mut mask: Vec<bool> = Vec::new();
    let mut k: usize = 0;
    while k < total
        invariant
            total == seq_len * seq_len,
            k <= total,
            mask@.len() == k,
            forall|p: int| 0 <= p < k ==> #[trigger] mask@[p] == (p % (seq_len as int) <= p / (seq_len as int)),
        decreases total - k,
    {
        let i = k / seq_len;
        let j = k % seq_len;
        mask.push(j <= i);
        k = k + 1;
    }
    proof {
        assert forall|i: int, j: int| 0 <= i < seq_len && 0 <= j < seq_len implies #[trigger] mask@[i * seq_len + j] == (j <= i) by {
            let p = i * seq_len + j;
            assert(0 <= p < total && p / (seq_len as int) == i && p % (seq_len as int) == j) by (nonlinear_arith)
                requires 0 <= i < seq_len, 0 <= j < seq_len, p == i * seq_len + j, total == seq_len * seq_len;
        }
    }
    mask
}

} // verus!
