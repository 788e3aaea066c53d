//! Settings of the transformer inference engine, the presets it comes
//! with, and the shape checks it makes on its weights and inputs. The
//! epsilon is the IEEE-754 bit pattern of an `f32`.
use vstd::prelude::*;

use crate::error::{decimal_text, inference_err, render_decimal, text, text_with_number, MinervaError, MinervaResult};
use crate::layers::Activation;

verus! {

/// Bits of `1e-6f32`.
pub const EPS_1E_6_BITS: u32 = 0x3586_37bd;

/// Bits of `1e-12f32`.
pub const EPS_1E_12_BITS: u32 = 0x2b8c_bccc;

/// Sizes and settings of a transformer model.
#[derive(Debug, Clone, Copy, PartialEq, Eq, Structural)]
pub struct InferenceEngineConfig {
    /// Vocabulary size
    pub vocab_size: usize,
    /// Hidden size
    pub hidden_size: usize,
    /// Attention heads
    pub num_heads: usize,
    /// Transformer layers
    pub num_layers: usize,
    /// Feed-forward size
    pub intermediate_size: usize,
    /// Feed-forward activation
    pub activation: Activation,
    /// Mask future positions
    pub causal: bool,
    /// Bit pattern of the normalisation epsilon
    pub eps: u32,
    /// Longest input
    pub max_seq_len: usize,
}

impl InferenceEngineConfig {
    /// LLaMA-style settings: 32 layers, a feed-forward size of 8/3 of the
    /// hidden size, SiLU, causal, epsilon 1e-6, 2048 positions.
    pub fn llama(vocab_size: usize, hidden_size: usize, num_heads: usize) -> (r: Self)
        requires
            hidden_size * 8 <= usize::MAX,
        ensures
            r == (InferenceEngineConfig {
                vocab_size,
                hidden_size,
                num_heads,
                num_layers: 32,
                intermediate_size: ((hidden_size * 8) / 3) as usize,
                activation: Activation::SiLU,
                causal: true,
                eps: EPS_1E_6_BITS,
                max_seq_len: 2048,
            }),
    {
        InferenceEngineConfig {
            vocab_size,
            hidden_size,
            num_heads,
            num_layers: 32,
            intermediate_size: (hidden_size * 8) / 3,
            activation: Activation::SiLU,
            causal: true,
            eps: EPS_1E_6_BITS,
            max_seq_len: 2048,
        }
    }

    /// BERT-style settings: 12 layers, a feed-forward size of four hidden
    /// sizes, GELU, bidirectional, epsilon 1e-12, 512 positions.
    pub fn bert(vocab_size: usize, hidden_size: usize, num_heads: usize) -> (r: Self)
        requires
            hidden_size * 4 <= usize::MAX,
        ensures
            r == (InferenceEngineConfig {
                vocab_size,
                hidden_size,
                num_heads,
                num_layers: 12,
                intermediate_size: (hidden_size * 4) as usize,
                activation: Activation::GELU,
                causal: false,
                eps: EPS_1E_12_BITS,
                max_seq_len: 512,
            }),
    {
        InferenceEngineConfig {
            vocab_size,
            hidden_size,
            num_heads,
            num_layers: 12,
            intermediate_size: hidden_size * 4,
            activation: Activation::GELU,
            causal: false,
            eps: EPS_1E_12_BITS,
            max_seq_len: 512,
        }
    }

    /// A tiny model for tests: hidden size 64, 2 heads, 2 layers, a
    /// feed-forward size of 128, ReLU, causal, 128 positions.
    pub fn tiny(vocab_size: usize) -> (r: Self)
        ensures
            r == (InferenceEngineConfig {
                vocab_size,
                hidden_size: 64,
                num_heads: 2,
                num_layers: 2,
                intermediate_size: 128,
                activation: Activation::ReLU,
                causal: true,
                eps: EPS_1E_6_BITS,
                max_seq_len: 128,
            }),
    {
        InferenceEngineConfig {
            vocab_size,
            hidden_size: 64,
            num_heads: 2,
            num_layers: 2,
            intermediate_size: 128,
            activation: Activation::ReLU,
            causal: true,
            eps: EPS_1E_6_BITS,
            max_seq_len: 128,
        }
    }

    /// Checks the sizes of an engine's weights against the settings, in
    /// order: the embedding matrix, the number of layers, the final norm
    /// scale and the output projection.
    pub fn check_weight_shapes(
        &self,
        embeddings_len: usize,
        layer_count: usize,
        final_norm_len: usize,
        output_proj_len: usize,
    ) -> (r: MinervaResult<()>)
        requires
            self.vocab_size * self.hidden_size <= usize::MAX,
        ensures
            embeddings_len != self.vocab_size * self.hidden_size ==> (r matches Err(MinervaError::InferenceError(m))
                && m@ == "Embedding shape mismatch: expected "@ + decimal_text(
                (self.vocab_size * self.hidden_size) as nat,
            ) + ", got "@ + decimal_text(embeddings_len as nat)),
            embeddings_len == self.vocab_size * self.hidden_size && layer_count != self.num_layers ==> (r matches Err(
                MinervaError::InferenceError(m),
            ) && m@ == "Number of layers mismatch: expected "@ + decimal_text(self.num_layers as nat) + ", got "@
                + decimal_text(layer_count as nat)),
            embeddings_len == self.vocab_size * self.hidden_size && layer_count == self.num_layers && final_norm_len
                != self.hidden_size ==> inference_err(r, "Final norm scale shape mismatch"@),
            embeddings_len == self.vocab_size * self.hidden_size && layer_count == self.num_layers && final_norm_len
                == self.hidden_size && output_proj_len != self.hidden_size * self.vocab_size ==> inference_err(
                r,
                "Output projection shape mismatch"@,
            ),
            embeddings_len == self.vocab_size * self.hidden_size && layer_count == self.num_layers && final_norm_len
                == self.hidden_size && output_proj_len == self.hidden_size * self.vocab_size ==> r is Ok,
    {
        let expected = self.vocab_size * self.hidden_size;
        if embeddings_len != expected {
            let mut m = text_with_number("Embedding shape mismatch: expected ", expected as u128, ", got ");
            let got = render_decimal(embeddings_len as u128);
            m.append(got.as_str());
            return Err(MinervaError::InferenceError(m));
        }
        if layer_count != self.num_layers {
            let mut m = text_with_number("Number of layers mismatch: expected ", self.num_layers as u128, ", got ");
            let got = render_decimal(layer_count as u128);
            m.append(got.as_str());
            return Err(MinervaError::InferenceError(m));
        }
        if final_norm_len != self.hidden_size {
            return Err(MinervaError::InferenceError(text("Final norm scale shape mismatch")));
        }
        proof {
            assert(self.hidden_size * self.vocab_size == self.vocab_size * self.hidden_size) by (nonlinear_arith);
        }
        if output_proj_len != self.hidden_size * self.vocab_size {
            return Err(MinervaError::InferenceError(text("Output projection shape mismatch")));
        }
        Ok(())
    }

    /// Checks the length of a token sequence before a forward pass: at
    /// least one token and at most `max_seq_len`.
    pub fn check_sequence(&self, seq_len: usize) -> (r: MinervaResult<()>)
        ensures
            seq_len == 0 ==> inference_err(r, "Empty token sequence"@),
            seq_len > self.max_seq_len ==> (r matches Err(MinervaError::InferenceError(m)) && m@
                == "Sequence length "@ + decimal_text(seq_len as nat) + " exceeds max "@ + decimal_text(
                self.max_seq_len as nat,
            )),
            0 < seq_len <= self.max_seq_len ==> r is Ok,
    {
        if seq_len == 0 {
            return Err(MinervaError::InferenceError(text("Empty token sequence")));
        }
        if seq_len > self.max_seq_len {
            let mut m = text_with_number("Sequence length ", seq_len as u128, " exceeds max ");
            let max = render_decimal(self.max_seq_len as u128);
            m.append(max.as_str());
            return Err(MinervaError::InferenceError(m));
        }
        Ok(())
    }
}

} // verus!
