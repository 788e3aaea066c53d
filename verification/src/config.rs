//! A model's `config.json`: its architecture sizes and the checks they
//! must pass.
use vstd::prelude::*;

use crate::error::{text, MinervaError, MinervaResult};

verus! {

/// The architecture a `config.json` describes. Floating-point settings are
/// held as their IEEE-754 bit patterns.
#[derive(Debug, Clone)]
pub struct ModelConfig {
    /// Architecture names
    pub architectures: Vec<String>,
    /// Hidden size
    pub hidden_size: usize,
    /// Feed-forward size
    pub intermediate_size: usize,
    /// Transformer layers
    pub num_hidden_layers: usize,
    /// Attention heads
    pub num_attention_heads: usize,
    /// Key-value heads, when attention is grouped
    pub num_key_value_heads: Option<usize>,
    /// Vocabulary size
    pub vocab_size: usize,
    /// Longest position
    pub max_position_embeddings: usize,
    /// Activation name
    pub hidden_act: String,
    /// Bit pattern of the RMS-norm epsilon
    pub rms_norm_eps: u32,
    /// Bit pattern of the rotary base
    pub rope_theta: Option<u32>,
    /// Bit pattern of the attention dropout
    pub attention_dropout: Option<u32>,
    /// Bit pattern of the layer-norm epsilon
    pub layer_norm_eps: Option<u32>,
}

/// The first size that is zero, in the order the checks run, with its
/// message; `None` when all are positive.
pub open spec fn config_error(c: ModelConfig) -> Option<Seq<char>> {
    if c.hidden_size == 0 {
        Some("hidden_size must be > 0"@)
    } else if c.num_hidden_layers == 0 {
        Some("num_hidden_layers must be > 0"@)
    } else if c.num_attention_heads == 0 {
        Some("num_attention_heads must be > 0"@)
    } else if c.vocab_size == 0 {
        Some("vocab_size must be > 0"@)
    } else {
        None
    }
}

impl ModelConfig {
    /// Checks that the sizes are positive.
    pub fn validate(&self) -> (r: MinervaResult<()>)
        ensures
            match config_error(*self) {
                Some(msg) => r matches Err(MinervaError::ValidationError(m)) && m@ == msg,
                None => r is Ok,
            },
    {
        if self.hidden_size == 0 {
            return Err(MinervaError::ValidationError(text("hidden_size must be > 0")));
        }
        if self.num_hidden_layers == 0 {
            return Err(MinervaError::ValidationError(text("num_hidden_layers must be > 0")));
        }
        if self.num_attention_heads == 0 {
            return Err(MinervaError::ValidationError(text("num_attention_heads must be > 0")));
        }
        if self.vocab_size == 0 {
            return Err(MinervaError::ValidationError(text("vocab_size must be > 0")));
        }
        Ok(())
    }

    /// Size of one attention head.
    pub fn head_dim(&self) -> (r: usize)
        requires
            self.num_attention_heads > 0,
        ensures
            r == self.hidden_size / self.num_attention_heads,
    {
        self.hidden_size / self.num_attention_heads
    }

    /// Key-value heads: the grouped count, or one per attention head.
    pub fn num_kv_heads(&self) -> (r: usize)
        ensures
            r == match self.num_key_value_heads {
                Some(n) => n,
                None => self.num_attention_heads,
            },
    {
        match self.num_key_value_heads {
            Some(n) => n,
            None => self.num_attention_heads,
        }
    }
}

} // verus!
