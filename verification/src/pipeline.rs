//! End-to-end generation: the prompt is tokenized, a token is sampled per
//! step until the end-of-sequence token or the token budget, and the
//! tokens are decoded. The per-step transformer computation and the timings
//! are floating point and run outside this module, once per sampled token.
use vstd::prelude::*;

use crate::compute::{GPUInferenceConfig, GPULlamaInference};
use crate::error::{inference_err, text, MinervaError, MinervaResult};
use crate::llama_tokenizer::{apply_merges, byte_units, greedy_tokens, LLaMATokenizer};

verus! {

/// Generation settings. `temperature` and `top_p` are the IEEE-754 bit
/// patterns of `f32` values.
#[derive(Debug, Clone, Copy, PartialEq, Eq, Structural)]
pub struct InferencePipelineParams {
    /// Most tokens to generate
    pub max_tokens: usize,
    /// Sampling temperature
    pub temperature: u32,
    /// Nucleus sampling threshold
    pub top_p: u32,
    /// Use the GPU
    pub use_gpu: bool,
}

/// Bits of `0.7f32`.
pub const DEFAULT_TEMPERATURE_BITS: u32 = 0x3f33_3333;

/// Bits of `0.9f32`.
pub const DEFAULT_TOP_P_BITS: u32 = 0x3f66_6666;

impl Default for InferencePipelineParams {
    fn default() -> (r: Self)
        ensures
            r == (InferencePipelineParams {
                max_tokens: 256,
                temperature: DEFAULT_TEMPERATURE_BITS,
                top_p: DEFAULT_TOP_P_BITS,
                use_gpu: true,
            }),
    {
        InferencePipelineParams {
            max_tokens: 256,
            temperature: DEFAULT_TEMPERATURE_BITS,
            top_p: DEFAULT_TOP_P_BITS,
            use_gpu: true,
        }
    }
}

/// The end-of-sequence token.
pub const EOS_TOKEN: u32 = 2;

/// Token sampled at step `position`: tokens 0 and 1 in turn, then the
/// end-of-sequence token from step 3 on.
pub open spec fn sample_at(position: nat) -> u32 {
    if position >= 3 {
        EOS_TOKEN
    } else {
        (position % 2) as u32
    }
}

/// Tokens after `steps` steps: each step appends the sampled token, and
/// nothing follows the end-of-sequence token.
pub open spec fn generation(steps: nat) -> Seq<u32>
    decreases steps,
{
    if steps == 0 {
        Seq::empty()
    } else {
        let before = generation((steps - 1) as nat);
        if before.len() > 0 && before.last() == EOS_TOKEN {
            before
        } else {
            before.push(sample_at((steps - 1) as nat))
        }
    }
}

/// Generation yields 0, 1, 0 and the end-of-sequence token, cut to the
/// budget: never more tokens than steps, and the last one is the
/// end-of-sequence token once there are four steps.
pub proof fn lemma_generation_shape(steps: nat)
    ensures
        generation(steps) == (if steps < 4 {
            seq![0u32, 1, 0, EOS_TOKEN].take(steps as int)
        } else {
            seq![0u32, 1, 0, EOS_TOKEN]
        }),
        generation(steps).len() <= steps,
        steps >= 4 ==> generation(steps).last() == EOS_TOKEN,
    decreases steps,
{
    if steps > 0 {
        lemma_generation_shape((steps - 1) as nat);
        let all = seq![0u32, 1, 0, EOS_TOKEN];
        if steps < 4 {
            assert(all.take(steps as int) =~= all.take(steps - 1).push(sample_at((steps - 1) as nat)));
        } else if steps == 4 {
            assert(all.take(3).push(sample_at(3)) =~= all);
        }
    }
}

/// The pipeline: a tokenizer, a transformer engine and the settings.
#[derive(Debug)]
pub struct InferencePipeline {
    tokenizer: LLaMATokenizer,
    gpu_inference: GPULlamaInference,
    params: InferencePipelineParams,
}

/// Engine settings the pipeline runs with: the defaults, with the GPU
/// switch taken from the parameters.
pub open spec fn pipeline_engine_config(params: InferencePipelineParams) -> GPUInferenceConfig {
    GPUInferenceConfig {
        gpu_enabled: params.use_gpu,
        use_simulation: true,
        num_heads: 8,
        head_dim: 64,
        hidden_dim: 512,
        intermediate_dim: 2048,
    }
}

impl InferencePipeline {
    /// The tokenizer.
    pub closed spec fn spec_tokenizer(&self) -> LLaMATokenizer {
        self.tokenizer
    }

    /// The transformer engine.
    pub closed spec fn spec_gpu_inference(&self) -> GPULlamaInference {
        self.gpu_inference
    }

    /// The settings.
    pub closed spec fn spec_params(&self) -> InferencePipelineParams {
        self.params
    }

    /// Well-formedness: the tokenizer is well formed.
    pub open spec fn wf(&self) -> bool {
        self.spec_tokenizer().wf()
    }

    /// A pipeline over `tokenizer` with the given settings.
    pub fn new(tokenizer: LLaMATokenizer, params: InferencePipelineParams) -> (r: MinervaResult<Self>)
        ensures
            r matches Ok(p) && p.spec_tokenizer() == tokenizer && p.spec_params() == params
                && p.spec_gpu_inference().spec_config() == pipeline_engine_config(params),
    {
        let defaults = GPUInferenceConfig::default();
        let config = GPUInferenceConfig { gpu_enabled: params.use_gpu, use_simulation: true, ..defaults };
        let gpu_inference = GPULlamaInference::new(config)?;
        Ok(InferencePipeline { tokenizer, gpu_inference, params })
    }

    /// A pipeline over the vocabulary `hello`, `world`, `</s>`.
    pub fn with_default_tokenizer(params: InferencePipelineParams) -> (r: MinervaResult<Self>)
        ensures
            r matches Ok(p) && p.wf() && p.spec_tokenizer().spec_vocab() == seq!["hello"@, "world"@, "</s>"@]
                && p.spec_params() == params && p.spec_gpu_inference().spec_config() == pipeline_engine_config(
                params,
            ),
    {
        let vocab = vec![text("hello"), text("world"), text("</s>")];
        let tokenizer = LLaMATokenizer::new(vocab)?;
        Self::new(tokenizer, params)
    }

    /// The token sampled at step `position`.
    pub fn sample_token(&self, position: u32) -> (r: u32)
        ensures
            r == sample_at(position as nat),
    {
        if position >= 3 {
            EOS_TOKEN
        } else {
            position % 2
        }
    }

    /// Tokens of the prompt; a prompt that yields none is refused.
    pub fn prompt_tokens(&self, prompt: &str) -> (r: MinervaResult<Vec<u32>>)
        requires
            self.wf(),
        ensures
            ({
                let t = self.spec_tokenizer();
                let tokens = greedy_tokens(
                    apply_merges(byte_units(prompt@), t.spec_merges()),
                    t.spec_vocab(),
                    t.spec_special().unk,
                );
                &&& tokens.len() == 0 ==> inference_err(r, "Empty tokenization result"@)
                &&& tokens.len() > 0 ==> (r matches Ok(v) && v@ == tokens)
            }),
    {
        let tokens = self.tokenizer.encode(prompt)?;
        if tokens.len() == 0 {
            return Err(MinervaError::InferenceError(text("Empty tokenization result")));
        }
        Ok(tokens)
    }

    /// Tokens generated within the token budget: one per step until the
    /// end-of-sequence token.
    pub fn generated_tokens(&self) -> (r: Vec<u32>)
        ensures
            r@ == generation(self.spec_params().max_tokens as nat),
            r@.len() <= self.spec_params().max_tokens,
    {
        let max_tokens = self.params.max_tokens;
        let mut out: Vec<u32> = Vec::new();
        let mut i: usize = 0;
        while i < max_tokens
            invariant_except_break
                i <= max_tokens,
                i <= 3,
                out@ == generation(i as nat),
                !(out@.len() > 0 && out@.last() == EOS_TOKEN),
            ensures
                out@ == generation(max_tokens as nat),
            decreases max_tokens - i,
        {
            let t = self.sample_token(i as u32);
            out.push(t);
            i = i + 1;
            if t == EOS_TOKEN {
                proof {
                    assert(out@ == generation(4));
                    lemma_generation_tail(4, max_tokens as nat);
                }
                break;
            }
        }
        proof {
            lemma_generation_shape(max_tokens as nat);
        }
        out
    }

    /// The settings.
    pub fn params(&self) -> (r: &InferencePipelineParams)
        ensures
            *r == self.spec_params(),
    {
        &self.params
    }

    /// The tokenizer.
    pub fn tokenizer(&self) -> (r: &LLaMATokenizer)
        ensures
            *r == self.spec_tokenizer(),
    {
        &self.tokenizer
    }

    /// The transformer engine.
    pub fn gpu_inference(&self) -> (r: &GPULlamaInference)
        ensures
            *r == self.spec_gpu_inference(),
    {
        &self.gpu_inference
    }
}

/// Once a generation ends with the end-of-sequence token, further steps
/// leave it as it is.
proof fn lemma_generation_tail(a: nat, b: nat)
    requires
        a <= b,
        generation(a).len() > 0,
        generation(a).last() == EOS_TOKEN,
    ensures
        generation(b) == generation(a),
    decreases b - a,
{
    if a < b {
        lemma_generation_tail(a, (b - 1) as nat);
    }
}

} // verus!
