//! Compute engines: the simulated GPU device, its memory pool and their settings.
use vstd::prelude::*;

use crate::error::{decimal_text, inference_err, render_decimal, text, text_with_number, MinervaError, MinervaResult};
use crate::metal_gpu::{GPUMemoryPool, MetalDevice, MetalDeviceInfo};

verus! {

/// Compute engine settings.
#[derive(Debug, Clone, Copy, PartialEq, Eq, Structural)]
pub struct GPUComputeConfig {
    /// Use the GPU
    pub enabled: bool,
    /// Size of the GPU memory pool in bytes
    pub pool_size: usize,
    /// Simulate the GPU
    pub use_simulation: bool,
}

/// 4 GiB, the default pool size.
pub open spec fn default_pool_size() -> usize {
    4_294_967_296u64 as usize
}

impl Default for GPUComputeConfig {
    fn default() -> (r: Self)
        ensures
            r == (GPUComputeConfig { enabled: true, pool_size: default_pool_size(), use_simulation: true }),
    {
        let pool: u64 = 4_294_967_296;
        GPUComputeConfig { enabled: true, pool_size: pool as usize, use_simulation: true }
    }
}

/// Shape of a matrix product: `a` is `a_rows` by `a_cols`, `b` is `a_cols` by `b_cols`.
#[derive(Debug, Clone, Copy, PartialEq, Eq, Structural)]
pub struct MatmulParams {
    /// Rows of `a`
    pub a_rows: usize,
    /// Columns of `a`
    pub a_cols: usize,
    /// Columns of `b`
    pub b_cols: usize,
}

/// Runs tensor operations on a (simulated) GPU device.
#[derive(Debug)]
pub struct GPUComputeEngine {
    device: MetalDevice,
    memory_pool: GPUMemoryPool,
    config: GPUComputeConfig,
}

impl GPUComputeEngine {
    /// Settings.
    pub closed spec fn spec_config(&self) -> GPUComputeConfig {
        self.config
    }

    /// The device.
    pub closed spec fn spec_device(&self) -> MetalDevice {
        self.device
    }

    /// The memory pool.
    pub closed spec fn spec_pool(&self) -> GPUMemoryPool {
        self.memory_pool
    }

    /// Engine on a simulated device with a pool of the configured size.
    pub fn new(config: GPUComputeConfig) -> (r: MinervaResult<Self>)
        ensures
            r matches Ok(e) && e.spec_config() == config && e.spec_device().wf()
                && e.spec_device().spec_info().name@ == "Simulated Metal GPU"@ && e.spec_device().spec_info().is_simulated
                && e.spec_pool().spec_free() == seq![(0usize, config.pool_size)]
                && e.spec_pool().spec_allocated().len() == 0,
    {
        let device = MetalDevice::simulated();
        let memory_pool = GPUMemoryPool::new(config.pool_size);
        Ok(GPUComputeEngine { device, memory_pool, config })
    }

    /// Engine with the GPU on, simulated, and the default pool size.
    pub fn simulated() -> (r: MinervaResult<Self>)
        ensures
            r matches Ok(e) && e.spec_config() == (GPUComputeConfig { enabled: true, pool_size: default_pool_size(), use_simulation: true })
                && e.spec_device().spec_info().is_simulated,
    {
        let defaults = GPUComputeConfig::default();
        let config = GPUComputeConfig { enabled: true, use_simulation: true, pool_size: defaults.pool_size };
        Self::new(config)
    }

    /// Whether the GPU is on.
    pub fn is_enabled(&self) -> (r: bool)
        ensures
            r == self.spec_config().enabled,
    {
        self.config.enabled
    }

    /// Settings.
    pub fn config(&self) -> (r: GPUComputeConfig)
        ensures
            r == self.spec_config(),
    {
        self.config
    }

    /// A copy of the device description.
    pub fn device_info(&self) -> (r: MetalDeviceInfo)
        ensures
            r.name@ == self.spec_device().spec_info().name@,
            r.max_memory_mb == self.spec_device().spec_info().max_memory_mb,
            r.is_simulated == self.spec_device().spec_info().is_simulated,
            r.capability == self.spec_device().spec_info().capability,
    {
        self.device.info().duplicate()
    }

    /// Rows of `head_dim` per head in a query of `q_len` elements, checking,
    /// when the GPU is on, that the query is a whole number of rows of every
    /// head.
    pub fn attention_seq_len(&self, q_len: usize, params: AttentionParams) -> (r: MinervaResult<usize>)
        requires
            params.heads * params.head_dim > 0,
            params.heads * params.head_dim <= usize::MAX,
        ensures
            self.spec_config().enabled && (q_len as int) % (params.heads * params.head_dim) != 0 ==> inference_err(
                r,
                "Invalid attention input shape"@,
            ),
            !(self.spec_config().enabled && (q_len as int) % (params.heads * params.head_dim) != 0) ==> (r matches Ok(
                n,
            ) && n == (q_len as int) / (params.heads * params.head_dim)),
    {
        let width = params.heads * params.head_dim;
        let seq_len = q_len / width;
        if self.config.enabled {
            proof {
                assert(q_len == width * seq_len + q_len % width) by (nonlinear_arith)
                    requires width > 0, seq_len == q_len / width;
                assert(width * seq_len <= q_len) by (nonlinear_arith)
                    requires width > 0, seq_len == q_len / width;
            }
            if q_len != width * seq_len {
                return Err(MinervaError::InferenceError(text("Invalid attention input shape")));
            }
        }
        Ok(seq_len)
    }
}

/// Shape of an attention computation: heads, and the size of each.
#[derive(Debug, Clone, Copy, PartialEq, Eq, Structural)]
pub struct AttentionParams {
    /// Attention heads
    pub heads: usize,
    /// Size of each head
    pub head_dim: usize,
}

/// Checks that an element-wise product gets two buffers of one length.
pub fn check_element_mul(a_len: usize, b_len: usize) -> (r: MinervaResult<()>)
    ensures
        a_len != b_len ==> inference_err(r, "Element multiplication requires same-sized inputs"@),
        a_len == b_len ==> r is Ok,
{
    if a_len != b_len {
        return Err(MinervaError::InferenceError(text("Element multiplication requires same-sized inputs")));
    }
    Ok(())
}

/// Checks that RMS normalisation gets one weight per input element.
pub fn check_rmsnorm_weight(x_len: usize, weight_len: usize) -> (r: MinervaResult<()>)
    ensures
        x_len != weight_len ==> inference_err(r, "RMSNorm weight mismatch"@),
        x_len == weight_len ==> r is Ok,
{
    if x_len != weight_len {
        return Err(MinervaError::InferenceError(text("RMSNorm weight mismatch")));
    }
    Ok(())
}

/// Settings of GPU transformer inference.
#[derive(Debug, Clone, Copy, PartialEq, Eq, Structural)]
pub struct GPUInferenceConfig {
    /// Use the GPU
    pub gpu_enabled: bool,
    /// Simulate the GPU
    pub use_simulation: bool,
    /// Attention heads
    pub num_heads: usize,
    /// Size of each head
    pub head_dim: usize,
    /// Hidden size
    pub hidden_dim: usize,
    /// Feed-forward size
    pub intermediate_dim: usize,
}

impl Default for GPUInferenceConfig {
    fn default() -> (r: Self)
        ensures
            r == (GPUInferenceConfig {
                gpu_enabled: true,
                use_simulation: true,
                num_heads: 8,
                head_dim: 64,
                hidden_dim: 512,
                intermediate_dim: 2048,
            }),
    {
        GPUInferenceConfig {
            gpu_enabled: true,
            use_simulation: true,
            num_heads: 8,
            head_dim: 64,
            hidden_dim: 512,
            intermediate_dim: 2048,
        }
    }
}


/// The projections of a transformer block.
#[derive(Debug, Clone, Copy, PartialEq, Eq, Structural)]
pub enum Projection {
    /// Hidden state to queries, keys or values
    Attention,
    /// Attention output back to the hidden state
    Output,
    /// Hidden state into the feed-forward layer (gate and up)
    FfnUp,
    /// Feed-forward layer back to the hidden state
    FfnDown,
}

/// Elements a projection's weight matrix holds.
pub open spec fn projection_weight_len(c: GPUInferenceConfig, p: Projection) -> int {
    match p {
        Projection::Attention => c.hidden_dim * (c.num_heads * c.head_dim),
        Projection::Output => (c.num_heads * c.head_dim) * c.hidden_dim,
        Projection::FfnUp => c.hidden_dim * c.intermediate_dim,
        Projection::FfnDown => c.intermediate_dim * c.hidden_dim,
    }
}

/// What a projection with a weight of the wrong size is refused with.
pub open spec fn projection_message(p: Projection) -> Seq<char> {
    match p {
        Projection::Attention => "Weight dimension mismatch for attention projection"@,
        Projection::Output => "Weight dimension mismatch for output projection"@,
        Projection::FfnUp => "Weight dimension mismatch for FFN up projection"@,
        Projection::FfnDown => "Weight dimension mismatch for FFN down projection"@,
    }
}

/// Every size the block computes with fits in a machine word.
pub open spec fn block_sizes_fit(c: GPUInferenceConfig) -> bool {
    &&& c.num_heads * c.head_dim <= usize::MAX
    &&& c.hidden_dim * (c.num_heads * c.head_dim) <= usize::MAX
    &&& c.hidden_dim * c.intermediate_dim <= usize::MAX
}

/// Checks that a SiLU gating gets as many gate elements as values.
pub fn check_silu_gate(x_len: usize, gate_len: usize) -> (r: MinervaResult<()>)
    ensures
        x_len != gate_len ==> inference_err(r, "SiLU gate dimension mismatch"@),
        x_len == gate_len ==> r is Ok,
{
    if x_len != gate_len {
        return Err(MinervaError::InferenceError(text("SiLU gate dimension mismatch")));
    }
    Ok(())
}

/// Transformer inference on a GPU compute engine.
#[derive(Debug)]
pub struct GPULlamaInference {
    compute_engine: GPUComputeEngine,
    config: GPUInferenceConfig,
}

impl GPULlamaInference {
    /// Settings.
    pub closed spec fn spec_config(&self) -> GPUInferenceConfig {
        self.config
    }

    /// The compute engine.
    pub closed spec fn spec_engine(&self) -> GPUComputeEngine {
        self.compute_engine
    }

    /// Inference with the given settings on a simulated engine.
    pub fn new(config: GPUInferenceConfig) -> (r: MinervaResult<Self>)
        ensures
            r matches Ok(g) && g.spec_config() == config && g.spec_engine().spec_config().enabled,
    {
        let compute_engine = GPUComputeEngine::simulated()?;
        Ok(GPULlamaInference { compute_engine, config })
    }

    /// Inference with the default settings on a simulated engine.
    pub fn simulated() -> (r: MinervaResult<Self>)
        ensures
            r matches Ok(g) && g.spec_config() == (GPUInferenceConfig {
                gpu_enabled: true,
                use_simulation: true,
                num_heads: 8,
                head_dim: 64,
                hidden_dim: 512,
                intermediate_dim: 2048,
            }),
    {
        Self::new(GPUInferenceConfig::default())
    }

    /// Whether the GPU is on.
    pub fn is_gpu_enabled(&self) -> (r: bool)
        ensures
            r == self.spec_config().gpu_enabled,
    {
        self.config.gpu_enabled
    }

    /// Settings.
    pub fn config(&self) -> (r: &GPUInferenceConfig)
        ensures
            *r == self.spec_config(),
    {
        &self.config
    }

    /// Checks the input of a transformer block: one hidden state.
    pub fn check_block_input(&self, input_len: usize) -> (r: MinervaResult<()>)
        ensures
            input_len != self.spec_config().hidden_dim ==> (r matches Err(MinervaError::InferenceError(m)) && m@
                == "Input dimension mismatch: expected "@ + decimal_text(self.spec_config().hidden_dim as nat)
                + ", got "@ + decimal_text(input_len as nat)),
            input_len == self.spec_config().hidden_dim ==> r is Ok,
    {
        if input_len != self.config.hidden_dim {
            let mut m = text_with_number("Input dimension mismatch: expected ", self.config.hidden_dim as u128, ", got ");
            let got = render_decimal(input_len as u128);
            m.append(got.as_str());
            return Err(MinervaError::InferenceError(m));
        }
        Ok(())
    }

    /// Checks the size of a projection's weight matrix.
    pub fn check_projection(&self, p: Projection, weight_len: usize) -> (r: MinervaResult<()>)
        requires
            block_sizes_fit(self.spec_config()),
        ensures
            weight_len != projection_weight_len(self.spec_config(), p) ==> inference_err(r, projection_message(p)),
            weight_len == projection_weight_len(self.spec_config(), p) ==> r is Ok,
    {
        let c = self.config;
        let width = c.num_heads * c.head_dim;
        proof {
            assert(width * c.hidden_dim == c.hidden_dim * width) by (nonlinear_arith);
            assert(c.intermediate_dim * c.hidden_dim == c.hidden_dim * c.intermediate_dim) by (nonlinear_arith);
        }
        match p {
            Projection::Attention => {
                if weight_len != c.hidden_dim * width {
                    return Err(MinervaError::InferenceError(text("Weight dimension mismatch for attention projection")));
                }
            },
            Projection::Output => {
                if weight_len != width * c.hidden_dim {
                    return Err(MinervaError::InferenceError(text("Weight dimension mismatch for output projection")));
                }
            },
            Projection::FfnUp => {
                if weight_len != c.hidden_dim * c.intermediate_dim {
                    return Err(MinervaError::InferenceError(text("Weight dimension mismatch for FFN up projection")));
                }
            },
            Projection::FfnDown => {
                if weight_len != c.intermediate_dim * c.hidden_dim {
                    return Err(MinervaError::InferenceError(text("Weight dimension mismatch for FFN down projection")));
                }
            },
        }
        Ok(())
    }

    /// The compute engine.
    pub fn engine(&self) -> (r: &GPUComputeEngine)
        ensures
            *r == self.spec_engine(),
    {
        &self.compute_engine
    }
}

} // verus!
