//! Simulated Metal GPU device: buffers, kernel checks and a first-fit memory pool.
use vstd::prelude::*;

use crate::error::{inference_err, text, MinervaError, MinervaResult};

verus! {

/// GPU device capabilities.
#[derive(Debug, Clone, Copy, PartialEq, Eq, Structural)]
pub enum GPUCapability {
    /// Basic compute support
    Basic,
    /// Simdgroup operations
    Simdgroup,
    /// Raster operations
    Raster,
}

/// Metal device information.
#[derive(Debug)]
pub struct MetalDeviceInfo {
    /// Device name
    pub name: String,
    /// Maximum memory available in MB
    pub max_memory_mb: u64,
    /// Whether the device is simulated
    pub is_simulated: bool,
    /// GPU capabilities
    pub capability: GPUCapability,
}

impl MetalDeviceInfo {
    /// Device info for a simulated device.
    pub fn simulated(name: &str) -> (r: Self)
        ensures
            r.name@ == name@,
            r.max_memory_mb == 4096,
            r.is_simulated,
            r.capability == GPUCapability::Basic,
    {
        MetalDeviceInfo {
            name: text(name),
            max_memory_mb: 4096,
            is_simulated: true,
            capability: GPUCapability::Basic,
        }
    }

    /// Device info for a real Metal device.
    pub fn real_device(name: &str, max_memory_mb: u64) -> (r: Self)
        ensures
            r.name@ == name@,
            r.max_memory_mb == max_memory_mb,
            !r.is_simulated,
            r.capability == GPUCapability::Simdgroup,
    {
        MetalDeviceInfo {
            name: text(name),
            max_memory_mb,
            is_simulated: false,
            capability: GPUCapability::Simdgroup,
        }
    }

    /// A copy of this info.
    pub fn duplicate(&self) -> (r: Self)
        ensures
            r.name@ == self.name@,
            r.max_memory_mb == self.max_memory_mb,
            r.is_simulated == self.is_simulated,
            r.capability == self.capability,
    {
        MetalDeviceInfo {
            name: self.name.clone(),
            max_memory_mb: self.max_memory_mb,
            is_simulated: self.is_simulated,
            capability: self.capability,
        }
    }
}

/// A buffer of bytes that lives either on the CPU or on the GPU.
#[derive(Debug)]
pub struct GPUBuffer {
    id: usize,
    size: usize,
    is_on_gpu: bool,
    cpu_data: Vec<u8>,
}

impl GPUBuffer {
    /// The buffer's identifier.
    pub closed spec fn spec_id(&self) -> usize {
        self.id
    }

    /// The size fixed when the buffer was made.
    pub closed spec fn spec_size(&self) -> usize {
        self.size
    }

    /// The bytes the buffer holds.
    pub closed spec fn spec_data(&self) -> Seq<u8> {
        self.cpu_data@
    }

    /// Whether the buffer is marked as resident on the GPU.
    pub closed spec fn spec_on_gpu(&self) -> bool {
        self.is_on_gpu
    }

    /// Well-formedness: the bytes always have the buffer's size.
    pub open spec fn wf(&self) -> bool {
        self.spec_data().len() == self.spec_size()
    }

    /// New buffer holding `data`, resident on the CPU.
    pub fn new(id: usize, data: Vec<u8>) -> (r: Self)
        ensures
            r.wf(),
            r.spec_id() == id,
            r.spec_size() == data@.len(),
            r.spec_data() == data@,
            !r.spec_on_gpu(),
    {
        let size = data.len();
        GPUBuffer { id, size, is_on_gpu: false, cpu_data: data }
    }

    /// Buffer size in bytes.
    pub fn size(&self) -> (r: usize)
        ensures
            r == self.spec_size(),
    {
        self.size
    }

    /// Buffer identifier.
    pub fn id(&self) -> (r: usize)
        ensures
            r == self.spec_id(),
    {
        self.id
    }

    /// A copy of the buffer's bytes.
    pub fn read(&self) -> (r: MinervaResult<Vec<u8>>)
        ensures
            r matches Ok(d) && d@ == self.spec_data(),
    {
        Ok(self.cpu_data.clone())
    }

    /// Replaces the buffer's bytes; the new bytes must have the buffer's size.
    pub fn write(&mut self, data: Vec<u8>) -> (r: MinervaResult<()>)
        ensures
            final(self).spec_id() == old(self).spec_id(),
            final(self).spec_size() == old(self).spec_size(),
            final(self).spec_on_gpu() == old(self).spec_on_gpu(),
            data@.len() == old(self).spec_size() ==> r is Ok && final(self).spec_data() == data@,
            data@.len() != old(self).spec_size() ==> inference_err(r, "Buffer size mismatch on write"@) && final(self).spec_data() == old(self).spec_data(),
    {
        if data.len() != self.size {
            return Err(MinervaError::InferenceError(text("Buffer size mismatch on write")));
        }
        self.cpu_data = data;
        Ok(())
    }

    /// Marks the buffer as resident on the GPU.
    pub fn mark_on_gpu(&mut self)
        ensures
            final(self).spec_on_gpu(),
            final(self).spec_id() == old(self).spec_id(),
            final(self).spec_size() == old(self).spec_size(),
            final(self).spec_data() == old(self).spec_data(),
    {
        self.is_on_gpu = true;
    }

    /// Marks the buffer as resident on the CPU.
    pub fn mark_on_cpu(&mut self)
        ensures
            !final(self).spec_on_gpu(),
            final(self).spec_id() == old(self).spec_id(),
            final(self).spec_size() == old(self).spec_size(),
            final(self).spec_data() == old(self).spec_data(),
    {
        self.is_on_gpu = false;
    }

    /// Whether the buffer is on the GPU.
    pub fn is_on_gpu(&self) -> (r: bool)
        ensures
            r == self.spec_on_gpu(),
    {
        self.is_on_gpu
    }

    /// A copy of the buffer.
    pub fn duplicate(&self) -> (r: Self)
        ensures
            r.spec_id() == self.spec_id(),
            r.spec_size() == self.spec_size(),
            r.spec_data() == self.spec_data(),
            r.spec_on_gpu() == self.spec_on_gpu(),
    {
        GPUBuffer {
            id: self.id,
            size: self.size,
            is_on_gpu: self.is_on_gpu,
            cpu_data: self.cpu_data.clone(),
        }
    }
}

/// GPU kernels the device can run.
#[derive(Debug, Clone, Copy, PartialEq, Eq, Structural)]
pub enum KernelType {
    /// Matrix multiplication
    MatMul,
    /// Attention
    Attention,
    /// Layer normalization
    LayerNorm,
    /// Element-wise SiLU
    SiLU,
    /// Softmax normalization
    Softmax,
    /// Element-wise multiplication
    ElementMul,
}

/// Name of a kernel, for debugging.
pub open spec fn kernel_name(k: KernelType) -> Seq<char> {
    match k {
        KernelType::MatMul => "matmul"@,
        KernelType::Attention => "attention"@,
        KernelType::LayerNorm => "layer_norm"@,
        KernelType::SiLU => "silu"@,
        KernelType::Softmax => "softmax"@,
        KernelType::ElementMul => "element_mul"@,
    }
}

/// Number of input buffers a kernel takes.
pub open spec fn kernel_arity(k: KernelType) -> nat {
    match k {
        KernelType::MatMul => 2,
        KernelType::Attention => 3,
        KernelType::LayerNorm => 2,
        KernelType::SiLU => 1,
        KernelType::Softmax => 1,
        KernelType::ElementMul => 2,
    }
}

/// Error text for a kernel given the wrong number of inputs.
pub open spec fn kernel_arity_message(k: KernelType) -> Seq<char> {
    match k {
        KernelType::MatMul => "MatMul requires 2 inputs"@,
        KernelType::Attention => "Attention requires 3 inputs (Q, K, V)"@,
        KernelType::LayerNorm => "LayerNorm requires 2 inputs (input, weight)"@,
        KernelType::SiLU => "SiLU requires 1 input"@,
        KernelType::Softmax => "Softmax requires 1 input"@,
        KernelType::ElementMul => "ElementMul requires 2 inputs"@,
    }
}

impl KernelType {
    /// Kernel name for debugging.
    pub fn name(&self) -> (r: &'static str)
        ensures
            r@ == kernel_name(*self),
    {
        match self {
            KernelType::MatMul => "matmul",
            KernelType::Attention => "attention",
            KernelType::LayerNorm => "layer_norm",
            KernelType::SiLU => "silu",
            KernelType::Softmax => "softmax",
            KernelType::ElementMul => "element_mul",
        }
    }

    /// Number of input buffers the kernel takes.
    pub fn arity(&self) -> (r: usize)
        ensures
            r == kernel_arity(*self),
    {
        match self {
            KernelType::MatMul => 2,
            KernelType::Attention => 3,
            KernelType::LayerNorm => 2,
            KernelType::SiLU => 1,
            KernelType::Softmax => 1,
            KernelType::ElementMul => 2,
        }
    }

    fn arity_message(&self) -> (r: &'static str)
        ensures
            r@ == kernel_arity_message(*self),
    {
        match self {
            KernelType::MatMul => "MatMul requires 2 inputs",
            KernelType::Attention => "Attention requires 3 inputs (Q, K, V)",
            KernelType::LayerNorm => "LayerNorm requires 2 inputs (input, weight)",
            KernelType::SiLU => "SiLU requires 1 input",
            KernelType::Softmax => "Softmax requires 1 input",
            KernelType::ElementMul => "ElementMul requires 2 inputs",
        }
    }
}

/// Kernel launch configuration.
#[derive(Debug, Clone, Copy)]
pub struct KernelConfig {
    /// Kernel type
    pub kernel: KernelType,
    /// Thread group size
    pub thread_group_size: u32,
    /// Use SIMD optimization
    pub use_simd: bool,
}

impl KernelConfig {
    /// The default configuration: a matrix multiplication, 256 threads, SIMD on.
    pub fn default_config() -> (r: Self)
        ensures
            r.kernel == KernelType::MatMul,
            r.thread_group_size == 256,
            r.use_simd,
    {
        KernelConfig { kernel: KernelType::MatMul, thread_group_size: 256, use_simd: true }
    }
}

impl Default for KernelConfig {
    fn default() -> (r: Self)
        ensures
            r.kernel == KernelType::MatMul,
            r.thread_group_size == 256,
            r.use_simd,
    {
        Self::default_config()
    }
}

/// Buffers a kernel reads and writes.
#[derive(Debug)]
pub struct KernelBuffers {
    /// Input buffer IDs
    pub input_buffers: Vec<usize>,
    /// Output buffer ID
    pub output_buffer: usize,
}

impl KernelBuffers {
    /// New kernel buffers.
    pub fn new(input_buffers: Vec<usize>, output_buffer: usize) -> (r: Self)
        ensures
            r.input_buffers@ == input_buffers@,
            r.output_buffer == output_buffer,
    {
        KernelBuffers { input_buffers, output_buffer }
    }
}

/// Index of the first buffer with identifier `id`, if any.
pub open spec fn find_buffer(bufs: Seq<GPUBuffer>, id: usize) -> Option<int> {
    if exists|i: int| 0 <= i < bufs.len() && #[trigger] bufs[i].spec_id() == id {
        Some(choose|i: int| 0 <= i < bufs.len() && #[trigger] bufs[i].spec_id() == id
            && forall|j: int| 0 <= j < i ==> bufs[j].spec_id() != id)
    } else {
        None
    }
}

/// The first index holding `id` exists and is unique.
proof fn lemma_find_buffer(bufs: Seq<GPUBuffer>, id: usize, k: int)
    requires
        0 <= k < bufs.len(),
        bufs[k].spec_id() == id,
        forall|j: int| 0 <= j < k ==> bufs[j].spec_id() != id,
    ensures
        find_buffer(bufs, id) == Some(k),
{
    let i = choose|i: int| 0 <= i < bufs.len() && #[trigger] bufs[i].spec_id() == id
        && forall|j: int| 0 <= j < i ==> bufs[j].spec_id() != id;
    assert(0 <= i < bufs.len() && bufs[i].spec_id() == id && forall|j: int| 0 <= j < i ==> bufs[j].spec_id() != id);
    if i < k {
        assert(bufs[i].spec_id() != id);
    } else if k < i {
        assert(bufs[k].spec_id() != id);
    }
}

/// Simulated Metal GPU device that keeps a registry of buffers.
#[derive(Debug)]
pub struct MetalDevice {
    info: MetalDeviceInfo,
    buffers: Vec<GPUBuffer>,
    command_queue_id: usize,
    next_buffer_id: usize,
}

/// Error text for a missing buffer.
pub open spec fn buffer_not_found_message(id: usize) -> Seq<char> {
    "Buffer "@ + crate::error::decimal_text(id as nat) + " not found"@
}

impl MetalDevice {
    /// The registered buffers, oldest first.
    pub closed spec fn spec_buffers(&self) -> Seq<GPUBuffer> {
        self.buffers@
    }

    /// The identifier the next allocation will receive.
    pub closed spec fn spec_next_id(&self) -> usize {
        self.next_buffer_id
    }

    /// The device description.
    pub closed spec fn spec_info(&self) -> &MetalDeviceInfo {
        &self.info
    }

    /// Well-formedness: every buffer is well formed, identifiers are distinct
    /// and all below the next identifier to hand out.
    pub open spec fn wf(&self) -> bool {
        &&& forall|i: int| 0 <= i < self.spec_buffers().len() ==> (#[trigger] self.spec_buffers()[i]).wf()
        &&& forall|i: int| 0 <= i < self.spec_buffers().len() ==> (#[trigger] self.spec_buffers()[i]).spec_id() < self.spec_next_id()
        &&& forall|i: int, j: int| 0 <= i < j < self.spec_buffers().len()
            ==> #[trigger] self.spec_buffers()[i].spec_id() != #[trigger] self.spec_buffers()[j].spec_id()
    }

    /// The bytes held by buffer `id`, if it exists.
    pub open spec fn buffer_data(&self, id: usize) -> Option<Seq<u8>> {
        match find_buffer(self.spec_buffers(), id) {
            Some(i) => Some(self.spec_buffers()[i].spec_data()),
            None => None,
        }
    }

    /// New device with no buffers.
    pub fn new(info: MetalDeviceInfo) -> (r: Self)
        ensures
            r.wf(),
            r.spec_buffers().len() == 0,
            r.spec_next_id() == 0,
            *r.spec_info() == info,
    {
        MetalDevice { info, buffers: Vec::new(), command_queue_id: 0, next_buffer_id: 0 }
    }

    /// Simulated device for testing.
    pub fn simulated() -> (r: Self)
        ensures
            r.wf(),
            r.spec_buffers().len() == 0,
            r.spec_next_id() == 0,
            r.spec_info().name@ == "Simulated Metal GPU"@,
            r.spec_info().is_simulated,
            r.spec_info().max_memory_mb == 4096,
    {
        Self::new(MetalDeviceInfo::simulated("Simulated Metal GPU"))
    }

    /// Device info.
    pub fn info(&self) -> (r: &MetalDeviceInfo)
        ensures
            r == self.spec_info(),
    {
        &self.info
    }

    /// Allocates a zero-filled buffer of `size` bytes and returns its identifier.
    pub fn allocate_buffer(&mut self, size: usize) -> (r: MinervaResult<usize>)
        requires
            old(self).wf(),
            old(self).spec_next_id() < usize::MAX,
        ensures
            final(self).wf(),
            r == Ok::<usize, MinervaError>(old(self).spec_next_id()),
            final(self).spec_next_id() == old(self).spec_next_id() + 1,
            final(self).spec_buffers().len() == old(self).spec_buffers().len() + 1,
            final(self).spec_buffers().drop_last() == old(self).spec_buffers(),
            final(self).spec_buffers().last().spec_id() == old(self).spec_next_id(),
            final(self).spec_buffers().last().spec_data() == Seq::new(size as nat, |i: int| 0u8),
            !final(self).spec_buffers().last().spec_on_gpu(),
            *final(self).spec_info() == *old(self).spec_info(),
    {
        let id = self.next_buffer_id;
        self.next_buffer_id = id + 1;
        let buffer = GPUBuffer::new(id, vec![0u8; size]);
        let ghost b = buffer;
        self.buffers.push(buffer);
        proof {
            assert(self.buffers@[old(self).buffers@.len() as int] == b);
            assert(self.buffers@.drop_last() =~= old(self).buffers@);
            assert(self.buffers@.last().cpu_data@ =~= Seq::new(size as nat, |i: int| 0u8));
            let o = old(self).spec_buffers();
            let n = self.spec_buffers();
            assert forall|a: int| 0 <= a < n.len() implies (#[trigger] n[a]).wf() && n[a].spec_id() < self.next_buffer_id by {
                if a < o.len() {
                    assert(n[a] == o[a]);
                }
            }
            assert forall|a: int, c: int| 0 <= a < c < n.len() implies
                #[trigger] n[a].spec_id() != #[trigger] n[c].spec_id() by {
                assert(n[a] == o[a]);
                if c < o.len() {
                    assert(n[c] == o[c]);
                }
            }
        }
        Ok(id)
    }

    /// Position of the first buffer with `id`.
    fn position(&self, id: usize) -> (r: Option<usize>)
        ensures
            match r {
                Some(i) => find_buffer(self.spec_buffers(), id) == Some(i as int) && i < self.spec_buffers().len(),
                None => find_buffer(self.spec_buffers(), id) is None,
            },
    {
        let mut i: usize = 0;
        while i < self.buffers.len()
            invariant
                i <= self.buffers@.len(),
                forall|j: int| 0 <= j < i ==> self.buffers@[j].spec_id() != id,
            decreases self.buffers@.len() - i,
        {
            if self.buffers[i].id == id {
                proof {
                    lemma_find_buffer(self.buffers@, id, i as int);
                }
                return Some(i);
            }
            i = i + 1;
        }
        None
    }

    /// Frees the buffer with `id`.
    pub fn free_buffer(&mut self, id: usize) -> (r: MinervaResult<()>)
        requires
            old(self).wf(),
        ensures
            final(self).wf(),
            *final(self).spec_info() == *old(self).spec_info(),
            final(self).spec_next_id() == old(self).spec_next_id(),
            match find_buffer(old(self).spec_buffers(), id) {
                Some(i) => r is Ok && final(self).spec_buffers() == old(self).spec_buffers().remove(i),
                None => final(self).spec_buffers() == old(self).spec_buffers()
                    && inference_err(r, buffer_not_found_message(id)),
            },
    {
        match self.position(id) {
            Some(pos) => {
                self.buffers.remove(pos);
                proof {
                    let o = old(self).spec_buffers();
                    let n = self.spec_buffers();
                    assert forall|a: int, b: int| 0 <= a < b < n.len() implies
                        #[trigger] n[a].spec_id() != #[trigger] n[b].spec_id() by {
                        let a2 = if a < pos { a } else { a + 1 };
                        let b2 = if b < pos { b } else { b + 1 };
                        assert(n[a] == o[a2]);
                        assert(n[b] == o[b2]);
                    }
                    assert forall|a: int| 0 <= a < n.len() implies (#[trigger] n[a]).wf() && n[a].spec_id() < self.next_buffer_id by {
                        let a2 = if a < pos { a } else { a + 1 };
                        assert(n[a] == o[a2]);
                    }
                }
                Ok(())
            },
            None => Err(MinervaError::InferenceError(crate::error::text_with_number("Buffer ", id as u128, " not found"))),
        }
    }

    /// A copy of the buffer with `id`.
    fn get_buffer(&self, id: usize) -> (r: MinervaResult<GPUBuffer>)
        ensures
            match find_buffer(self.spec_buffers(), id) {
                Some(i) => r matches Ok(b) && b.spec_id() == self.spec_buffers()[i].spec_id()
                    && b.spec_size() == self.spec_buffers()[i].spec_size()
                    && b.spec_data() == self.spec_buffers()[i].spec_data()
                    && b.spec_on_gpu() == self.spec_buffers()[i].spec_on_gpu(),
                None => inference_err(r, buffer_not_found_message(id)),
            },
    {
        match self.position(id) {
            Some(pos) => Ok(self.buffers[pos].duplicate()),
            None => Err(MinervaError::InferenceError(crate::error::text_with_number("Buffer ", id as u128, " not found"))),
        }
    }

    /// Whether a buffer with `id` is registered.
    pub fn has_buffer(&self, id: usize) -> (r: bool)
        ensures
            r == find_buffer(self.spec_buffers(), id) is Some,
    {
        self.position(id).is_some()
    }

    /// Copies `data` into buffer `id` and marks it as resident on the GPU.
    pub fn copy_to_gpu(&mut self, id: usize, data: &[u8]) -> (r: MinervaResult<()>)
        requires
            old(self).wf(),
        ensures
            final(self).wf(),
            *final(self).spec_info() == *old(self).spec_info(),
            final(self).spec_next_id() == old(self).spec_next_id(),
            r is Ok ==> final(self).buffer_data(id) == Some(data@),
            match find_buffer(old(self).spec_buffers(), id) {
                None => inference_err(r, buffer_not_found_message(id))
                    && final(self).spec_buffers() == old(self).spec_buffers(),
                Some(i) => if data@.len() == old(self).spec_buffers()[i].spec_size() {
                    r is Ok
                    && final(self).spec_buffers().len() == old(self).spec_buffers().len()
                    && (forall|j: int| 0 <= j < old(self).spec_buffers().len() && j != i
                        ==> #[trigger] final(self).spec_buffers()[j] == old(self).spec_buffers()[j])
                    && final(self).spec_buffers()[i].spec_id() == id
                    && final(self).spec_buffers()[i].spec_size() == old(self).spec_buffers()[i].spec_size()
                    && final(self).spec_buffers()[i].spec_data() == data@
                    && final(self).spec_buffers()[i].spec_on_gpu()
                } else {
                    inference_err(r, "Data size mismatch for GPU copy"@)
                        && final(self).spec_buffers() == old(self).spec_buffers()
                },
            },
    {
        let pos = match self.position(id) {
            Some(p) => p,
            None => {
                return Err(MinervaError::InferenceError(crate::error::text_with_number("Buffer ", id as u128, " not found")));
            },
        };
        let mut buffer = self.buffers[pos].duplicate();
        if data.len() != buffer.size() {
            return Err(MinervaError::InferenceError(text("Data size mismatch for GPU copy")));
        }
        let written = buffer.write(crate::util::copy_bytes(data));
        if written.is_err() {
            return written;
        }
        buffer.mark_on_gpu();
        self.buffers.set(pos, buffer);
        proof {
            let o = old(self).spec_buffers();
            let n = self.spec_buffers();
            assert forall|a: int, b: int| 0 <= a < b < n.len() implies
                #[trigger] n[a].spec_id() != #[trigger] n[b].spec_id() by {
                assert(n[a].spec_id() == o[a].spec_id());
                assert(n[b].spec_id() == o[b].spec_id());
            }
            assert forall|a: int| 0 <= a < n.len() implies (#[trigger] n[a]).wf() && n[a].spec_id() < self.next_buffer_id by {
                assert(n[a].spec_id() == o[a].spec_id());
            }
            lemma_read_after_write(*old(self), *self, id, data@);
        }
        Ok(())
    }

    /// The bytes of buffer `id`.
    pub fn copy_from_gpu(&self, id: usize) -> (r: MinervaResult<Vec<u8>>)
        ensures
            match self.buffer_data(id) {
                Some(d) => r matches Ok(v) && v@ == d,
                None => inference_err(r, buffer_not_found_message(id)),
            },
    {
        let buffer = self.get_buffer(id)?;
        buffer.read()
    }

    /// Checks a kernel launch as the device runs it: every input and the
    /// output buffer must exist, then the kernel must get its number of inputs.
    /// On success returns the output buffer's identifier.
    pub fn check_kernel(&self, config: KernelConfig, buffers: &KernelBuffers) -> (r: MinervaResult<usize>)
        ensures
            match r {
                Ok(out) => out == buffers.output_buffer
                    && (forall|k: int| 0 <= k < buffers.input_buffers@.len()
                        ==> find_buffer(self.spec_buffers(), #[trigger] buffers.input_buffers@[k]) is Some)
                    && find_buffer(self.spec_buffers(), buffers.output_buffer) is Some
                    && buffers.input_buffers@.len() == kernel_arity(config.kernel),
                Err(e) => e is InferenceError && !((forall|k: int| 0 <= k < buffers.input_buffers@.len()
                        ==> find_buffer(self.spec_buffers(), #[trigger] buffers.input_buffers@[k]) is Some)
                    && find_buffer(self.spec_buffers(), buffers.output_buffer) is Some
                    && buffers.input_buffers@.len() == kernel_arity(config.kernel)),
            },
    {
        let mut k: usize = 0;
        while k < buffers.input_buffers.len()
            invariant
                k <= buffers.input_buffers@.len(),
                forall|j: int| 0 <= j < k ==> find_buffer(self.spec_buffers(), #[trigger] buffers.input_buffers@[j]) is Some,
            decreases buffers.input_buffers@.len() - k,
        {
            let id = buffers.input_buffers[k];
            if !self.has_buffer(id) {
                return Err(MinervaError::InferenceError(crate::error::text_with_number("Buffer ", id as u128, " not found")));
            }
            k = k + 1;
        }
        if !self.has_buffer(buffers.output_buffer) {
            return Err(MinervaError::InferenceError(
                crate::error::text_with_number("Buffer ", buffers.output_buffer as u128, " not found"),
            ));
        }
        if buffers.input_buffers.len() != config.kernel.arity() {
            return Err(MinervaError::InferenceError(text(config.kernel.arity_message())));
        }
        Ok(buffers.output_buffer)
    }
}

/// What a write to buffer `id` leaves readable there: the written bytes, when
/// the write succeeds.
pub proof fn lemma_read_after_write(before: MetalDevice, after: MetalDevice, id: usize, data: Seq<u8>)
    requires
        before.wf(),
        find_buffer(before.spec_buffers(), id) matches Some(i) && after.spec_buffers().len() == before.spec_buffers().len()
            && (forall|j: int| 0 <= j < before.spec_buffers().len() && j != i
                ==> #[trigger] after.spec_buffers()[j] == before.spec_buffers()[j])
            && after.spec_buffers()[i].spec_id() == id
            && after.spec_buffers()[i].spec_data() == data,
    ensures
        after.buffer_data(id) == Some(data),
{
    let i = find_buffer(before.spec_buffers(), id)->0;
    let k = choose|k: int| 0 <= k < before.spec_buffers().len() && #[trigger] before.spec_buffers()[k].spec_id() == id
        && forall|j: int| 0 <= j < k ==> before.spec_buffers()[j].spec_id() != id;
    assert(k == i);
    assert forall|j: int| 0 <= j < i implies after.spec_buffers()[j].spec_id() != id by {
        assert(after.spec_buffers()[j] == before.spec_buffers()[j]);
    }
    lemma_find_buffer(after.spec_buffers(), id, i);
}

/// Sum of the sizes of a list of `(start, size)` blocks.
pub open spec fn total_size(blocks: Seq<(usize, usize)>) -> int
    decreases blocks.len(),
{
    if blocks.len() == 0 {
        0
    } else {
        total_size(blocks.drop_last()) + blocks.last().1
    }
}

/// `i` is the first block of `free` large enough for `size` bytes.
pub open spec fn is_first_fit(free: Seq<(usize, usize)>, size: usize, i: int) -> bool {
    &&& 0 <= i < free.len()
    &&& free[i].1 >= size
    &&& forall|j: int| 0 <= j < i ==> #[trigger] free[j].1 < size
}

/// The free list after carving `size` bytes from the front of block `i`.
pub open spec fn carve(free: Seq<(usize, usize)>, size: usize, i: int) -> Seq<(usize, usize)> {
    if free[i].1 == size {
        free.remove(i)
    } else {
        free.update(i, ((free[i].0 + size) as usize, (free[i].1 - size) as usize))
    }
}

/// Sum of sizes after appending a block.
pub proof fn lemma_total_size_push(blocks: Seq<(usize, usize)>, b: (usize, usize))
    ensures
        total_size(blocks.push(b)) == total_size(blocks) + b.1,
{
    assert(blocks.push(b).drop_last() =~= blocks);
}

/// Sum of sizes after replacing one block.
pub proof fn lemma_total_size_update(blocks: Seq<(usize, usize)>, i: int, b: (usize, usize))
    requires
        0 <= i < blocks.len(),
    ensures
        total_size(blocks.update(i, b)) == total_size(blocks) - blocks[i].1 + b.1,
    decreases blocks.len(),
{
    if i == blocks.len() - 1 {
        assert(blocks.update(i, b).drop_last() =~= blocks.drop_last());
    } else {
        lemma_total_size_update(blocks.drop_last(), i, b);
        assert(blocks.update(i, b).drop_last() =~= blocks.drop_last().update(i, b));
    }
}

/// Sum of sizes after removing one block.
pub proof fn lemma_total_size_remove(blocks: Seq<(usize, usize)>, i: int)
    requires
        0 <= i < blocks.len(),
    ensures
        total_size(blocks.remove(i)) == total_size(blocks) - blocks[i].1,
    decreases blocks.len(),
{
    if i == blocks.len() - 1 {
        assert(blocks.remove(i) =~= blocks.drop_last());
    } else {
        lemma_total_size_remove(blocks.drop_last(), i);
        assert(blocks.remove(i).drop_last() =~= blocks.drop_last().remove(i));
    }
}

/// First-fit memory pool over a contiguous range of GPU memory.
#[derive(Debug)]
pub struct GPUMemoryPool {
    free_blocks: Vec<(usize, usize)>,
    allocated_blocks: Vec<(usize, usize)>,
    total_size: usize,
}

impl GPUMemoryPool {
    /// Free blocks as `(start, size)`, in search order.
    pub closed spec fn spec_free(&self) -> Seq<(usize, usize)> {
        self.free_blocks@
    }

    /// Allocated blocks as `(start, size)`, oldest first.
    pub closed spec fn spec_allocated(&self) -> Seq<(usize, usize)> {
        self.allocated_blocks@
    }

    /// The size the pool was made with.
    pub closed spec fn spec_total(&self) -> usize {
        self.total_size
    }

    /// Well-formedness: no free block runs past the end of the address space.
    pub open spec fn wf(&self) -> bool {
        forall|i: int| 0 <= i < self.spec_free().len()
            ==> #[trigger] self.spec_free()[i].0 + self.spec_free()[i].1 <= usize::MAX
    }

    /// New pool with one free block covering `[0, size)`.
    pub fn new(size: usize) -> (r: Self)
        ensures
            r.wf(),
            r.spec_free() == seq![(0usize, size)],
            r.spec_allocated() == Seq::<(usize, usize)>::empty(),
            r.spec_total() == size,
    {
        let mut free: Vec<(usize, usize)> = Vec::new();
        free.push((0, size));
        proof {
            assert(free@ =~= seq![(0usize, size)]);
        }
        GPUMemoryPool { free_blocks: free, allocated_blocks: Vec::new(), total_size: size }
    }

    /// Allocates `size` bytes from the first free block large enough to hold
    /// them and returns the start of the allocation.
    pub fn allocate(&mut self, size: usize) -> (r: MinervaResult<usize>)
        requires
            old(self).wf(),
        ensures
            final(self).wf(),
            final(self).spec_total() == old(self).spec_total(),
            match r {
                Ok(start) => exists|i: int| #[trigger] is_first_fit(old(self).spec_free(), size, i)
                    && start == old(self).spec_free()[i].0
                    && final(self).spec_free() == carve(old(self).spec_free(), size, i)
                    && final(self).spec_allocated() == old(self).spec_allocated().push((start, size)),
                Err(_) => (forall|i: int| 0 <= i < old(self).spec_free().len() ==> #[trigger] old(self).spec_free()[i].1 < size)
                    && inference_err(r, "Insufficient memory in GPU pool"@)
                    && final(self).spec_free() == old(self).spec_free()
                    && final(self).spec_allocated() == old(self).spec_allocated(),
            },
            r is Ok ==> total_size(final(self).spec_free()) == total_size(old(self).spec_free()) - size
                && total_size(final(self).spec_allocated()) == total_size(old(self).spec_allocated()) + size,
    {
        let mut i: usize = 0;
        while i < self.free_blocks.len()
            invariant
                self.wf(),
                self.free_blocks@ == old(self).free_blocks@,
                self.allocated_blocks@ == old(self).allocated_blocks@,
                self.total_size == old(self).total_size,
                i <= self.free_blocks@.len(),
                forall|j: int| 0 <= j < i ==> #[trigger] self.free_blocks@[j].1 < size,
            decreases self.free_blocks@.len() - i,
        {
            let (start, avail) = self.free_blocks[i];
            if avail >= size {
                proof {
                    assert(is_first_fit(old(self).spec_free(), size, i as int));
                }
                assert(self.spec_free()[i as int].0 + self.spec_free()[i as int].1 <= usize::MAX);
                if avail == size {
                    self.free_blocks.remove(i);
                    proof {
                        lemma_total_size_remove(old(self).spec_free(), i as int);
                        let n = self.spec_free();
                        let o = old(self).spec_free();
                        assert forall|k: int| 0 <= k < n.len() implies #[trigger] n[k].0 + n[k].1 <= usize::MAX by {
                            let k2 = if k < i { k } else { k + 1 };
                            assert(n[k] == o[k2]);
                        }
                    }
                } else {
                    self.free_blocks.set(i, (start + size, avail - size));
                    proof {
                        lemma_total_size_update(old(self).spec_free(), i as int, ((start + size) as usize, (avail - size) as usize));
                        let n = self.spec_free();
                        let o = old(self).spec_free();
                        assert forall|k: int| 0 <= k < n.len() implies #[trigger] n[k].0 + n[k].1 <= usize::MAX by {
                            if k != i {
                                assert(n[k] == o[k]);
                            }
                        }
                    }
                }
                self.allocated_blocks.push((start, size));
                proof {
                    lemma_total_size_push(old(self).spec_allocated(), (start, size));
                }
                return Ok(start);
            }
            i = i + 1;
        }
        Err(MinervaError::InferenceError(text("Insufficient memory in GPU pool")))
    }

    /// Returns the allocation starting at `start` to the pool as a free block
    /// of `size` bytes.
    pub fn deallocate(&mut self, start: usize, size: usize) -> (r: MinervaResult<()>)
        requires
            old(self).wf(),
            start + size <= usize::MAX,
        ensures
            final(self).wf(),
            final(self).spec_total() == old(self).spec_total(),
            match first_allocation_at(old(self).spec_allocated(), start) {
                Some(i) => r is Ok
                    && final(self).spec_allocated() == old(self).spec_allocated().remove(i)
                    && final(self).spec_free() == old(self).spec_free().push((start, size))
                    && total_size(final(self).spec_allocated()) == total_size(old(self).spec_allocated()) - old(self).spec_allocated()[i].1
                    && total_size(final(self).spec_free()) == total_size(old(self).spec_free()) + size,
                None => inference_err(r, "Block not found in allocations"@)
                    && final(self).spec_allocated() == old(self).spec_allocated()
                    && final(self).spec_free() == old(self).spec_free(),
            },
    {
        let mut i: usize = 0;
        while i < self.allocated_blocks.len()
            invariant
                self.wf(),
                self.free_blocks@ == old(self).free_blocks@,
                self.allocated_blocks@ == old(self).allocated_blocks@,
                self.total_size == old(self).total_size,
                old(self).wf(),
                start + size <= usize::MAX,
                i <= self.allocated_blocks@.len(),
                forall|j: int| 0 <= j < i ==> #[trigger] self.allocated_blocks@[j].0 != start,
            decreases self.allocated_blocks@.len() - i,
        {
            if self.allocated_blocks[i].0 == start {
                proof {
                    lemma_first_allocation_at(self.allocated_blocks@, start, i as int);
                    lemma_total_size_remove(old(self).spec_allocated(), i as int);
                    lemma_total_size_push(old(self).spec_free(), (start, size));
                }
                self.allocated_blocks.remove(i);
                self.free_blocks.push((start, size));
                proof {
                    let n = self.spec_free();
                    let o = old(self).spec_free();
                    assert forall|k: int| 0 <= k < n.len() implies #[trigger] n[k].0 + n[k].1 <= usize::MAX by {
                        if k < o.len() {
                            assert(n[k] == o[k]);
                        } else {
                            assert(n[k] == (start, size));
                        }
                    }
                }
                return Ok(());
            }
            i = i + 1;
        }
        Err(MinervaError::InferenceError(text("Block not found in allocations")))
    }

    /// Total size of the free blocks.
    pub fn free_memory(&self) -> (r: MinervaResult<usize>)
        requires
            total_size(self.spec_free()) <= usize::MAX,
        ensures
            r matches Ok(n) && n == total_size(self.spec_free()),
    {
        Ok(sum_sizes(&self.free_blocks))
    }

    /// Total size of the allocated blocks.
    pub fn used_memory(&self) -> (r: MinervaResult<usize>)
        requires
            total_size(self.spec_allocated()) <= usize::MAX,
        ensures
            r matches Ok(n) && n == total_size(self.spec_allocated()),
    {
        Ok(sum_sizes(&self.allocated_blocks))
    }
}

/// Index of the first allocation that starts at `start`, if any.
pub open spec fn first_allocation_at(blocks: Seq<(usize, usize)>, start: usize) -> Option<int> {
    if exists|i: int| 0 <= i < blocks.len() && #[trigger] blocks[i].0 == start {
        Some(choose|i: int| 0 <= i < blocks.len() && #[trigger] blocks[i].0 == start
            && forall|j: int| 0 <= j < i ==> blocks[j].0 != start)
    } else {
        None
    }
}

proof fn lemma_first_allocation_at(blocks: Seq<(usize, usize)>, start: usize, k: int)
    requires
        0 <= k < blocks.len(),
        blocks[k].0 == start,
        forall|j: int| 0 <= j < k ==> #[trigger] blocks[j].0 != start,
    ensures
        first_allocation_at(blocks, start) == Some(k),
{
    let i = choose|i: int| 0 <= i < blocks.len() && #[trigger] blocks[i].0 == start
        && forall|j: int| 0 <= j < i ==> blocks[j].0 != start;
    assert(0 <= i < blocks.len() && blocks[i].0 == start && forall|j: int| 0 <= j < i ==> blocks[j].0 != start);
    if i < k {
        assert(blocks[i].0 != start);
    } else if k < i {
        assert(blocks[k].0 != start);
    }
}

/// Sum of the sizes in a block list.
fn sum_sizes(blocks: &Vec<(usize, usize)>) -> (r: usize)
    requires
        total_size(blocks@) <= usize::MAX,
    ensures
        r == total_size(blocks@),
{
    let mut acc: usize = 0;
    let mut i: usize = 0;
    while i < blocks.len()
        invariant
            i <= blocks@.len(),
            acc == total_size(blocks@.subrange(0, i as int)),
            total_size(blocks@) <= usize::MAX,
        decreases blocks@.len() - i,
    {
        proof {
            assert(blocks@.subrange(0, i + 1).drop_last() =~= blocks@.subrange(0, i as int));
            lemma_total_size_prefix_le(blocks@, i + 1);
        }
        acc = acc + blocks[i].1;
        i = i + 1;
    }
    proof {
        assert(blocks@.subrange(0, i as int) =~= blocks@);
    }
    acc
}

/// The sizes of a prefix never sum to more than the whole list.
proof fn lemma_total_size_prefix_le(blocks: Seq<(usize, usize)>, n: int)
    requires
        0 <= n <= blocks.len(),
    ensures
        total_size(blocks.subrange(0, n)) <= total_size(blocks),
    decreases blocks.len() - n,
{
    if n < blocks.len() {
        lemma_total_size_prefix_le(blocks, n + 1);
        assert(blocks.subrange(0, n + 1).drop_last() =~= blocks.subrange(0, n));
    } else {
        assert(blocks.subrange(0, n) =~= blocks);
    }
}

/// Allocation moves exactly `size` bytes from the free list to the allocated
/// list, and deallocating a block with its own size moves them back: the sum
/// of free and used memory never changes.
pub proof fn lemma_pool_conservation(p: GPUMemoryPool, size: usize, i: int)
    requires
        p.wf(),
        is_first_fit(p.spec_free(), size, i),
    ensures
        total_size(carve(p.spec_free(), size, i)) + total_size(p.spec_allocated().push((p.spec_free()[i].0, size)))
            == total_size(p.spec_free()) + total_size(p.spec_allocated()),
{
    lemma_total_size_push(p.spec_allocated(), (p.spec_free()[i].0, size));
    if p.spec_free()[i].1 == size {
        lemma_total_size_remove(p.spec_free(), i);
    } else {
        lemma_total_size_update(p.spec_free(), i, ((p.spec_free()[i].0 + size) as usize, (p.spec_free()[i].1 - size) as usize));
    }
}

} // verus!
