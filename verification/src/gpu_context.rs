//! GPU context: which device runs inference and how much of its memory is in use.
use vstd::prelude::*;

use crate::error::{inference_err, text, text_with_number, MinervaError, MinervaResult};

verus! {

/// Kind of device that runs inference.
#[derive(Debug, Clone, Copy, PartialEq, Eq, Structural)]
pub enum GpuDevice {
    /// Apple Metal
    Metal,
    /// NVIDIA CUDA
    Cuda,
    /// No GPU: run on the CPU
    Cpu,
}

/// Memory the context may use on a device, in bytes: a share of a 16 GiB
/// budget (one half on Metal, four fifths on CUDA, one quarter on the CPU),
/// as a single-precision product of the ratio rounds it.
pub open spec fn device_memory_budget(device: GpuDevice) -> usize {
    match device {
        GpuDevice::Metal => 8_589_934_592u64 as usize,
        GpuDevice::Cuda => 13_743_895_552u64 as usize,
        GpuDevice::Cpu => 4_294_967_296u64 as usize,
    }
}

/// Tracks the memory allocated on one device against its limit.
#[derive(Debug)]
pub struct GpuContext {
    device: GpuDevice,
    allocated_memory: usize,
    max_memory: usize,
}

impl GpuContext {
    /// The device in use.
    pub closed spec fn spec_device(&self) -> GpuDevice {
        self.device
    }

    /// Bytes currently allocated.
    pub closed spec fn spec_allocated(&self) -> usize {
        self.allocated_memory
    }

    /// Byte limit.
    pub closed spec fn spec_max(&self) -> usize {
        self.max_memory
    }

    /// The same context with `n` bytes allocated.
    pub closed spec fn with_allocated(self, n: usize) -> Self {
        GpuContext { allocated_memory: n, ..self }
    }

    /// New context for `device`, with nothing allocated and the device's budget
    /// as limit.
    pub fn new(device: GpuDevice) -> (r: MinervaResult<Self>)
        ensures
            r matches Ok(c) && c.spec_device() == device && c.spec_allocated() == 0
                && c.spec_max() == device_memory_budget(device),
    {
        let budget: u64 = match device {
            GpuDevice::Metal => 8_589_934_592,
            GpuDevice::Cuda => 13_743_895_552,
            GpuDevice::Cpu => 4_294_967_296,
        };
        let max_memory = budget as usize;
        Ok(GpuContext { device, allocated_memory: 0, max_memory })
    }

    /// Context with the given usage and limit.
    pub fn with_usage(device: GpuDevice, allocated_memory: usize, max_memory: usize) -> (r: Self)
        ensures
            r.spec_device() == device,
            r.spec_allocated() == allocated_memory,
            r.spec_max() == max_memory,
    {
        GpuContext { device, allocated_memory, max_memory }
    }

    /// The context used when none can be set up: the CPU with 1 GiB.
    pub fn fallback() -> (r: Self)
        ensures
            r.spec_device() == GpuDevice::Cpu,
            r.spec_allocated() == 0,
            r.spec_max() == 1_073_741_824,
    {
        GpuContext { device: GpuDevice::Cpu, allocated_memory: 0, max_memory: 1_073_741_824 }
    }

    /// The device in use.
    pub fn device(&self) -> (r: GpuDevice)
        ensures
            r == self.spec_device(),
    {
        self.device
    }

    /// Reserves `size` bytes; fails when the limit would be passed.
    pub fn allocate(&mut self, size: usize) -> (r: MinervaResult<()>)
        requires
            old(self).spec_allocated() + size <= usize::MAX,
        ensures
            final(self).spec_device() == old(self).spec_device(),
            final(self).spec_max() == old(self).spec_max(),
            *final(self) == old(self).with_allocated(final(self).spec_allocated()),
            old(self).spec_allocated() + size <= old(self).spec_max() ==> r is Ok
                && final(self).spec_allocated() == old(self).spec_allocated() + size,
            old(self).spec_allocated() + size > old(self).spec_max() ==> (r matches Err(MinervaError::OutOfMemory(_)))
                && final(self).spec_allocated() == old(self).spec_allocated(),
    {
        if self.allocated_memory + size > self.max_memory {
            let mut msg = text_with_number("GPU memory exceeded: ", self.allocated_memory as u128, " + ");
            let part = text_with_number("", size as u128, " > ");
            msg.append(part.as_str());
            let last = text_with_number("", self.max_memory as u128, "");
            msg.append(last.as_str());
            return Err(MinervaError::OutOfMemory(msg));
        }
        self.allocated_memory = self.allocated_memory + size;
        Ok(())
    }

    /// Releases `size` bytes; fails when fewer are allocated.
    pub fn deallocate(&mut self, size: usize) -> (r: MinervaResult<()>)
        ensures
            final(self).spec_device() == old(self).spec_device(),
            final(self).spec_max() == old(self).spec_max(),
            *final(self) == old(self).with_allocated(final(self).spec_allocated()),
            size <= old(self).spec_allocated() ==> r is Ok
                && final(self).spec_allocated() == old(self).spec_allocated() - size,
            size > old(self).spec_allocated() ==> inference_err(r, "Attempting to deallocate more than allocated"@)
                && final(self).spec_allocated() == old(self).spec_allocated(),
    {
        if size > self.allocated_memory {
            return Err(MinervaError::InferenceError(text("Attempting to deallocate more than allocated")));
        }
        self.allocated_memory = self.allocated_memory - size;
        Ok(())
    }

    /// Bytes still available under the limit.
    pub fn available_memory(&self) -> (r: usize)
        ensures
            r == if self.spec_max() >= self.spec_allocated() { self.spec_max() - self.spec_allocated() } else { 0 },
    {
        self.max_memory.saturating_sub(self.allocated_memory)
    }

    /// Bytes allocated.
    pub fn allocated_memory(&self) -> (r: usize)
        ensures
            r == self.spec_allocated(),
    {
        self.allocated_memory
    }

    /// Byte limit.
    pub fn max_memory(&self) -> (r: usize)
        ensures
            r == self.spec_max(),
    {
        self.max_memory
    }
}

/// Releasing what was just reserved restores the context: when
/// `allocate(size)` succeeds, a following `deallocate(size)` succeeds and
/// leaves the context as it was.
pub proof fn lemma_allocate_deallocate_roundtrip(c: GpuContext, size: usize)
    requires
        c.spec_allocated() + size <= c.spec_max(),
    ensures
        size <= c.with_allocated((c.spec_allocated() + size) as usize).spec_allocated(),
        c.with_allocated((c.spec_allocated() + size) as usize).with_allocated(
            (c.with_allocated((c.spec_allocated() + size) as usize).spec_allocated() - size) as usize) == c,
{
}

} // verus!
