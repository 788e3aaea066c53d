//! Items, responses and sizes of batches processed on a thread pool. The
//! per-item work is the batch module's; handing items to threads happens
//! outside the library.
use vstd::prelude::*;

use crate::llama_engine::cpu_count;

verus! {

/// A request in a parallel batch, tagged with its id.
#[derive(Debug, Clone)]
pub struct ParallelBatchItem<T> {
    /// Request id
    pub id: String,
    /// Payload
    pub data: T,
}

impl<T> ParallelBatchItem<T> {
    /// An item with the given id and payload.
    pub fn new(id: String, data: T) -> (r: Self)
        ensures
            r.id@ == id@,
            r.data == data,
    {
        ParallelBatchItem { id, data }
    }

    /// The id.
    pub fn get_id(&self) -> (r: &str)
        ensures
            r@ == self.id@,
    {
        self.id.as_str()
    }

    /// The payload.
    pub fn get_data(&self) -> (r: &T)
        ensures
            *r == self.data,
    {
        &self.data
    }
}

/// The answer to one item of a parallel batch, with its processing time.
#[derive(Debug, Clone)]
pub struct ParallelBatchResponse<T> {
    /// Request id
    pub id: String,
    /// Payload
    pub data: T,
    /// Processing time in milliseconds
    pub duration_ms: u128,
}

impl<T> ParallelBatchResponse<T> {
    /// A response with the given id, payload and time.
    pub fn new(id: String, data: T, duration_ms: u128) -> (r: Self)
        ensures
            r.id@ == id@,
            r.data == data,
            r.duration_ms == duration_ms,
    {
        ParallelBatchResponse { id, data, duration_ms }
    }

    /// The id.
    pub fn get_id(&self) -> (r: &str)
        ensures
            r@ == self.id@,
    {
        self.id.as_str()
    }

    /// The payload.
    pub fn get_data(&self) -> (r: &T)
        ensures
            *r == self.data,
    {
        &self.data
    }

    /// The processing time in milliseconds.
    pub fn get_duration_ms(&self) -> (r: u128)
        ensures
            r == self.duration_ms,
    {
        self.duration_ms
    }
}

/// Tokenizes batches on a pool of threads.
#[derive(Debug, Clone, Copy)]
pub struct ParallelBatchTokenizer {
    num_threads: usize,
}

impl ParallelBatchTokenizer {
    /// Threads in the pool.
    pub closed spec fn spec_num_threads(&self) -> usize {
        self.num_threads
    }

    /// A tokenizer with one thread per CPU.
    pub fn new() -> (r: Self)
        ensures
            r.spec_num_threads() >= 1,
    {
        ParallelBatchTokenizer { num_threads: cpu_count() }
    }

    /// A tokenizer with `num_threads` threads.
    pub fn with_threads(num_threads: usize) -> (r: Self)
        ensures
            r.spec_num_threads() == num_threads,
    {
        ParallelBatchTokenizer { num_threads }
    }

    /// Threads in the pool.
    pub fn num_threads(&self) -> (r: usize)
        ensures
            r == self.spec_num_threads(),
    {
        self.num_threads
    }
}

impl Default for ParallelBatchTokenizer {
    fn default() -> (r: Self)
        ensures
            r.spec_num_threads() >= 1,
    {
        Self::new()
    }
}

/// Runs batches of generation requests on a pool of threads.
#[derive(Debug, Clone, Copy)]
pub struct ParallelBatchInferenceEngine {
    num_threads: usize,
}

impl ParallelBatchInferenceEngine {
    /// Threads in the pool.
    pub closed spec fn spec_num_threads(&self) -> usize {
        self.num_threads
    }

    /// An engine with one thread per CPU.
    pub fn new() -> (r: Self)
        ensures
            r.spec_num_threads() >= 1,
    {
        ParallelBatchInferenceEngine { num_threads: cpu_count() }
    }

    /// An engine with `num_threads` threads.
    pub fn with_threads(num_threads: usize) -> (r: Self)
        ensures
            r.spec_num_threads() == num_threads,
    {
        ParallelBatchInferenceEngine { num_threads }
    }

    /// Largest batch accepted.
    pub fn max_batch_size(&self) -> (r: usize)
        ensures
            r == 100,
    {
        100
    }

    /// Batch size that keeps every thread busy: two items per thread, and
    /// at least eight.
    pub fn optimal_batch_size(&self) -> (r: usize)
        requires
            self.spec_num_threads() * 2 <= usize::MAX,
        ensures
            r == (if self.spec_num_threads() * 2 >= 8 {
                self.spec_num_threads() * 2
            } else {
                8
            }),
    {
        let per_thread = self.num_threads * 2;
        if per_thread >= 8 {
            per_thread
        } else {
            8
        }
    }

    /// Threads in the pool.
    pub fn num_threads(&self) -> (r: usize)
        ensures
            r == self.spec_num_threads(),
    {
        self.num_threads
    }
}

impl Default for ParallelBatchInferenceEngine {
    fn default() -> (r: Self)
        ensures
            r.spec_num_threads() >= 1,
    {
        Self::new()
    }
}

} // verus!
