//! Timing of batch operations: how long a call takes, and statistics over
//! repeated calls.
use vstd::prelude::*;

use crate::error::text;
use crate::time::Instant;

verus! {

/// Statistics for a timed operation, in microseconds.
#[derive(Debug, Clone)]
pub struct OperationStats {
    /// Operation name
    pub name: String,
    /// Number of timed runs
    pub iterations: usize,
    /// Sum of the run times
    pub total_us: u128,
    /// Mean run time
    pub avg_us: u128,
    /// Shortest run
    pub min_us: u128,
    /// Longest run
    pub max_us: u128,
}

/// Sum of the values.
pub open spec fn seq_sum(s: Seq<u128>) -> int
    decreases s.len(),
{
    if s.len() == 0 {
        0
    } else {
        seq_sum(s.drop_last()) + s.last()
    }
}

/// Smallest value, zero for none.
pub open spec fn seq_min(s: Seq<u128>) -> u128
    decreases s.len(),
{
    if s.len() == 0 {
        0
    } else if s.len() == 1 {
        s[0]
    } else {
        let m = seq_min(s.drop_last());
        if s.last() < m {
            s.last()
        } else {
            m
        }
    }
}

/// Largest value, zero for none.
pub open spec fn seq_max(s: Seq<u128>) -> u128
    decreases s.len(),
{
    if s.len() == 0 {
        0
    } else {
        let m = seq_max(s.drop_last());
        if s.last() > m {
            s.last()
        } else {
            m
        }
    }
}

/// The sum as a `u128` adds it up, wrapping past the largest value.
pub open spec fn wrapped_sum(s: Seq<u128>) -> u128 {
    (seq_sum(s) % (u128::MAX as int + 1)) as u128
}

/// Statistics of the run times `durations` of `iterations` runs: their
/// (wrapping) sum, its mean, and the shortest and longest run.
pub fn operation_stats(name: &str, iterations: usize, durations: &Vec<u128>) -> (r: OperationStats)
    requires
        iterations > 0,
    ensures
        r.name@ == name@,
        r.iterations == iterations,
        r.total_us == wrapped_sum(durations@),
        r.avg_us == wrapped_sum(durations@) / (iterations as u128),
        r.min_us == seq_min(durations@),
        r.max_us == seq_max(durations@),
{
    let mut total: u128 = 0;
    let mut min: u128 = 0;
    let mut max: u128 = 0;
    let mut i: usize = 0;
    while i < durations.len()
        invariant
            i <= durations@.len(),
            total == wrapped_sum(durations@.subrange(0, i as int)),
            min == seq_min(durations@.subrange(0, i as int)),
            max == seq_max(durations@.subrange(0, i as int)),
        decreases durations@.len() - i,
    {
        let d = durations[i];
        let ghost pre = durations@.subrange(0, i as int);
        let ghost post = durations@.subrange(0, i + 1);
        proof {
            assert(post.drop_last() =~= pre);
            assert(post.last() == d);
            let m: int = u128::MAX as int + 1;
            vstd::arithmetic::div_mod::lemma_add_mod_noop_right(d as int, seq_sum(pre), m);
        }
        total = total.wrapping_add(d);
        if i == 0 || d < min {
            min = d;
        }
        if i == 0 || d > max {
            max = d;
        }
        i = i + 1;
    }
    proof {
        assert(durations@.subrange(0, i as int) =~= durations@);
    }
    OperationStats {
        name: text(name),
        iterations,
        total_us: total,
        avg_us: total / (iterations as u128),
        min_us: min,
        max_us: max,
    }
}

/// Runs `f` and returns its result with the time it took in microseconds.
pub fn measure_time<F, R>(f: F) -> (r: (R, u128))
    where
        F: FnOnce() -> R,
    requires
        f.requires(()),
    ensures
        f.ensures((), r.0),
{
    let start = Instant::now();
    let result = f();
    let end = Instant::now();
    let elapsed = end.duration_since(start);
    (result, elapsed.as_micros())
}

/// Runs `f` `iterations` times, timing each run, and returns the statistics
/// of the run times.
pub fn measure_operation<F>(name: &str, iterations: usize, f: F) -> (r: OperationStats)
    where
        F: Fn(),
    requires
        iterations > 0,
        f.requires(()),
    ensures
        r.name@ == name@,
        r.iterations == iterations,
        r.avg_us == r.total_us / (iterations as u128),
        r.min_us <= r.max_us,
{
    let mut durations: Vec<u128> = Vec::new();
    let mut k: usize = 0;
    while k < iterations
        invariant
            k <= iterations,
            durations@.len() == k,
            f.requires(()),
        decreases iterations - k,
    {
        let start = Instant::now();
        f();
        let end = Instant::now();
        durations.push(end.duration_since(start).as_micros());
        k = k + 1;
    }
    proof {
        lemma_min_le_max(durations@);
    }
    operation_stats(name, iterations, &durations)
}

/// The smallest value is no larger than the largest.
proof fn lemma_min_le_max(s: Seq<u128>)
    ensures
        seq_min(s) <= seq_max(s),
    decreases s.len(),
{
    if s.len() > 1 {
        lemma_min_le_max(s.drop_last());
    }
}

} // verus!
