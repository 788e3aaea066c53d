//! Benchmark timing and accumulation of measured durations.
use vstd::prelude::*;

use crate::error::{inference_err, text, MinervaError, MinervaResult};
use crate::time::{div_total, elapsed_nanos, Duration, Instant};

verus! {

/// What a finished run measured.
#[derive(Debug, Clone, Copy, PartialEq, Eq, Structural)]
pub struct PerformanceMetricsInput {
    /// Wall-clock time
    pub duration: Duration,
    /// Tokens produced
    pub token_count: usize,
    /// Memory used in bytes
    pub memory_bytes: usize,
    /// Whether the GPU ran
    pub gpu_used: bool,
}

/// A named stopwatch.
#[derive(Debug)]
pub struct Benchmark {
    name: String,
    start_time: Option<Instant>,
}

impl Benchmark {
    /// Benchmark name.
    pub closed spec fn spec_name(&self) -> Seq<char> {
        self.name@
    }

    /// When the stopwatch started, if it did.
    pub closed spec fn spec_start(&self) -> Option<Instant> {
        self.start_time
    }

    /// Stopwatch that has not started.
    pub fn new(name: &str) -> (r: Self)
        ensures
            r.spec_name() == name@,
            r.spec_start() is None,
    {
        Benchmark { name: text(name), start_time: None }
    }

    /// Starts the stopwatch at `now`.
    pub fn start_at(&mut self, now: Instant)
        ensures
            final(self).spec_start() == Some(now),
            final(self).spec_name() == old(self).spec_name(),
    {
        self.start_time = Some(now);
    }

    /// Starts the stopwatch now.
    pub fn start(&mut self)
        ensures
            final(self).spec_start() matches Some(t) && t.wf(),
            final(self).spec_name() == old(self).spec_name(),
    {
        self.start_at(Instant::now());
    }

    /// What reading the stopwatch at `now` reports: the time from the start
    /// to `now`, or an error when it has not started.
    pub open spec fn reading_at(&self, now: Instant, r: MinervaResult<Duration>) -> bool {
        match self.spec_start() {
            Some(t) => r matches Ok(d) && d.wf() && d.total_nanos() == elapsed_nanos(t, now),
            None => inference_err(r, "Benchmark not started"@),
        }
    }

    /// Time from the start to `now`; an error before the start.
    pub fn elapsed_at(&self, now: Instant) -> (r: MinervaResult<Duration>)
        requires
            now.wf(),
            self.spec_start() matches Some(t) ==> t.wf(),
        ensures
            self.reading_at(now, r),
    {
        match self.start_time {
            Some(start) => Ok(now.duration_since(start)),
            None => Err(MinervaError::InferenceError(text("Benchmark not started"))),
        }
    }

    /// Time since the start; an error before the start.
    pub fn elapsed(&self) -> (r: MinervaResult<Duration>)
        requires
            self.spec_start() matches Some(t) ==> t.wf(),
        ensures
            exists|now: Instant| now.wf() && #[trigger] self.reading_at(now, r),
            self.spec_start() is Some ==> r is Ok,
            self.spec_start() is None ==> inference_err(r, "Benchmark not started"@),
    {
        self.elapsed_at(Instant::now())
    }

    /// Stops the stopwatch and reports the time since the start.
    pub fn end(&self) -> (r: MinervaResult<Duration>)
        requires
            self.spec_start() matches Some(t) ==> t.wf(),
        ensures
            exists|now: Instant| now.wf() && #[trigger] self.reading_at(now, r),
            self.spec_start() is Some ==> r is Ok,
            self.spec_start() is None ==> inference_err(r, "Benchmark not started"@),
    {
        self.elapsed()
    }
}

/// Sum of the lengths of a list of spans.
pub open spec fn nanos_sum(ds: Seq<Duration>) -> int
    decreases ds.len(),
{
    if ds.len() == 0 {
        0
    } else {
        nanos_sum(ds.drop_last()) + ds.last().total_nanos()
    }
}

/// Every span is well formed.
pub open spec fn all_wf(ds: Seq<Duration>) -> bool {
    forall|i: int| 0 <= i < ds.len() ==> (#[trigger] ds[i]).wf()
}

/// Average of a list of spans as std computes it: the sum divided by the
/// count narrowed to `u32`.
pub open spec fn average_nanos(ds: Seq<Duration>) -> int {
    div_total(nanos_sum(ds), (ds.len() as u32) as int)
}

/// The list can be averaged: its sum fits a span and the narrowed count is
/// not zero.
pub open spec fn averageable(ds: Seq<Duration>) -> bool {
    &&& all_wf(ds)
    &&& nanos_sum(ds) <= Duration::max_nanos()
    &&& ds.len() > 0 ==> (ds.len() as u32) != 0
}

proof fn lemma_nanos_sum_prefix(ds: Seq<Duration>, n: int)
    requires
        0 <= n <= ds.len(),
        all_wf(ds),
    ensures
        0 <= nanos_sum(ds.subrange(0, n)) <= nanos_sum(ds),
    decreases ds.len() - n,
{
    if n < ds.len() {
        lemma_nanos_sum_prefix(ds, n + 1);
        assert(ds.subrange(0, n + 1).drop_last() =~= ds.subrange(0, n));
        lemma_nanos_sum_nonneg(ds.subrange(0, n));
    } else {
        assert(ds.subrange(0, n) =~= ds);
        lemma_nanos_sum_nonneg(ds);
    }
}

proof fn lemma_nanos_sum_nonneg(ds: Seq<Duration>)
    ensures
        nanos_sum(ds) >= 0,
    decreases ds.len(),
{
    if ds.len() > 0 {
        lemma_nanos_sum_nonneg(ds.drop_last());
    }
}

/// Average of spans, or `None` for an empty list.
fn average(ds: &Vec<Duration>) -> (r: Option<Duration>)
    requires
        averageable(ds@),
    ensures
        ds@.len() == 0 ==> r is None,
        ds@.len() > 0 ==> (r matches Some(d) && d.wf() && d.total_nanos() == average_nanos(ds@)),
{
    if ds.len() == 0 {
        return None;
    }
    let mut total = Duration::zero();
    let mut i: usize = 0;
    while i < ds.len()
        invariant
            i <= ds@.len(),
            averageable(ds@),
            total.wf(),
            total.total_nanos() == nanos_sum(ds@.subrange(0, i as int)),
        decreases ds@.len() - i,
    {
        proof {
            assert(ds@.subrange(0, i + 1).drop_last() =~= ds@.subrange(0, i as int));
            lemma_nanos_sum_prefix(ds@, i + 1);
            assert(ds@[i as int].wf());
        }
        match total.checked_add(ds[i]) {
            Some(t) => {
                total = t;
            },
            None => {
                return None;
            },
        }
        i = i + 1;
    }
    proof {
        assert(ds@.subrange(0, i as int) =~= ds@);
    }
    let n = ds.len() as u32;
    Some(total.div_u32(n))
}

/// Durations measured overall, on the GPU and on the CPU.
#[derive(Debug)]
pub struct PerformanceAccumulator {
    measurements: Vec<Duration>,
    gpu_measurements: Vec<Duration>,
    cpu_measurements: Vec<Duration>,
}

impl PerformanceAccumulator {
    /// All measurements, oldest first.
    pub closed spec fn spec_all(&self) -> Seq<Duration> {
        self.measurements@
    }

    /// GPU measurements, oldest first.
    pub closed spec fn spec_gpu(&self) -> Seq<Duration> {
        self.gpu_measurements@
    }

    /// CPU measurements, oldest first.
    pub closed spec fn spec_cpu(&self) -> Seq<Duration> {
        self.cpu_measurements@
    }

    /// Empty accumulator.
    pub fn new() -> (r: Self)
        ensures
            r.spec_all().len() == 0,
            r.spec_gpu().len() == 0,
            r.spec_cpu().len() == 0,
    {
        PerformanceAccumulator { measurements: Vec::new(), gpu_measurements: Vec::new(), cpu_measurements: Vec::new() }
    }

    /// Records a measurement.
    pub fn add_measurement(&mut self, duration: Duration)
        ensures
            final(self).spec_all() == old(self).spec_all().push(duration),
            final(self).spec_gpu() == old(self).spec_gpu(),
            final(self).spec_cpu() == old(self).spec_cpu(),
    {
        self.measurements.push(duration);
    }

    /// Records a GPU measurement.
    pub fn add_gpu_measurement(&mut self, duration: Duration)
        ensures
            final(self).spec_gpu() == old(self).spec_gpu().push(duration),
            final(self).spec_all() == old(self).spec_all(),
            final(self).spec_cpu() == old(self).spec_cpu(),
    {
        self.gpu_measurements.push(duration);
    }

    /// Records a CPU measurement.
    pub fn add_cpu_measurement(&mut self, duration: Duration)
        ensures
            final(self).spec_cpu() == old(self).spec_cpu().push(duration),
            final(self).spec_all() == old(self).spec_all(),
            final(self).spec_gpu() == old(self).spec_gpu(),
    {
        self.cpu_measurements.push(duration);
    }

    /// Average of all measurements.
    pub fn avg(&self) -> (r: Option<Duration>)
        requires
            averageable(self.spec_all()),
        ensures
            self.spec_all().len() == 0 ==> r is None,
            self.spec_all().len() > 0 ==> (r matches Some(d) && d.wf() && d.total_nanos() == average_nanos(self.spec_all())),
    {
        average(&self.measurements)
    }

    /// Average of the GPU measurements.
    pub fn avg_gpu(&self) -> (r: Option<Duration>)
        requires
            averageable(self.spec_gpu()),
        ensures
            self.spec_gpu().len() == 0 ==> r is None,
            self.spec_gpu().len() > 0 ==> (r matches Some(d) && d.wf() && d.total_nanos() == average_nanos(self.spec_gpu())),
    {
        average(&self.gpu_measurements)
    }

    /// Average of the CPU measurements.
    pub fn avg_cpu(&self) -> (r: Option<Duration>)
        requires
            averageable(self.spec_cpu()),
        ensures
            self.spec_cpu().len() == 0 ==> r is None,
            self.spec_cpu().len() > 0 ==> (r matches Some(d) && d.wf() && d.total_nanos() == average_nanos(self.spec_cpu())),
    {
        average(&self.cpu_measurements)
    }

    /// Number of measurements.
    pub fn count(&self) -> (r: usize)
        ensures
            r == self.spec_all().len(),
    {
        self.measurements.len()
    }

    /// Number of GPU measurements.
    pub fn gpu_count(&self) -> (r: usize)
        ensures
            r == self.spec_gpu().len(),
    {
        self.gpu_measurements.len()
    }

    /// Number of CPU measurements.
    pub fn cpu_count(&self) -> (r: usize)
        ensures
            r == self.spec_cpu().len(),
    {
        self.cpu_measurements.len()
    }
}

impl Default for PerformanceAccumulator {
    fn default() -> (r: Self)
        ensures
            r.spec_all().len() == 0,
            r.spec_gpu().len() == 0,
            r.spec_cpu().len() == 0,
    {
        Self::new()
    }
}

/// One recorded measurement and the list it went to.
pub enum Recorded {
    /// Through `add_measurement`
    Overall(Duration),
    /// Through `add_gpu_measurement`
    Gpu(Duration),
    /// Through `add_cpu_measurement`
    Cpu(Duration),
}

/// The overall measurements of a history, oldest first.
pub open spec fn overall_of(h: Seq<Recorded>) -> Seq<Duration>
    decreases h.len(),
{
    if h.len() == 0 {
        Seq::empty()
    } else {
        match h.last() {
            Recorded::Overall(d) => overall_of(h.drop_last()).push(d),
            _ => overall_of(h.drop_last()),
        }
    }
}

/// How recording `e` takes an accumulator from `a` to `b`, as the three
/// `add_*` methods state it.
pub open spec fn recorded_step(a: PerformanceAccumulator, b: PerformanceAccumulator, e: Recorded) -> bool {
    match e {
        Recorded::Overall(d) => b.spec_all() == a.spec_all().push(d) && b.spec_gpu() == a.spec_gpu()
            && b.spec_cpu() == a.spec_cpu(),
        Recorded::Gpu(d) => b.spec_gpu() == a.spec_gpu().push(d) && b.spec_all() == a.spec_all()
            && b.spec_cpu() == a.spec_cpu(),
        Recorded::Cpu(d) => b.spec_cpu() == a.spec_cpu().push(d) && b.spec_all() == a.spec_all()
            && b.spec_gpu() == a.spec_gpu(),
    }
}

/// Whatever mix of overall, GPU and CPU measurements an empty accumulator
/// records, its overall list (which `count` and `avg` read) holds exactly the
/// overall measurements in the order they came: GPU and CPU measurements
/// never change the count or the average, the count is the number of
/// overall measurements, and the average is their sum divided by that
/// number as std divides a span.
pub proof fn lemma_overall_history(accs: Seq<PerformanceAccumulator>, h: Seq<Recorded>)
    requires
        accs.len() == h.len() + 1,
        accs[0].spec_all().len() == 0,
        forall|i: int| 0 <= i < h.len() ==> #[trigger] recorded_step(accs[i], accs[i + 1], h[i]),
    ensures
        accs.last().spec_all() == overall_of(h),
        average_nanos(accs.last().spec_all()) == div_total(nanos_sum(overall_of(h)), (overall_of(h).len() as u32) as int),
    decreases h.len(),
{
    if h.len() == 0 {
        assert(accs.last() == accs[0]);
    } else {
        let k = h.len() - 1;
        assert forall|i: int| 0 <= i < h.drop_last().len() implies #[trigger] recorded_step(
            accs.drop_last()[i],
            accs.drop_last()[i + 1],
            h.drop_last()[i],
        ) by {
            assert(recorded_step(accs[i], accs[i + 1], h[i]));
        }
        lemma_overall_history(accs.drop_last(), h.drop_last());
        assert(recorded_step(accs[k], accs[k + 1], h[k]));
        assert(accs.drop_last().last() == accs[k]);
    }
}

} // verus!
