//! Cache sizing: pick a cache size from the system's memory and a strategy.
use vstd::prelude::*;

use crate::error::MinervaResult;
use crate::time::{elapsed_nanos, Duration, Instant};

verus! {

/// Memory of the machine, in MB.
#[derive(Debug, Clone, Copy, PartialEq, Eq, Structural)]
pub struct SystemMemory {
    /// Total memory
    pub total_mb: u64,
    /// Available memory
    pub available_mb: u64,
    /// Used memory
    pub used_mb: u64,
}

/// Less than a fifth of the memory is available (an empty machine counts as
/// under pressure).
pub open spec fn memory_under_pressure(m: SystemMemory) -> bool {
    m.total_mb == 0 || m.available_mb * 5 < m.total_mb
}

impl SystemMemory {
    /// Whether less than 20 % of the memory is available.
    pub fn under_pressure(&self) -> (r: bool)
        ensures
            r == memory_under_pressure(*self),
    {
        if self.total_mb == 0 {
            true
        } else {
            (self.available_mb as u128) * 5 < (self.total_mb as u128)
        }
    }
}

/// How much memory to leave to the rest of the system.
#[derive(Debug, Clone, Copy, PartialEq, Eq, Structural)]
pub enum OptimizationStrategy {
    /// Keep 60 % of the available memory free
    Conservative,
    /// Keep 40 % of the available memory free (the default)
    Balanced,
    /// Keep 20 % of the available memory free
    Aggressive,
}

impl Default for OptimizationStrategy {
    fn default() -> (r: Self)
        ensures
            r == OptimizationStrategy::Balanced,
    {
        OptimizationStrategy::Balanced
    }
}

/// Percent of the available memory a strategy keeps free.
pub open spec fn reserved_percent(s: OptimizationStrategy) -> int {
    match s {
        OptimizationStrategy::Conservative => 60,
        OptimizationStrategy::Balanced => 40,
        OptimizationStrategy::Aggressive => 20,
    }
}

/// Cache optimization settings.
#[derive(Debug, Clone, Copy, PartialEq, Eq, Structural)]
pub struct OptimizationConfig {
    /// Strategy
    pub strategy: OptimizationStrategy,
    /// Smallest cache size in MB
    pub min_cache_mb: u64,
    /// Largest cache size in MB
    pub max_cache_mb: u64,
    /// Time between optimizations in ms
    pub update_interval_ms: u64,
    /// Optimize automatically
    pub auto_optimize: bool,
}

impl Default for OptimizationConfig {
    fn default() -> (r: Self)
        ensures
            r == (OptimizationConfig {
                strategy: OptimizationStrategy::Balanced,
                min_cache_mb: 1000,
                max_cache_mb: 50000,
                update_interval_ms: 5000,
                auto_optimize: true,
            }),
    {
        OptimizationConfig {
            strategy: OptimizationStrategy::Balanced,
            min_cache_mb: 1000,
            max_cache_mb: 50000,
            update_interval_ms: 5000,
            auto_optimize: true,
        }
    }
}

/// Counters of past optimizations.
#[derive(Debug, Clone, Copy, PartialEq, Eq, Structural)]
pub struct OptimizationStats {
    /// Optimizations that changed the size
    pub total_optimizations: u64,
    /// Times the size grew
    pub cache_size_increases: u64,
    /// Times the size shrank
    pub cache_size_decreases: u64,
    /// When the last optimization happened
    pub last_optimization: Option<Instant>,
    /// Running average of chosen sizes
    pub avg_cache_size_mb: u64,
}

impl Default for OptimizationStats {
    fn default() -> (r: Self)
        ensures
            r == (OptimizationStats {
                total_optimizations: 0,
                cache_size_increases: 0,
                cache_size_decreases: 0,
                last_optimization: None,
                avg_cache_size_mb: 0,
            }),
    {
        OptimizationStats {
            total_optimizations: 0,
            cache_size_increases: 0,
            cache_size_decreases: 0,
            last_optimization: None,
            avg_cache_size_mb: 0,
        }
    }
}

/// `x` raised to at least `lo`, then lowered to at most `hi`.
pub open spec fn clamp_size(x: u64, lo: u64, hi: u64) -> u64 {
    let raised = if x >= lo { x } else { lo };
    if raised <= hi { raised } else { hi }
}

/// Cache size a configuration chooses for a machine: the part of the
/// available memory that the strategy does not keep free (rounded down),
/// kept within the configured bounds.
pub open spec fn optimal_size(config: OptimizationConfig, m: SystemMemory) -> u64 {
    let usable = (m.available_mb * (100 - reserved_percent(config.strategy))) / 100;
    clamp_size(usable as u64, config.min_cache_mb, config.max_cache_mb)
}

/// Keeps the cache sized to the machine.
#[derive(Debug)]
pub struct CacheOptimizer {
    config: OptimizationConfig,
    stats: OptimizationStats,
    current_cache_size_mb: u64,
}

impl CacheOptimizer {
    /// Settings.
    pub closed spec fn spec_config(&self) -> OptimizationConfig {
        self.config
    }

    /// Counters.
    pub closed spec fn spec_stats(&self) -> OptimizationStats {
        self.stats
    }

    /// Current cache size in MB.
    pub closed spec fn spec_size(&self) -> u64 {
        self.current_cache_size_mb
    }

    /// What an optimization against `m` reports: the new size when it changes.
    pub open spec fn optimize_outcome(&self, m: SystemMemory) -> Option<u64> {
        if !self.spec_config().auto_optimize || optimal_size(self.spec_config(), m) == self.spec_size() {
            None
        } else {
            Some(optimal_size(self.spec_config(), m))
        }
    }

    /// How one optimization against `m` at time `now` takes the optimizer
    /// from `self` to `next`: nothing changes when automatic optimization is
    /// off or the size is already optimal; otherwise the size becomes the
    /// optimal one, the counters record whether it grew or shrank, the change
    /// is stamped with `now` and the running average moves halfway to the new
    /// size.
    pub open spec fn optimize_step(self, next: Self, m: SystemMemory, now: Instant) -> bool {
        let opt = optimal_size(self.spec_config(), m);
        if !self.spec_config().auto_optimize || opt == self.spec_size() {
            next == self
        } else {
            &&& next.spec_config() == self.spec_config()
            &&& next.spec_size() == opt
            &&& next.spec_stats().total_optimizations == self.spec_stats().total_optimizations + 1
            &&& next.spec_stats().cache_size_increases == self.spec_stats().cache_size_increases
                + if opt > self.spec_size() { 1int } else { 0int }
            &&& next.spec_stats().cache_size_decreases == self.spec_stats().cache_size_decreases
                + if opt < self.spec_size() { 1int } else { 0int }
            &&& next.spec_stats().last_optimization == Some(now)
            &&& next.spec_stats().avg_cache_size_mb == (self.spec_stats().avg_cache_size_mb + opt) / 2
        }
    }

    /// Optimizer with the default settings and a 3000 MB cache.
    pub fn new() -> (r: Self)
        ensures
            r.spec_config() == (OptimizationConfig {
                strategy: OptimizationStrategy::Balanced,
                min_cache_mb: 1000,
                max_cache_mb: 50000,
                update_interval_ms: 5000,
                auto_optimize: true,
            }),
            r.spec_stats().total_optimizations == 0,
            r.spec_stats().last_optimization is None,
            r.spec_size() == 3000,
    {
        Self::with_config(OptimizationConfig::default())
    }

    /// Optimizer with the given settings and a 3000 MB cache.
    pub fn with_config(config: OptimizationConfig) -> (r: Self)
        ensures
            r.spec_config() == config,
            r.spec_stats() == (OptimizationStats {
                total_optimizations: 0,
                cache_size_increases: 0,
                cache_size_decreases: 0,
                last_optimization: None,
                avg_cache_size_mb: 0,
            }),
            r.spec_size() == 3000,
    {
        CacheOptimizer { config, stats: OptimizationStats::default(), current_cache_size_mb: 3000 }
    }

    /// Cache size for a machine under the current settings.
    pub fn calculate_optimal_size(&self, system_memory: &SystemMemory) -> (r: u64)
        ensures
            r == optimal_size(self.spec_config(), *system_memory),
    {
        let keep_pct: u64 = match self.config.strategy {
            OptimizationStrategy::Conservative => 40,
            OptimizationStrategy::Balanced => 60,
            OptimizationStrategy::Aggressive => 80,
        };
        let available = system_memory.available_mb;
        proof {
            assert((available as int) * (keep_pct as int) <= (available as int) * 100) by (nonlinear_arith)
                requires keep_pct <= 100, available >= 0;
            assert((available as int) * (keep_pct as int) >= 0) by (nonlinear_arith)
                requires keep_pct >= 0, available >= 0;
        }
        let product: u128 = (available as u128) * (keep_pct as u128);
        let free: u64 = (product / 100) as u64;
        let raised = if free >= self.config.min_cache_mb { free } else { self.config.min_cache_mb };
        if raised <= self.config.max_cache_mb { raised } else { self.config.max_cache_mb }
    }

    /// Resizes the cache for the machine when automatic optimization is on;
    /// returns the new size when it changed.
    pub fn optimize_at(&mut self, system_memory: &SystemMemory, now: Instant) -> (r: MinervaResult<Option<u64>>)
        requires
            old(self).spec_stats().total_optimizations < u64::MAX,
            old(self).spec_stats().cache_size_increases < u64::MAX,
            old(self).spec_stats().cache_size_decreases < u64::MAX,
        ensures
            final(self).spec_config() == old(self).spec_config(),
            r == Ok::<Option<u64>, crate::error::MinervaError>(old(self).optimize_outcome(*system_memory)),
            old(self).optimize_step(*final(self), *system_memory, now),
    {
        if !self.config.auto_optimize {
            return Ok(None);
        }
        let optimal = self.calculate_optimal_size(system_memory);
        let old_size = self.current_cache_size_mb;
        if optimal != old_size {
            if optimal > old_size {
                self.stats.cache_size_increases = self.stats.cache_size_increases + 1;
            } else {
                self.stats.cache_size_decreases = self.stats.cache_size_decreases + 1;
            }
            self.current_cache_size_mb = optimal;
            self.stats.total_optimizations = self.stats.total_optimizations + 1;
            self.stats.last_optimization = Some(now);
            let avg: u128 = ((self.stats.avg_cache_size_mb as u128) + (optimal as u128)) / 2;
            self.stats.avg_cache_size_mb = avg as u64;
            Ok(Some(optimal))
        } else {
            Ok(None)
        }
    }

    /// Resizes the cache for the machine, stamping the change with the
    /// current time.
    pub fn optimize(&mut self, system_memory: &SystemMemory) -> (r: MinervaResult<Option<u64>>)
        requires
            old(self).spec_stats().total_optimizations < u64::MAX,
            old(self).spec_stats().cache_size_increases < u64::MAX,
            old(self).spec_stats().cache_size_decreases < u64::MAX,
        ensures
            final(self).spec_config() == old(self).spec_config(),
            r == Ok::<Option<u64>, crate::error::MinervaError>(old(self).optimize_outcome(*system_memory)),
            exists|now: Instant| now.wf() && #[trigger] old(self).optimize_step(*final(self), *system_memory, now),
    {
        let now = Instant::now();
        self.optimize_at(system_memory, now)
    }

    /// Current cache size in MB.
    pub fn current_size(&self) -> (r: u64)
        ensures
            r == self.spec_size(),
    {
        self.current_cache_size_mb
    }

    /// Sets the cache size, kept within the configured bounds.
    pub fn set_size(&mut self, size_mb: u64)
        ensures
            final(self).spec_size() == clamp_size(size_mb, old(self).spec_config().min_cache_mb, old(self).spec_config().max_cache_mb),
            final(self).spec_config() == old(self).spec_config(),
            final(self).spec_stats() == old(self).spec_stats(),
    {
        let raised = if size_mb >= self.config.min_cache_mb { size_mb } else { self.config.min_cache_mb };
        self.current_cache_size_mb = if raised <= self.config.max_cache_mb { raised } else { self.config.max_cache_mb };
    }

    /// Counters.
    pub fn stats(&self) -> (r: OptimizationStats)
        ensures
            r == self.spec_stats(),
    {
        self.stats
    }

    /// Settings.
    pub fn config(&self) -> (r: &OptimizationConfig)
        ensures
            *r == self.spec_config(),
    {
        &self.config
    }

    /// Replaces the settings.
    pub fn set_config(&mut self, config: OptimizationConfig)
        ensures
            final(self).spec_config() == config,
            final(self).spec_stats() == old(self).spec_stats(),
            final(self).spec_size() == old(self).spec_size(),
    {
        self.config = config;
    }

    /// Time since the last optimization, measured at `now`.
    pub fn time_since_last_optimization_at(&self, now: Instant) -> (r: Option<Duration>)
        requires
            now.wf(),
            self.spec_stats().last_optimization matches Some(t) ==> t.wf(),
        ensures
            match self.spec_stats().last_optimization {
                None => r is None,
                Some(t) => r matches Some(d) && d.wf() && d.total_nanos() == if now.spec_since_epoch().total_nanos()
                    >= t.spec_since_epoch().total_nanos() {
                    now.spec_since_epoch().total_nanos() - t.spec_since_epoch().total_nanos()
                } else {
                    0
                },
            },
    {
        match self.stats.last_optimization {
            None => None,
            Some(t) => Some(now.duration_since(t)),
        }
    }

    /// Time since the last optimization.
    pub fn time_since_last_optimization(&self) -> (r: Option<Duration>)
        requires
            self.spec_stats().last_optimization matches Some(t) ==> t.wf(),
        ensures
            r is Some == self.spec_stats().last_optimization is Some,
    {
        self.time_since_last_optimization_at(Instant::now())
    }

    /// Whether an optimization is due at `now`: never optimized before, or
    /// at least the update interval has passed since the last one.
    pub open spec fn optimization_due(&self, now: Instant) -> bool {
        match self.spec_stats().last_optimization {
            None => true,
            Some(t) => elapsed_nanos(t, now) / 1_000_000 >= self.spec_config().update_interval_ms,
        }
    }

    /// Whether an optimization is due at `now`: never optimized before, or
    /// at least the update interval has passed.
    pub fn should_optimize_at(&self, now: Instant) -> (r: bool)
        requires
            now.wf(),
            self.spec_stats().last_optimization matches Some(t) ==> t.wf(),
        ensures
            r == self.optimization_due(now),
    {
        match self.stats.last_optimization {
            None => true,
            Some(last) => now.duration_since(last).as_millis() >= (self.config.update_interval_ms as u128),
        }
    }

    /// Whether an optimization is due now: as `should_optimize_at` answers
    /// for a reading of the clock.
    pub fn should_optimize(&self) -> (r: bool)
        requires
            self.spec_stats().last_optimization matches Some(t) ==> t.wf(),
        ensures
            exists|now: Instant| now.wf() && r == #[trigger] self.optimization_due(now),
            self.spec_stats().last_optimization is None ==> r,
    {
        let now = Instant::now();
        let r = self.should_optimize_at(now);
        assert(now.wf() && r == self.optimization_due(now));
        r
    }
}

impl Default for CacheOptimizer {
    fn default() -> (r: Self)
        ensures
            r.spec_size() == 3000,
            r.spec_stats().total_optimizations == 0,
    {
        Self::new()
    }
}

/// The size the optimizer settles on always lies within the configured
/// bounds when they are ordered, and setting a size never leaves them either.
pub proof fn lemma_sizes_within_bounds(config: OptimizationConfig, m: SystemMemory, size: u64)
    requires
        config.min_cache_mb <= config.max_cache_mb,
    ensures
        config.min_cache_mb <= optimal_size(config, m) <= config.max_cache_mb,
        config.min_cache_mb <= clamp_size(size, config.min_cache_mb, config.max_cache_mb) <= config.max_cache_mb,
{
}

/// Optimizing twice against the same machine changes the size at most once:
/// after an optimization the second one reports no change and leaves the
/// optimizer as it is.
pub proof fn lemma_optimize_settles(c: CacheOptimizer, next: CacheOptimizer, after: CacheOptimizer, m: SystemMemory, t1: Instant, t2: Instant)
    requires
        c.optimize_step(next, m, t1),
        next.optimize_step(after, m, t2),
    ensures
        next.optimize_outcome(m) is None,
        after == next,
{
}

} // verus!
