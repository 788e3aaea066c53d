//! Garbage collection bookkeeping: when to collect and what was collected.
use vstd::prelude::*;

use crate::time::{elapsed_nanos, Duration, Instant};

verus! {

/// Collection strategy.
#[derive(Debug, Clone, Copy, PartialEq, Eq, Structural)]
pub enum GCPolicy {
    /// Mark and sweep
    MarkAndSweep,
    /// Generational
    Generational,
    /// Reference counting
    ReferenceCount,
}

impl Default for GCPolicy {
    fn default() -> (r: Self)
        ensures
            r == GCPolicy::MarkAndSweep,
    {
        GCPolicy::MarkAndSweep
    }
}

/// Counters of past collections.
#[derive(Debug, Clone, Copy, PartialEq, Eq, Structural)]
pub struct GCStats {
    /// Collections run
    pub total_collections: u64,
    /// MB freed in all
    pub total_freed_mb: u64,
    /// When the last collection ran
    pub last_collection: Option<Instant>,
    /// Running average of collection times in ms
    pub avg_collection_time_ms: u128,
    /// Models collected in all
    pub models_collected: u64,
}

/// Counters before any collection.
pub open spec fn empty_gc_stats() -> GCStats {
    GCStats {
        total_collections: 0,
        total_freed_mb: 0,
        last_collection: None,
        avg_collection_time_ms: 0,
        models_collected: 0,
    }
}

impl Default for GCStats {
    fn default() -> (r: Self)
        ensures
            r == empty_gc_stats(),
    {
        GCStats { total_collections: 0, total_freed_mb: 0, last_collection: None, avg_collection_time_ms: 0, models_collected: 0 }
    }
}

/// Collection settings.
#[derive(Debug, Clone, Copy, PartialEq, Eq, Structural)]
pub struct GCConfig {
    /// Strategy
    pub policy: GCPolicy,
    /// Time between collections in ms
    pub collection_interval_ms: u64,
    /// Free memory to keep in MB
    pub min_free_mb: u64,
    /// Collect automatically
    pub auto_collect: bool,
    /// Collect aggressively
    pub aggressive_mode: bool,
}

/// The default settings: mark and sweep every minute, 500 MB kept free,
/// automatic, not aggressive.
pub open spec fn default_gc_config() -> GCConfig {
    GCConfig {
        policy: GCPolicy::MarkAndSweep,
        collection_interval_ms: 60000,
        min_free_mb: 500,
        auto_collect: true,
        aggressive_mode: false,
    }
}

impl Default for GCConfig {
    fn default() -> (r: Self)
        ensures
            r == default_gc_config(),
    {
        GCConfig {
            policy: GCPolicy::MarkAndSweep,
            collection_interval_ms: 60000,
            min_free_mb: 500,
            auto_collect: true,
            aggressive_mode: false,
        }
    }
}

/// Decides when to collect garbage and keeps statistics about collections.
#[derive(Debug)]
pub struct GarbageCollector {
    config: GCConfig,
    stats: GCStats,
    next_collection: Instant,
}

impl GarbageCollector {
    /// Settings.
    pub closed spec fn spec_config(&self) -> GCConfig {
        self.config
    }

    /// Counters.
    pub closed spec fn spec_stats(&self) -> GCStats {
        self.stats
    }

    /// When the next collection is due.
    pub closed spec fn spec_next(&self) -> Instant {
        self.next_collection
    }

    /// Well-formedness: the stored times are well formed.
    pub open spec fn wf(&self) -> bool {
        &&& self.spec_next().wf()
        &&& self.spec_stats().last_collection matches Some(t) ==> t.wf()
    }

    /// Collector with the given settings, due for collection at `now`.
    pub fn with_config_at(config: GCConfig, now: Instant) -> (r: Self)
        requires
            now.wf(),
        ensures
            r.wf(),
            r.spec_config() == config,
            r.spec_stats() == empty_gc_stats(),
            r.spec_next() == now,
    {
        GarbageCollector { config, stats: GCStats::default(), next_collection: now }
    }

    /// Collector with the default settings, due for collection now.
    pub fn new() -> (r: Self)
        ensures
            r.wf(),
            r.spec_config() == default_gc_config(),
            r.spec_stats() == empty_gc_stats(),
    {
        Self::with_config_at(GCConfig::default(), Instant::now())
    }

    /// Collector with the given settings, due for collection now.
    pub fn with_config(config: GCConfig) -> (r: Self)
        ensures
            r.wf(),
            r.spec_config() == config,
            r.spec_stats() == empty_gc_stats(),
    {
        Self::with_config_at(config, Instant::now())
    }

    /// Whether a collection is due at `now`: automatic collection is on and
    /// the interval has passed since the due time.
    pub fn should_collect_at(&self, now: Instant) -> (r: bool)
        requires
            self.wf(),
            now.wf(),
        ensures
            r == self.collection_due(now),
    {
        if !self.config.auto_collect {
            return false;
        }
        now.duration_since(self.next_collection).as_millis() >= (self.config.collection_interval_ms as u128)
    }

    /// Whether a collection is due now.
    pub fn should_collect(&self) -> (r: bool)
        requires
            self.wf(),
        ensures
            exists|now: Instant| now.wf() && r == #[trigger] self.collection_due(now),
            !self.spec_config().auto_collect ==> !r,
            self.spec_config().auto_collect && self.spec_config().collection_interval_ms == 0 ==> r,
    {
        self.should_collect_at(Instant::now())
    }

    /// Whether a collection is due at `now`: automatic collection is on and
    /// at least one interval (in whole milliseconds) has passed since the
    /// recorded due time.
    pub open spec fn collection_due(&self, now: Instant) -> bool {
        self.spec_config().auto_collect
            && elapsed_nanos(self.spec_next(), now) / 1_000_000 >= self.spec_config().collection_interval_ms
    }

    /// How recording a collection that ran from `start` to `end`, freed
    /// `freed_mb` MB and `models_collected` models takes the collector from
    /// `self` to `next`: the counters grow by one collection and by what it
    /// freed, the collection is stamped with `end`, the average duration
    /// moves halfway to this one's whole milliseconds, and the next
    /// collection is due one interval after `end` (where that instant can be
    /// represented; else the due time stays).
    pub open spec fn collect_step(self, next: Self, freed_mb: u64, models_collected: u64, start: Instant, end: Instant) -> bool {
        let due = end.spec_since_epoch().total_nanos() + self.spec_config().collection_interval_ms * 1_000_000;
        &&& next.wf()
        &&& next.spec_config() == self.spec_config()
        &&& next.spec_stats().total_collections == self.spec_stats().total_collections + 1
        &&& next.spec_stats().total_freed_mb == self.spec_stats().total_freed_mb + freed_mb
        &&& next.spec_stats().models_collected == self.spec_stats().models_collected + models_collected
        &&& next.spec_stats().last_collection == Some(end)
        &&& next.spec_stats().avg_collection_time_ms
            == (self.spec_stats().avg_collection_time_ms + elapsed_nanos(start, end) / 1_000_000) / 2
        &&& due <= Duration::max_nanos() ==> next.spec_next().spec_since_epoch().total_nanos() == due
        &&& due > Duration::max_nanos() ==> next.spec_next() == self.spec_next()
    }

    /// Records a collection that ran from `start` to `end` and freed
    /// `freed_mb` MB and `models_collected` models; the next one is due one
    /// interval after `end`.
    pub fn collect_at(&mut self, freed_mb: u64, models_collected: u64, start: Instant, end: Instant)
        requires
            old(self).wf(),
            start.wf(),
            end.wf(),
            old(self).spec_stats().total_collections < u64::MAX,
            old(self).spec_stats().total_freed_mb + freed_mb <= u64::MAX,
            old(self).spec_stats().models_collected + models_collected <= u64::MAX,
        ensures
            old(self).collect_step(*final(self), freed_mb, models_collected, start, end),
    {
        self.stats.total_collections = self.stats.total_collections + 1;
        self.stats.total_freed_mb = self.stats.total_freed_mb + freed_mb;
        self.stats.models_collected = self.stats.models_collected + models_collected;
        self.stats.last_collection = Some(end);
        let collection_time = end.duration_since(start).as_millis();
        proof {
            assert(collection_time <= u128::MAX / 2) by (nonlinear_arith)
                requires collection_time == elapsed_nanos(start, end) / 1_000_000,
                    elapsed_nanos(start, end) <= Duration::max_nanos(),
                    elapsed_nanos(start, end) >= 0;
        }
        let avg = self.stats.avg_collection_time_ms / 2 + collection_time / 2
            + (self.stats.avg_collection_time_ms % 2 + collection_time % 2) / 2;
        proof {
            let a = old(self).spec_stats().avg_collection_time_ms as int;
            let c = collection_time as int;
            assert(avg == (a + c) / 2) by (nonlinear_arith)
                requires a >= 0, c >= 0, avg == a / 2 + c / 2 + (a % 2 + c % 2) / 2;
        }
        self.stats.avg_collection_time_ms = avg;
        let interval = Duration::from_millis(self.config.collection_interval_ms);
        match end.checked_add(interval) {
            Some(next) => {
                self.next_collection = next;
            },
            None => {},
        }
    }

    /// Records a collection that freed `freed_mb` MB and `models_collected`
    /// models, timing it with the system clock: it ran between two readings
    /// of the clock, and the next one is due one interval after the second.
    pub fn collect(&mut self, freed_mb: u64, models_collected: u64)
        requires
            old(self).wf(),
            old(self).spec_stats().total_collections < u64::MAX,
            old(self).spec_stats().total_freed_mb + freed_mb <= u64::MAX,
            old(self).spec_stats().models_collected + models_collected <= u64::MAX,
        ensures
            exists|start: Instant, end: Instant|
                start.wf() && end.wf()
                && #[trigger] old(self).collect_step(*final(self), freed_mb, models_collected, start, end),
    {
        let start = Instant::now();
        let end = Instant::now();
        self.collect_at(freed_mb, models_collected, start, end);
    }

    /// Time from `now` until the next collection is due (zero when overdue).
    pub fn time_until_next_collection_at(&self, now: Instant) -> (r: Duration)
        requires
            self.wf(),
            now.wf(),
        ensures
            r.wf(),
            r.total_nanos() == elapsed_nanos(now, self.spec_next()),
    {
        self.next_collection.duration_since(now)
    }

    /// Time until the next collection is due.
    pub fn time_until_next_collection(&self) -> (r: Duration)
        requires
            self.wf(),
        ensures
            r.wf(),
    {
        self.time_until_next_collection_at(Instant::now())
    }

    /// Counters.
    pub fn stats(&self) -> (r: GCStats)
        ensures
            r == self.spec_stats(),
    {
        self.stats
    }

    /// Settings.
    pub fn config(&self) -> (r: &GCConfig)
        ensures
            *r == self.spec_config(),
    {
        &self.config
    }

    /// Replaces the settings.
    pub fn set_config(&mut self, config: GCConfig)
        ensures
            final(self).spec_config() == config,
            final(self).spec_stats() == old(self).spec_stats(),
            final(self).spec_next() == old(self).spec_next(),
    {
        self.config = config;
    }

    /// Turns automatic collection on or off.
    pub fn set_auto_collect(&mut self, enabled: bool)
        ensures
            final(self).spec_config() == (GCConfig { auto_collect: enabled, ..old(self).spec_config() }),
            final(self).spec_stats() == old(self).spec_stats(),
            final(self).spec_next() == old(self).spec_next(),
    {
        self.config.auto_collect = enabled;
    }

    /// Changes the strategy.
    pub fn set_policy(&mut self, policy: GCPolicy)
        ensures
            final(self).spec_config() == (GCConfig { policy, ..old(self).spec_config() }),
            final(self).spec_stats() == old(self).spec_stats(),
            final(self).spec_next() == old(self).spec_next(),
    {
        self.config.policy = policy;
    }

    /// Clears the counters.
    pub fn reset_stats(&mut self)
        ensures
            final(self).spec_stats() == empty_gc_stats(),
            final(self).spec_config() == old(self).spec_config(),
            final(self).spec_next() == old(self).spec_next(),
    {
        self.stats = GCStats::default();
    }
}

impl Default for GarbageCollector {
    fn default() -> (r: Self)
        ensures
            r.wf(),
            r.spec_config() == default_gc_config(),
            r.spec_stats() == empty_gc_stats(),
    {
        Self::new()
    }
}

/// A collector with automatic collection off never asks to collect, and one
/// whose interval has passed always does.
pub proof fn lemma_collection_due(auto_collect: bool, interval_ms: u64, elapsed: int)
    requires
        elapsed >= 0,
    ensures
        !auto_collect ==> !(auto_collect && elapsed / 1_000_000 >= interval_ms),
        auto_collect && elapsed >= interval_ms * 1_000_000 ==> (auto_collect && elapsed / 1_000_000 >= interval_ms),
{
    if elapsed >= interval_ms * 1_000_000 {
        assert(elapsed / 1_000_000 >= interval_ms) by (nonlinear_arith)
            requires elapsed >= interval_ms * 1_000_000;
    }
}

/// A collection postpones the next one: with a non-zero interval, no
/// collection is due at any time before one interval has passed after the
/// collection ended.
pub proof fn lemma_collect_postpones(g: GarbageCollector, next: GarbageCollector, freed_mb: u64, models_collected: u64, start: Instant, end: Instant, now: Instant)
    requires
        g.collect_step(next, freed_mb, models_collected, start, end),
        g.spec_config().collection_interval_ms > 0,
        end.spec_since_epoch().total_nanos() + g.spec_config().collection_interval_ms * 1_000_000 <= Duration::max_nanos(),
        now.spec_since_epoch().total_nanos()
            < end.spec_since_epoch().total_nanos() + g.spec_config().collection_interval_ms * 1_000_000,
    ensures
        !next.collection_due(now),
{
}

} // verus!
