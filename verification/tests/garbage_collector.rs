use minerva::garbage_collector::{GCConfig, GCPolicy, GCStats, GarbageCollector};
use minerva::time::{Duration, Instant};

#[test]
fn test_gc_stats_default() {
    let stats = GCStats::default();
    assert_eq!(stats.total_collections, 0);
    assert_eq!(stats.total_freed_mb, 0);
}

#[test]
fn test_gc_config_default() {
    let config = GCConfig::default();
    assert!(config.auto_collect);
    assert_eq!(config.collection_interval_ms, 60000);
}

#[test]
fn test_gc_policy_default() {
    let policy = GCPolicy::default();
    assert!(matches!(policy, GCPolicy::MarkAndSweep));
}

#[test]
fn test_garbage_collector_creation() {
    let collector = GarbageCollector::new();
    assert!(collector.config().auto_collect);
}

#[test]
fn test_garbage_collector_with_config() {
    let config = GCConfig { auto_collect: false, ..Default::default() };
    let collector = GarbageCollector::with_config(config);
    assert!(!collector.config().auto_collect);
}

#[test]
fn test_garbage_collector_should_collect() {
    let mut collector = GarbageCollector::new();
    let mut config = *collector.config();
    config.collection_interval_ms = 0;
    collector.set_config(config);
    assert!(collector.should_collect());
}

#[test]
fn test_garbage_collector_collect() {
    let mut collector = GarbageCollector::new();
    collector.collect(100, 5);
    assert_eq!(collector.stats().total_collections, 1);
    assert_eq!(collector.stats().total_freed_mb, 100);
    assert_eq!(collector.stats().models_collected, 5);
}

#[test]
fn test_garbage_collector_stats() {
    let collector = GarbageCollector::new();
    let stats = collector.stats();
    assert_eq!(stats.total_collections, 0);
}

#[test]
fn test_garbage_collector_set_auto_collect() {
    let mut collector = GarbageCollector::new();
    collector.set_auto_collect(false);
    assert!(!collector.config().auto_collect);
}

#[test]
fn test_garbage_collector_set_policy() {
    let mut collector = GarbageCollector::new();
    collector.set_policy(GCPolicy::Generational);
    assert!(matches!(collector.config().policy, GCPolicy::Generational));
}

#[test]
fn test_garbage_collector_reset_stats() {
    let mut collector = GarbageCollector::new();
    collector.collect(100, 5);
    collector.reset_stats();
    assert_eq!(collector.stats().total_collections, 0);
}

#[test]
fn test_gc_policy_all_variants() {
    let policies = [GCPolicy::MarkAndSweep, GCPolicy::Generational, GCPolicy::ReferenceCount];
    for policy in policies {
        assert!(matches!(policy, GCPolicy::MarkAndSweep | GCPolicy::Generational | GCPolicy::ReferenceCount));
    }
}

#[test]
fn test_gc_time_until_next_collection() {
    let collector = GarbageCollector::new();
    let time = collector.time_until_next_collection();
    assert!(time.as_millis() < 100);
}

#[test]
fn collection_schedules_the_next_one_an_interval_later() {
    let t0 = Instant::from_epoch(Duration::from_secs(1_000));
    let mut collector = GarbageCollector::with_config_at(GCConfig::default(), t0);
    assert!(!collector.should_collect_at(Instant::from_epoch(Duration::from_secs(1_059))));
    assert!(collector.should_collect_at(Instant::from_epoch(Duration::from_secs(1_060))));
    let start = Instant::from_epoch(Duration::from_secs(1_060));
    let end = Instant::from_epoch(Duration::from_millis(1_060_040));
    collector.collect_at(64, 2, start, end);
    let stats = collector.stats();
    assert_eq!(stats.total_collections, 1);
    assert_eq!(stats.total_freed_mb, 64);
    assert_eq!(stats.models_collected, 2);
    assert_eq!(stats.avg_collection_time_ms, 20);
    assert_eq!(stats.last_collection, Some(end));
    assert_eq!(
        collector.time_until_next_collection_at(Instant::from_epoch(Duration::from_millis(1_060_040))),
        Duration::from_secs(60)
    );
    assert!(!collector.should_collect_at(Instant::from_epoch(Duration::from_secs(1_100))));
}

#[test]
fn disabled_collector_never_collects() {
    let t0 = Instant::from_epoch(Duration::from_secs(0));
    let collector =
        GarbageCollector::with_config_at(GCConfig { auto_collect: false, ..Default::default() }, t0);
    assert!(!collector.should_collect_at(Instant::from_epoch(Duration::from_secs(1_000_000))));
}

#[test]
fn collect_postpones_the_next_collection() {
    let mut collector = GarbageCollector::new();
    collector.collect(100, 5);
    assert!(!collector.should_collect());
    assert!(collector.stats().last_collection.is_some());
    let t = Instant::from_epoch(Duration::from_secs(500));
    let mut timed = GarbageCollector::with_config_at(GCConfig::default(), t);
    timed.collect_at(1, 1, t, t);
    assert!(!timed.should_collect_at(Instant::from_epoch(Duration::from_secs(559))));
    assert!(!timed.should_collect_at(Instant::from_epoch(Duration::from_secs(619))));
    assert!(timed.should_collect_at(Instant::from_epoch(Duration::from_secs(620))));
}
