use minerva::cache_optimizer::{
    CacheOptimizer, OptimizationConfig, OptimizationStats, OptimizationStrategy, SystemMemory,
};
use minerva::time::{Duration, Instant};

fn machine(total_mb: u64, available_mb: u64) -> SystemMemory {
    SystemMemory { total_mb, available_mb, used_mb: total_mb - available_mb }
}

#[test]
fn test_system_memory_under_pressure() {
    let mem_low = SystemMemory { total_mb: 10000, available_mb: 1000, used_mb: 9000 };
    assert!(mem_low.under_pressure());
    let mem_ok = SystemMemory { total_mb: 10000, available_mb: 5000, used_mb: 5000 };
    assert!(!mem_ok.under_pressure());
}

#[test]
fn system_memory_pressure_edges() {
    assert!(!machine(10000, 2000).under_pressure());
    assert!(machine(10000, 1999).under_pressure());
    assert!(SystemMemory { total_mb: 0, available_mb: 0, used_mb: 0 }.under_pressure());
}

#[test]
fn test_optimization_strategy_default() {
    let strategy = OptimizationStrategy::default();
    assert!(matches!(strategy, OptimizationStrategy::Balanced));
}

#[test]
fn test_optimization_config_default() {
    let config = OptimizationConfig::default();
    assert!(config.auto_optimize);
    assert_eq!(config.min_cache_mb, 1000);
    assert_eq!(config.max_cache_mb, 50000);
}

#[test]
fn test_cache_optimizer_creation() {
    let optimizer = CacheOptimizer::new();
    assert_eq!(optimizer.current_size(), 3000);
}

#[test]
fn test_cache_optimizer_calculate_optimal_size() {
    let optimizer = CacheOptimizer::new();
    let mem = SystemMemory { total_mb: 16000, available_mb: 8000, used_mb: 8000 };
    let optimal = optimizer.calculate_optimal_size(&mem);
    assert!(optimal > 0);
    assert!(optimal <= optimizer.config().max_cache_mb);
}

#[test]
fn test_cache_optimizer_conservative_strategy() {
    let config = OptimizationConfig { strategy: OptimizationStrategy::Conservative, ..Default::default() };
    let optimizer = CacheOptimizer::with_config(config);
    let mem = SystemMemory { total_mb: 16000, available_mb: 8000, used_mb: 8000 };
    let optimal = optimizer.calculate_optimal_size(&mem);
    assert!(optimal > 0);
}

#[test]
fn test_cache_optimizer_aggressive_strategy() {
    let config = OptimizationConfig { strategy: OptimizationStrategy::Aggressive, ..Default::default() };
    let optimizer = CacheOptimizer::with_config(config);
    let mem = SystemMemory { total_mb: 16000, available_mb: 8000, used_mb: 8000 };
    let optimal = optimizer.calculate_optimal_size(&mem);
    assert!(optimal > 0);
}

#[test]
fn optimal_size_per_strategy() {
    let mem = machine(16000, 8000);
    let balanced = CacheOptimizer::new();
    assert_eq!(balanced.calculate_optimal_size(&mem), 4800);
    let conservative = CacheOptimizer::with_config(OptimizationConfig {
        strategy: OptimizationStrategy::Conservative,
        ..Default::default()
    });
    assert_eq!(conservative.calculate_optimal_size(&mem), 3200);
    let aggressive = CacheOptimizer::with_config(OptimizationConfig {
        strategy: OptimizationStrategy::Aggressive,
        ..Default::default()
    });
    assert_eq!(aggressive.calculate_optimal_size(&mem), 6400);
    assert_eq!(balanced.calculate_optimal_size(&machine(1_000_000, 900_000)), 50000);
    assert_eq!(balanced.calculate_optimal_size(&machine(16000, 1000)), 1000);
    assert_eq!(balanced.calculate_optimal_size(&machine(16000, 1999)), 1199);
}

#[test]
fn test_cache_optimizer_set_size() {
    let mut optimizer = CacheOptimizer::new();
    optimizer.set_size(5000);
    assert_eq!(optimizer.current_size(), 5000);
}

#[test]
fn test_cache_optimizer_set_size_respects_bounds() {
    let mut optimizer = CacheOptimizer::new();
    optimizer.set_size(100000);
    assert!(optimizer.current_size() <= optimizer.config().max_cache_mb);
}

#[test]
fn set_size_clamps_both_ends() {
    let mut optimizer = CacheOptimizer::new();
    optimizer.set_size(100000);
    assert_eq!(optimizer.current_size(), 50000);
    optimizer.set_size(10);
    assert_eq!(optimizer.current_size(), 1000);
}

#[test]
fn test_cache_optimizer_stats() {
    let optimizer = CacheOptimizer::new();
    let stats = optimizer.stats();
    assert_eq!(stats.total_optimizations, 0);
}

#[test]
fn test_cache_optimizer_should_optimize() {
    let optimizer = CacheOptimizer::new();
    assert!(optimizer.should_optimize());
}

#[test]
fn test_optimization_strategy_all_variants() {
    let strategies = [
        OptimizationStrategy::Conservative,
        OptimizationStrategy::Balanced,
        OptimizationStrategy::Aggressive,
    ];
    for strategy in strategies {
        assert!(matches!(
            strategy,
            OptimizationStrategy::Conservative | OptimizationStrategy::Balanced | OptimizationStrategy::Aggressive
        ));
    }
}

#[test]
fn test_optimization_stats_default() {
    let stats = OptimizationStats::default();
    assert_eq!(stats.total_optimizations, 0);
    assert!(stats.last_optimization.is_none());
}

#[test]
fn optimize_resizes_once_then_settles() {
    let mut optimizer = CacheOptimizer::new();
    let mem = machine(16000, 8000);
    let t = Instant::from_epoch(Duration::from_secs(10));
    assert_eq!(optimizer.optimize_at(&mem, t).unwrap(), Some(4800));
    assert_eq!(optimizer.current_size(), 4800);
    let stats = optimizer.stats();
    assert_eq!(stats.total_optimizations, 1);
    assert_eq!(stats.cache_size_decreases, 0);
    assert_eq!(stats.cache_size_increases, 1);
    assert_eq!(stats.avg_cache_size_mb, 2400);
    assert_eq!(stats.last_optimization, Some(t));
    assert_eq!(optimizer.optimize_at(&mem, t).unwrap(), None);
    assert_eq!(optimizer.stats().total_optimizations, 1);
}

#[test]
fn optimize_does_nothing_when_disabled() {
    let mut optimizer =
        CacheOptimizer::with_config(OptimizationConfig { auto_optimize: false, ..Default::default() });
    assert_eq!(optimizer.optimize(&machine(16000, 8000)).unwrap(), None);
    assert_eq!(optimizer.current_size(), 3000);
}

#[test]
fn should_optimize_waits_for_the_interval() {
    let mut optimizer = CacheOptimizer::new();
    let t = Instant::from_epoch(Duration::from_secs(10));
    optimizer.optimize_at(&machine(16000, 8000), t).unwrap();
    assert!(!optimizer.should_optimize_at(Instant::from_epoch(Duration::from_millis(14_999))));
    assert!(optimizer.should_optimize_at(Instant::from_epoch(Duration::from_millis(15_000))));
    assert_eq!(
        optimizer.time_since_last_optimization_at(Instant::from_epoch(Duration::from_secs(12))),
        Some(Duration::from_secs(2))
    );
}

#[test]
fn optimize_with_the_clock_records_the_change() {
    let mut optimizer = CacheOptimizer::new();
    assert_eq!(optimizer.optimize(&machine(16000, 8000)).unwrap(), Some(4800));
    let stats = optimizer.stats();
    assert_eq!(stats.total_optimizations, 1);
    assert_eq!(stats.cache_size_increases, 1);
    assert_eq!(stats.avg_cache_size_mb, 2400);
    assert!(stats.last_optimization.is_some());
    assert_eq!(optimizer.optimize(&machine(16000, 8000)).unwrap(), None);
    assert_eq!(optimizer.stats().total_optimizations, 1);
}
