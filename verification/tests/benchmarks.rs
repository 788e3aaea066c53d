use minerva::benchmarks::{Benchmark, PerformanceAccumulator};
use minerva::time::{Duration, Instant};

#[test]
fn test_benchmark_not_started() {
    let bench = Benchmark::new("test");
    assert!(bench.end().is_err());
}

#[test]
fn test_performance_accumulator() {
    let mut acc = PerformanceAccumulator::new();
    acc.add_measurement(Duration::from_millis(100));
    acc.add_measurement(Duration::from_millis(200));
    acc.add_measurement(Duration::from_millis(300));
    assert_eq!(acc.count(), 3);
    assert_eq!(acc.avg(), Some(Duration::from_millis(200)));
}

#[test]
fn test_accumulator_default() {
    let acc = PerformanceAccumulator::default();
    assert_eq!(acc.count(), 0);
    assert!(acc.avg().is_none());
}

#[test]
fn benchmark_measures_from_start_to_given_time() {
    let mut bench = Benchmark::new("step");
    let t0 = Instant::from_epoch(Duration::from_secs(100));
    bench.start_at(t0);
    let t1 = Instant::from_epoch(Duration::from_millis(100_250));
    assert_eq!(bench.elapsed_at(t1).unwrap(), Duration::from_millis(250));
    let earlier = Instant::from_epoch(Duration::from_secs(99));
    assert_eq!(bench.elapsed_at(earlier).unwrap(), Duration::zero());
}

#[test]
fn benchmark_started_now_ends_ok() {
    let mut bench = Benchmark::new("now");
    bench.start();
    assert!(bench.end().is_ok());
}

#[test]
fn accumulator_keeps_gpu_and_cpu_apart() {
    let mut acc = PerformanceAccumulator::new();
    acc.add_gpu_measurement(Duration::from_millis(10));
    acc.add_gpu_measurement(Duration::from_millis(20));
    acc.add_cpu_measurement(Duration::from_millis(100));
    assert_eq!(acc.gpu_count(), 2);
    assert_eq!(acc.cpu_count(), 1);
    assert_eq!(acc.count(), 0);
    assert_eq!(acc.avg_gpu(), Some(Duration::from_millis(15)));
    assert_eq!(acc.avg_cpu(), Some(Duration::from_millis(100)));
}

#[test]
fn accumulator_average_divides_like_std() {
    let mut acc = PerformanceAccumulator::new();
    acc.add_measurement(Duration::from_nanos(1));
    acc.add_measurement(Duration::from_nanos(2));
    assert_eq!(acc.avg(), Some(Duration::from_nanos(1)));
    let mut acc2 = PerformanceAccumulator::new();
    acc2.add_measurement(Duration::from_secs(1));
    acc2.add_measurement(Duration::from_secs(2));
    acc2.add_measurement(Duration::from_secs(2));
    assert_eq!(acc2.avg().unwrap().as_nanos(), 1_666_666_666);
}

#[test]
fn duration_arithmetic() {
    let d = Duration::from_millis(1_500);
    assert_eq!(d.as_secs(), 1);
    assert_eq!(d.subsec_nanos(), 500_000_000);
    assert_eq!(d.as_millis(), 1_500);
    assert_eq!(d.as_micros(), 1_500_000);
    assert_eq!(d.checked_add(Duration::from_millis(600)), Some(Duration::from_millis(2_100)));
    assert_eq!(Duration::from_secs(1).saturating_sub(Duration::from_secs(2)), Duration::zero());
    assert_eq!(Duration::from_secs(u64::MAX).checked_add(Duration::from_secs(1)), None);
    assert_eq!(Duration::from_secs(3).div_u32(2), Duration::from_millis(1_500));
}

#[test]
fn instant_order_and_offsets() {
    let a = Instant::from_epoch(Duration::from_secs(5));
    let b = a.checked_add(Duration::from_millis(1)).unwrap();
    assert!(a.is_before(&b));
    assert!(!b.is_before(&a));
    assert_eq!(b.duration_since(a), Duration::from_millis(1));
    assert_eq!(b.since_epoch(), Duration::from_millis(5_001));
}

#[test]
fn gpu_and_cpu_measurements_leave_the_average_alone() {
    let mut acc = PerformanceAccumulator::new();
    acc.add_measurement(Duration::from_millis(100));
    acc.add_gpu_measurement(Duration::from_millis(5000));
    acc.add_measurement(Duration::from_millis(200));
    acc.add_cpu_measurement(Duration::from_millis(7000));
    acc.add_measurement(Duration::from_millis(300));
    assert_eq!(acc.count(), 3);
    assert_eq!(acc.avg(), Some(Duration::from_millis(200)));
    assert_eq!(acc.gpu_count(), 1);
    assert_eq!(acc.cpu_count(), 1);
}

#[test]
fn end_reports_time_since_start() {
    assert!(Benchmark::new("x").end().is_err());
    let mut bench = Benchmark::new("x");
    bench.start();
    let d = bench.end().unwrap();
    assert!(d.as_secs() < 60);
}
