use minerva::context_manager::UsageStats;
use minerva::downloader::{CacheEntry, DownloadCache, ModelDownloadRequest, ModelDownloader, ProgressTracker};
use minerva::time::{Duration, Instant};

fn entry(model_id: &str, size_bytes: u64) -> CacheEntry {
    CacheEntry {
        model_id: model_id.to_string(),
        path: "/tmp".to_string(),
        revision: "main".to_string(),
        size_bytes,
        file_count: 5,
        downloaded_at: 0,
        last_accessed: 0,
    }
}

#[test]
fn test_cache_new() {
    let cache = DownloadCache::new();
    assert!(cache.list().is_empty());
}

#[test]
fn test_cache_add() {
    let mut cache = DownloadCache::new();
    cache.add(entry("test", 1000));
    assert_eq!(cache.list().len(), 1);
}

#[test]
fn test_cache_get() {
    let mut cache = DownloadCache::new();
    cache.add(entry("test", 1000));
    assert!(cache.get("test").is_some());
}

#[test]
fn test_cache_remove() {
    let mut cache = DownloadCache::new();
    cache.add(entry("test", 1000));
    cache.remove("test");
    assert!(cache.list().is_empty());
}

#[test]
fn cache_get_finds_the_first_entry_and_remove_keeps_others() {
    let mut cache = DownloadCache::new();
    cache.add(entry("a", 10));
    cache.add(entry("b", 20));
    cache.add(entry("a", 30));
    assert_eq!(cache.get("a").unwrap().size_bytes, 10);
    assert!(cache.get("c").is_none());
    assert_eq!(cache.total_size(), 60);
    cache.remove("a");
    assert_eq!(cache.list().len(), 1);
    assert_eq!(cache.list()[0].model_id, "b");
    assert!(cache.get("a").is_none());
    assert_eq!(cache.total_size(), 20);
}

#[test]
fn test_new() {
    let dl = ModelDownloader::new();
    assert_eq!(dl.max_parallel(), 3);
}

#[test]
fn test_validate_empty_id() {
    let dl = ModelDownloader::new();
    let req = ModelDownloadRequest {
        model_id: String::new(),
        revision: None,
        local_dir: "/tmp".to_string(),
        files: None,
    };
    assert!(dl.validate(&req).is_err());
}

#[test]
fn download_reports_the_requested_model() {
    let dl = ModelDownloader::new().with_token("SECRET-REDACTED".to_string());
    assert_eq!(dl.max_parallel(), 3);
    let req = ModelDownloadRequest {
        model_id: "test/model".to_string(),
        revision: None,
        local_dir: "/tmp".to_string(),
        files: None,
    };
    let result = dl.download(&req).unwrap();
    assert_eq!(result.model_id, "test/model");
    assert_eq!(result.local_path, "/tmp");
    let empty = ModelDownloadRequest { model_id: String::new(), revision: None, local_dir: "/tmp".to_string(), files: None };
    let err = dl.download(&empty).unwrap_err();
    assert_eq!(err.to_string(), "model_id required");
}

#[test]
fn test_tracker_creation() {
    let tracker = ProgressTracker::new("test".to_string(), 1000);
    assert_eq!(tracker.total_bytes(), 1000);
}

#[test]
fn tracker_reports_at_most_every_half_second() {
    let t0 = Instant::from_epoch(Duration::from_secs(50));
    let mut tracker = ProgressTracker::new_at("m".to_string(), 10, t0);
    assert_eq!(tracker.model_id(), "m");
    assert_eq!(tracker.start_time(), t0);
    assert!(!tracker.should_update_at(Instant::from_epoch(Duration::from_millis(50_500))));
    assert!(tracker.should_update_at(Instant::from_epoch(Duration::from_millis(50_501))));
    assert!(!tracker.should_update_at(Instant::from_epoch(Duration::from_millis(50_900))));
}

#[test]
fn test_usage_stats_default() {
    let stats = UsageStats::default();
    assert_eq!(stats.total_requests, 0);
    assert_eq!(stats.total_tokens_generated, 0);
    assert_eq!(stats.total_time_ms, 0);
}

#[test]
fn remove_lowers_total_size_by_the_removed_entries() {
    let mut cache = DownloadCache::new();
    cache.add(entry("a", 10));
    cache.add(entry("b", 20));
    cache.add(entry("a", 30));
    cache.remove("a");
    assert_eq!(cache.total_size(), 60 - 10 - 30);
    cache.remove("missing");
    assert_eq!(cache.list().len(), 1);
    assert_eq!(cache.total_size(), 20);
    cache.add(entry("b", 5));
    assert_eq!(cache.list().len(), 2);
    assert_eq!(cache.total_size(), 25);
}
