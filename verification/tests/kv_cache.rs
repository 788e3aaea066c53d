use minerva::kv_cache_optimizer::{CacheRange, KVCacheManager, KVPair, LayerKVCache};

fn bits(x: f32, n: usize) -> Vec<u32> {
    vec![x.to_bits(); n]
}

#[test]
fn test_layer_kv_cache_creation() {
    let cache = LayerKVCache::new(256, 256 * 64);
    assert_eq!(cache.seq_len, 0);
    assert_eq!(cache.max_seq_len, 256);
}

#[test]
fn test_append_keys_and_values() {
    let mut cache = LayerKVCache::new(256, 256 * 64);
    assert!(cache.append(&bits(0.5, 64), &bits(0.5, 64)).is_ok());
    assert_eq!(cache.seq_len, 64);
}

#[test]
fn test_append_multiple_tokens() {
    let mut cache = LayerKVCache::new(256, 256 * 64);
    for _ in 0..10 {
        assert!(cache.append(&bits(0.5, 64), &bits(0.5, 64)).is_ok());
    }
    assert_eq!(cache.seq_len, 10 * 64);
}

#[test]
fn test_append_size_mismatch() {
    let mut cache = LayerKVCache::new(256, 256 * 64);
    assert!(cache.append(&bits(0.5, 64), &bits(0.5, 32)).is_err());
}

#[test]
fn test_get_keys() {
    let mut cache = LayerKVCache::new(256, 256 * 64);
    cache.append(&bits(0.5, 64), &bits(0.5, 64)).unwrap();
    let retrieved = cache.get_keys(0, 64).unwrap();
    assert_eq!(retrieved.len(), 64);
}

#[test]
fn test_get_values() {
    let mut cache = LayerKVCache::new(256, 256 * 64);
    cache.append(&bits(0.5, 64), &bits(0.7, 64)).unwrap();
    let retrieved = cache.get_values(0, 1).unwrap();
    assert_eq!(f32::from_bits(retrieved[0]), 0.7);
}

#[test]
fn test_cache_overflow() {
    let mut cache = LayerKVCache::new(2, 128);
    assert!(cache.append(&bits(0.5, 64), &bits(0.5, 64)).is_ok());
    assert!(cache.append(&bits(0.5, 64), &bits(0.5, 64)).is_ok());
    assert!(cache.append(&bits(0.5, 64), &bits(0.5, 64)).is_err());
}

#[test]
fn test_cache_clear() {
    let mut cache = LayerKVCache::new(256, 256 * 64);
    cache.append(&bits(0.5, 64), &bits(0.5, 64)).unwrap();
    cache.clear();
    assert_eq!(cache.seq_len, 0);
}

#[test]
fn test_memory_usage() {
    let cache = LayerKVCache::new(256, 256 * 64);
    assert!(cache.memory_usage() > 0);
}

#[test]
fn cache_reads_back_what_was_appended() {
    let mut cache = LayerKVCache::new(8, 8);
    cache.append(&[1, 2, 3], &[4, 5, 6]).unwrap();
    cache.append(&[7], &[8]).unwrap();
    assert_eq!(cache.get_keys(0, 4).unwrap(), vec![1, 2, 3, 7]);
    assert_eq!(cache.get_values(3, 4).unwrap(), vec![8]);
    assert_eq!(cache.get_keys(2, 2).unwrap_err().to_string(), "Invalid cache range");
    assert_eq!(cache.get_keys(0, 5).unwrap_err().to_string(), "Invalid cache range");
    assert_eq!(cache.append(&[1, 2, 3, 4, 5], &[1, 2, 3, 4, 5]).unwrap_err().to_string(), "KV cache exceeded maximum size");
    assert_eq!(cache.append(&[1], &[]).unwrap_err().to_string(), "Keys and values size mismatch");
    assert_eq!(cache.seq_len, 4);
    assert_eq!(cache.memory_usage(), 64);
}

#[test]
fn test_kv_cache_manager_creation() {
    let manager = KVCacheManager::new(12, 256, 512);
    assert_eq!(manager.num_layers(), 12);
    assert_eq!(manager.max_seq_len(), 256);
}

#[test]
fn test_add_layer_cache() {
    let mut manager = KVCacheManager::new(12, 256, 512);
    let keys = bits(0.5, 512);
    let values = bits(0.5, 512);
    assert!(manager.add_layer_cache(0, KVPair::new(&keys, &values)).is_ok());
    assert_eq!(manager.seq_len(0).unwrap(), 512);
}

#[test]
fn test_get_cached_keys() {
    let mut manager = KVCacheManager::new(12, 256, 512);
    let keys = bits(0.5, 256);
    let values = bits(0.5, 256);
    assert!(manager.add_layer_cache(0, KVPair::new(&keys, &values)).is_ok());
    assert_eq!(manager.seq_len(0).unwrap(), 256);
    let retrieved = manager.get_cached_keys(0, CacheRange::new(0, 256)).unwrap();
    assert_eq!(retrieved.len(), 256);
}

#[test]
fn test_clear_all() {
    let mut manager = KVCacheManager::new(3, 256, 512);
    let keys = bits(0.5, 256);
    let values = bits(0.5, 256);
    manager.add_layer_cache(0, KVPair::new(&keys, &values)).unwrap();
    manager.add_layer_cache(1, KVPair::new(&keys, &values)).unwrap();
    manager.clear_all();
    assert_eq!(manager.seq_len(0).unwrap(), 0);
    assert_eq!(manager.seq_len(1).unwrap(), 0);
}

#[test]
fn test_clear_single_layer() {
    let mut manager = KVCacheManager::new(3, 256, 512);
    let keys = bits(0.5, 256);
    let values = bits(0.5, 256);
    manager.add_layer_cache(0, KVPair::new(&keys, &values)).unwrap();
    manager.add_layer_cache(1, KVPair::new(&keys, &values)).unwrap();
    manager.clear_layer(0).unwrap();
    assert_eq!(manager.seq_len(0).unwrap(), 0);
    assert_eq!(manager.seq_len(1).unwrap(), 256);
}

#[test]
fn test_total_memory_usage() {
    let mut manager = KVCacheManager::new(3, 256, 512);
    let keys = bits(0.5, 256);
    let values = bits(0.5, 256);
    manager.add_layer_cache(0, KVPair::new(&keys, &values)).unwrap();
    assert!(manager.total_memory_usage() > 0);
}

#[test]
fn test_is_full() {
    let mut manager = KVCacheManager::new(1, 2, 64);
    let keys = bits(0.5, 64);
    let values = bits(0.5, 64);
    manager.add_layer_cache(0, KVPair::new(&keys, &values)).unwrap();
    assert!(manager.is_full(0).unwrap());
}

#[test]
fn test_remaining_capacity() {
    let mut manager = KVCacheManager::new(1, 256, 512);
    let keys = bits(0.5, 256);
    let values = bits(0.5, 256);
    assert_eq!(manager.remaining_capacity(0).unwrap(), 256);
    manager.add_layer_cache(0, KVPair::new(&keys, &values)).unwrap();
    assert_eq!(manager.remaining_capacity(0).unwrap(), 0);
}

#[test]
fn manager_errors_and_sizes() {
    let mut manager = KVCacheManager::new(2, 4, 2);
    assert_eq!(manager.total_memory_usage(), 2 * 8 * 2 * 4);
    assert_eq!(manager.layer_memory_usage(1).unwrap(), 8 * 2 * 4);
    let err = manager.add_layer_cache(2, KVPair::new(&[1], &[1])).unwrap_err();
    assert_eq!(err.to_string(), "Layer ID 2 out of range");
    assert_eq!(manager.seq_len(5).unwrap_err().to_string(), "Cache not found");
    assert!(manager.get_cached_values(2, CacheRange::new(0, 1)).is_err());
    assert!(manager.clear_layer(9).is_err());
    manager.add_layer_cache(1, KVPair::new(&[3, 4], &[5, 6])).unwrap();
    assert_eq!(manager.get_cached_values(1, CacheRange::new(0, 2)).unwrap(), vec![5, 6]);
    assert_eq!(manager.seq_len(0).unwrap(), 0);
    assert!(!manager.is_full(1).unwrap());
}
