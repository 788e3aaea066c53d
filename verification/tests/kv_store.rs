use minerva::error::MinervaError;
use minerva::kv_cache::{KVCache, KVCacheConfig, KVStoreParams};

fn config() -> KVCacheConfig {
    KVCacheConfig { num_layers: 2, max_seq_len: 3, num_heads: 2, head_dim: 2 }
}

fn bits(xs: &[f32]) -> Vec<u32> {
    xs.iter().map(|x| x.to_bits()).collect()
}

#[test]
fn test_new_cache_reads_zero() {
    let cache = KVCache::new(config());
    let (k, v) = cache.get(1, 2).unwrap();
    assert_eq!(k, vec![0u32; 4]);
    assert_eq!(v, vec![0u32; 4]);
}

#[test]
fn test_store_then_get_round_trip() {
    let mut cache = KVCache::new(config());
    let k = bits(&[1.0, 2.0, 3.0, 4.0]);
    let v = bits(&[5.0, 6.0, 7.0, 8.0]);
    let params = KVStoreParams::builder(k.clone(), v.clone()).layer(1).pos(2).build();
    assert!(cache.store(params).is_ok());
    let (gk, gv) = cache.get(1, 2).unwrap();
    assert_eq!(gk, k);
    assert_eq!(gv, v);
    // every other position keeps its zeros
    let (ok, ov) = cache.get(1, 1).unwrap();
    assert_eq!(ok, vec![0u32; 4]);
    assert_eq!(ov, vec![0u32; 4]);
    let (zk, _) = cache.get(0, 2).unwrap();
    assert_eq!(zk, vec![0u32; 4]);
}

#[test]
fn test_store_partial_token_copies_whole_heads_only() {
    let mut cache = KVCache::new(config());
    // three elements: one whole head of two, the third is dropped
    let params = KVStoreParams::builder(vec![9, 8, 7], vec![6, 5, 4, 3]).layer(0).pos(1).build();
    assert!(cache.store(params).is_ok());
    let (k, v) = cache.get(0, 1).unwrap();
    assert_eq!(k, vec![9, 8, 0, 0]);
    assert_eq!(v, vec![6, 5, 0, 0]);
}

#[test]
fn test_store_layer_out_of_bounds() {
    let mut cache = KVCache::new(config());
    let params = KVStoreParams::builder(vec![1, 2, 3, 4], vec![1, 2, 3, 4]).layer(2).pos(0).build();
    match cache.store(params) {
        Err(MinervaError::InferenceError(m)) => assert_eq!(m, "Layer index 2 out of bounds"),
        _ => panic!("expected an inference error"),
    }
}

#[test]
fn test_get_position_out_of_bounds() {
    let cache = KVCache::new(config());
    match cache.get(0, 3) {
        Err(MinervaError::InferenceError(m)) => assert_eq!(m, "Position 3 out of bounds"),
        _ => panic!("expected an inference error"),
    }
    match cache.get(7, 0) {
        Err(MinervaError::InferenceError(m)) => assert_eq!(m, "Layer index 7 out of bounds"),
        _ => panic!("expected an inference error"),
    }
}

#[test]
fn test_clear_resets_everything() {
    let mut cache = KVCache::new(config());
    let params = KVStoreParams::builder(vec![1, 2, 3, 4], vec![5, 6, 7, 8]).layer(1).pos(0).build();
    assert!(cache.store(params).is_ok());
    cache.clear();
    let (k, v) = cache.get(1, 0).unwrap();
    assert_eq!(k, vec![0u32; 4]);
    assert_eq!(v, vec![0u32; 4]);
}
