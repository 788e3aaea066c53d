use minerva::error::MinervaError;
use minerva::gpu_kv_cache::{KVCache, KVCacheOptimized};
use ndarray::Array2;

#[test]
fn inference_test_kv_cache_creation() {
    let cache = KVCacheOptimized::<Array2<f32>>::new(24, 8, 360, 4096);
    assert_eq!(cache.num_layers, 24);
    assert_eq!(cache.num_kv_heads, 8);
    assert_eq!(cache.head_dim, 360);
    assert_eq!(cache.seq_len, 0);
}

#[test]
fn inference_test_kv_cache_append() {
    let mut cache = KVCacheOptimized::new(24, 8, 360, 4096);
    let k_new: Array2<f32> = Array2::zeros((8, 360));
    let v_new: Array2<f32> = Array2::zeros((8, 360));

    assert!(cache.append(0, k_new.clone(), v_new.clone()).is_ok());
    assert!(cache.get(0).is_ok());
}

#[test]
fn test_kv_cache_bounds() {
    let mut cache = KVCacheOptimized::new(24, 8, 360, 2);
    let k: Array2<f32> = Array2::zeros((8, 360));
    let v: Array2<f32> = Array2::zeros((8, 360));

    assert!(cache.append(0, k.clone(), v.clone()).is_ok());
    assert!(cache.append(0, k.clone(), v.clone()).is_ok());
    assert!(cache.append(0, k.clone(), v.clone()).is_err());
}

#[test]
fn kv_cache_test_kv_cache_creation() {
    let cache = KVCache::<Array2<f32>>::new();
    assert!(cache.is_empty());
    assert_eq!(cache.len(), 0);
}

#[test]
fn kv_cache_test_kv_cache_append() {
    let mut cache = KVCache::new();
    let k1: Array2<f32> = Array2::zeros((2, 4));
    let v1: Array2<f32> = Array2::zeros((2, 4));

    let updated = cache.append(k1, v1);
    assert!(updated);
    assert_eq!(cache.len(), 1);
    assert!(!cache.is_empty());
}

#[test]
fn test_kv_cache_reset() {
    let mut cache = KVCache::new();
    let k1: Array2<f32> = Array2::zeros((2, 4));
    let v1: Array2<f32> = Array2::zeros((2, 4));
    cache.append(k1, v1);

    cache.reset();
    assert!(cache.is_empty());
    assert_eq!(cache.len(), 0);
}

#[test]
fn test_optimized_cache_errors_and_reads() {
    let mut cache = KVCacheOptimized::new(2, 1, 1, 1);
    assert!(cache.append(0, 10u32, 20u32).is_ok());
    match cache.append(0, 11, 21) {
        Err(MinervaError::ContextLimitExceeded { max, required }) => {
            assert_eq!(max, 1);
            assert_eq!(required, 2);
        }
        _ => panic!("expected the context limit"),
    }
    match cache.append(5, 1, 1) {
        Err(MinervaError::InferenceError(m)) => assert_eq!(m, "Layer index out of bounds"),
        _ => panic!("expected an inference error"),
    }
    let (k, v) = cache.get(0).unwrap();
    assert_eq!((k, v), (vec![&10], vec![&20]));
    assert!(cache.get(2).is_err());
    cache.next_token();
    assert_eq!(cache.seq_len, 1);
    cache.reset();
    assert_eq!(cache.seq_len, 0);
    assert_eq!(cache.get(0).unwrap().0.len(), 0);
}
