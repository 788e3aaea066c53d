use minerva::batch_parallel::{ParallelBatchInferenceEngine, ParallelBatchItem, ParallelBatchResponse, ParallelBatchTokenizer};

#[test]
fn test_parallel_batch_item() {
    let item = ParallelBatchItem::new("id1".to_string(), "data".to_string());
    assert_eq!(item.get_id(), "id1");
    assert_eq!(item.get_data(), &"data".to_string());
}

#[test]
fn test_parallel_batch_response() {
    let response = ParallelBatchResponse::new("id1".to_string(), "result".to_string(), 100);
    assert_eq!(response.get_id(), "id1");
    assert_eq!(response.get_duration_ms(), 100);
}

#[test]
fn test_parallel_with_custom_threads() {
    let tokenizer = ParallelBatchTokenizer::with_threads(4);
    assert_eq!(tokenizer.num_threads(), 4);

    let engine = ParallelBatchInferenceEngine::with_threads(4);
    assert_eq!(engine.num_threads(), 4);
}

#[test]
fn test_parallel_engine_sizes() {
    let engine = ParallelBatchInferenceEngine::new();
    assert!(engine.optimal_batch_size() >= 8);
    assert_eq!(engine.max_batch_size(), 100);
    assert_eq!(ParallelBatchInferenceEngine::with_threads(2).optimal_batch_size(), 8);
    assert_eq!(ParallelBatchInferenceEngine::with_threads(16).optimal_batch_size(), 32);
    assert!(ParallelBatchTokenizer::default().num_threads() >= 1);
}
