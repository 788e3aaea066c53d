use minerva::batch::{
    detokenize_ids, tokenize_text, BatchInferenceEngine, BatchItem, BatchResponse, BatchTokenizer,
    DetokenizeBatchRequest, InferencePrompt, TokenizeBatchRequest,
};
use minerva::batch_async::{AsyncBatchItem, AsyncBatchResponse};
use minerva::batch_measurement::{measure_operation, measure_time, operation_stats};

#[test]
fn test_batch_item_creation() {
    let item = BatchItem::new("id1".to_string(), "data".to_string());
    assert_eq!(item.id, "id1");
    assert_eq!(item.data, "data");
}

#[test]
fn test_batch_response_creation() {
    let response = BatchResponse::new("id1".to_string(), "result".to_string(), 100);
    assert_eq!(response.id, "id1");
    assert_eq!(response.data, "result");
    assert_eq!(response.duration_ms, 100);
}

#[test]
fn test_batch_tokenizer_creation() {
    let tokenizer = BatchTokenizer::new();
    assert_eq!(tokenizer.max_batch_size(), 1000);
    assert_eq!(tokenizer.optimal_batch_size(), 32);
}

#[test]
fn test_batch_tokenizer_encode() {
    let tokenizer = BatchTokenizer::new();
    let requests = vec![
        BatchItem::new("1".to_string(), TokenizeBatchRequest { text: "hello".to_string() }),
        BatchItem::new("2".to_string(), TokenizeBatchRequest { text: "world".to_string() }),
    ];
    let responses = tokenizer.encode_batch(requests);
    assert_eq!(responses.len(), 2);
    assert_eq!(responses[0].id, "1");
    assert_eq!(responses[1].id, "2");
}

#[test]
fn test_batch_tokenizer_decode() {
    let tokenizer = BatchTokenizer::new();
    let requests = vec![BatchItem::new(
        "1".to_string(),
        DetokenizeBatchRequest { tokens: vec![104, 101, 108, 108, 111] },
    )];
    let responses = tokenizer.decode_batch(requests);
    assert_eq!(responses.len(), 1);
}

#[test]
fn test_batch_inference_engine_creation() {
    let engine = BatchInferenceEngine::new();
    assert_eq!(engine.max_batch_size(), 100);
    assert_eq!(engine.optimal_batch_size(), 8);
}

#[test]
fn test_tokenize_batch_request() {
    let req = TokenizeBatchRequest { text: "hello".to_string() };
    assert_eq!(req.text, "hello");
}

#[test]
fn test_batch_tokenizer_default() {
    let _tokenizer = BatchTokenizer::new();
}

#[test]
fn test_batch_inference_engine_default() {
    let _engine = BatchInferenceEngine::new();
}

#[test]
fn tokenize_numbers_each_character() {
    let r = tokenize_text("héllo");
    assert_eq!(r.tokens, vec![0, 1, 2, 3, 4]);
    assert_eq!(r.count, 5);
    assert_eq!(tokenize_text("").count, 0);
}

#[test]
fn detokenize_keeps_scalar_values_only() {
    assert_eq!(detokenize_ids(&vec![104, 101, 108, 108, 111]).text, "hello");
    assert_eq!(detokenize_ids(&vec![104, 0xD800, 105, 0x110000]).text, "hi");
}

#[test]
fn encode_batch_keeps_ids_and_tokens_in_order() {
    let tokenizer = BatchTokenizer::new();
    let responses = tokenizer.encode_batch(vec![
        BatchItem::new("a".to_string(), TokenizeBatchRequest { text: "xyz".to_string() }),
        BatchItem::new("b".to_string(), TokenizeBatchRequest { text: "".to_string() }),
    ]);
    assert_eq!(responses[0].id, "a");
    assert_eq!(responses[0].data.tokens, vec![0, 1, 2]);
    assert_eq!(responses[1].data.count, 0);
    let decoded = tokenizer.decode_batch(vec![BatchItem::new(
        "c".to_string(),
        DetokenizeBatchRequest { tokens: vec![79, 75] },
    )]);
    assert_eq!(decoded[0].id, "c");
    assert_eq!(decoded[0].data.text, "OK");
}

#[test]
fn test_async_batch_item_creation() {
    let item = AsyncBatchItem::new("id1".to_string(), "data".to_string());
    assert_eq!(item.get_id(), "id1");
    assert_eq!(item.get_data(), "data");
}

#[test]
fn test_async_batch_response_creation() {
    let response = AsyncBatchResponse::new("id1".to_string(), "result".to_string(), 100);
    assert_eq!(response.get_id(), "id1");
    assert_eq!(response.get_data(), "result");
    assert_eq!(response.get_duration_ms(), 100);
}

#[test]
fn operation_stats_sum_mean_min_max() {
    let stats = operation_stats("op", 4, &vec![10, 30, 20, 40]);
    assert_eq!(stats.name, "op");
    assert_eq!(stats.iterations, 4);
    assert_eq!(stats.total_us, 100);
    assert_eq!(stats.avg_us, 25);
    assert_eq!(stats.min_us, 10);
    assert_eq!(stats.max_us, 40);
}

#[test]
fn operation_stats_of_one_run() {
    let stats = operation_stats("single", 1, &vec![7]);
    assert_eq!(stats.total_us, 7);
    assert_eq!(stats.avg_us, 7);
    assert_eq!(stats.min_us, 7);
    assert_eq!(stats.max_us, 7);
}

#[test]
fn measure_time_returns_the_result() {
    let (value, _micros) = measure_time(|| 6 * 7);
    assert_eq!(value, 42);
}

#[test]
fn measure_operation_counts_runs() {
    let stats = measure_operation("noop", 3, || {});
    assert_eq!(stats.name, "noop");
    assert_eq!(stats.iterations, 3);
    assert!(stats.min_us <= stats.max_us);
    assert_eq!(stats.avg_us, stats.total_us / 3);
}

#[test]
fn infer_batch_quotes_prompts_in_order() {
    let engine = BatchInferenceEngine::new();
    let items = vec![
        BatchItem::new("a".to_string(), InferencePrompt { prompt: "hello".to_string(), tokens_generated: 7 }),
        BatchItem::new(
            "b".to_string(),
            InferencePrompt { prompt: "abcdefghijklmnopqrstuvwxyz".to_string(), tokens_generated: 0 },
        ),
    ];
    let out = engine.infer_batch(items);
    assert_eq!(out.len(), 2);
    assert_eq!(out[0].id, "a");
    assert_eq!(out[0].data.text, "Response to: hello");
    assert_eq!(out[0].data.tokens_generated, 7);
    assert_eq!(out[1].id, "b");
    assert_eq!(out[1].data.text, "Response to: abcdefghijklmnopqrst");
    assert_eq!(out[1].data.tokens_generated, 0);
}
