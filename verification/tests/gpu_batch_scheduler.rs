use minerva::gpu_batch_scheduler::{
    concat_batch_data, GPUBatchItem, GPUBatchRequest, GPUBatchScheduler, GPUComputePipeline, GPUMemoryPool,
};
use minerva::time::{Duration, Instant};

#[test]
fn test_gpu_memory_allocation() {
    let mut pool = GPUMemoryPool::new(1024);
    let alloc = pool.allocate(256);
    assert!(alloc.is_some());
    assert_eq!(pool.memory_usage().0, 256);
}

#[test]
fn test_gpu_memory_insufficient() {
    let mut pool = GPUMemoryPool::new(256);
    let alloc = pool.allocate(512);
    assert!(alloc.is_none());
}

#[test]
fn test_gpu_memory_deallocation() {
    let mut pool = GPUMemoryPool::new(1024);
    let alloc = pool.allocate(256).unwrap();
    pool.deallocate(&alloc);
    assert_eq!(pool.memory_usage().0, 0);
}

#[test]
fn test_gpu_batch_item_creation() {
    let item = GPUBatchItem::new("id1".to_string(), vec![1, 2, 3], 256);
    assert_eq!(item.id, "id1");
    assert_eq!(item.required_memory, 256);
}

#[test]
fn test_gpu_batch_request_memory() {
    let items = vec![
        GPUBatchItem::new("id1".to_string(), vec![1, 2], 256),
        GPUBatchItem::new("id2".to_string(), vec![3, 4], 512),
    ];
    let request = GPUBatchRequest::new(items, 1);
    assert_eq!(request.total_memory_required(), 768);
}

#[test]
fn test_gpu_scheduler_creation() {
    let pipeline = GPUComputePipeline::new("tokenizer".to_string(), (8, 8, 1));
    let scheduler = GPUBatchScheduler::new(8192, pipeline);
    assert_eq!(scheduler.get_memory_usage().1, 8192);
    assert_eq!(scheduler.get_queue_size(), 0);
}

#[test]
fn test_gpu_scheduler_schedule_batch() {
    let pipeline = GPUComputePipeline::new("tokenizer".to_string(), (8, 8, 1));
    let mut scheduler = GPUBatchScheduler::new(8192, pipeline);
    let items = vec![GPUBatchItem::new("id1".to_string(), vec![1, 2], 256)];
    let request = GPUBatchRequest::new(items, 1);
    let result = scheduler.schedule_batch(request);
    assert!(result.is_ok());
    assert_eq!(scheduler.get_queue_size(), 1);
}

#[test]
fn test_gpu_scheduler_insufficient_memory() {
    let pipeline = GPUComputePipeline::new("tokenizer".to_string(), (8, 8, 1));
    let mut scheduler = GPUBatchScheduler::new(256, pipeline);
    let items = vec![GPUBatchItem::new("id1".to_string(), vec![0; 512], 512)];
    let request = GPUBatchRequest::new(items, 1);
    let result = scheduler.schedule_batch(request);
    assert!(result.is_err());
}

#[test]
fn test_gpu_compute_pipeline() {
    let pipeline = GPUComputePipeline::new("tokenizer".to_string(), (256, 1, 1));
    let recommended_threads = pipeline.recommended_threads(512);
    assert!(recommended_threads >= 512);
}

#[test]
fn recommended_threads_round_up_to_whole_groups() {
    let pipeline = GPUComputePipeline::new("k".to_string(), (8, 8, 1));
    assert_eq!(pipeline.recommended_threads(65), 128);
    assert_eq!(pipeline.recommended_threads(64), 64);
    assert_eq!(pipeline.recommended_threads(0), 0);
}

#[test]
fn test_gpu_scheduler_priority_queue() {
    let pipeline = GPUComputePipeline::new("tokenizer".to_string(), (8, 8, 1));
    let mut scheduler = GPUBatchScheduler::new(8192, pipeline);
    let items1 = vec![GPUBatchItem::new("id1".to_string(), vec![1], 100)];
    let request1 = GPUBatchRequest::new(items1, 1);
    let items2 = vec![GPUBatchItem::new("id2".to_string(), vec![2], 100)];
    let request2 = GPUBatchRequest::new(items2, 10);
    let _ = scheduler.schedule_batch(request1);
    let _ = scheduler.schedule_batch(request2);
    if let Some(batch) = scheduler.get_next_batch() {
        assert_eq!(batch.items[0].id, "id2");
    }
}

fn stamped(id: &str, priority: u32, secs: u64) -> GPUBatchRequest<Vec<u8>> {
    GPUBatchRequest::with_timestamp(
        vec![GPUBatchItem::new(id.to_string(), vec![1], 10)],
        priority,
        Instant::from_epoch(Duration::from_secs(secs)),
    )
}

#[test]
fn next_batch_goes_by_priority_then_age_and_leaves_the_rest_ordered() {
    let pipeline = GPUComputePipeline::new("k".to_string(), (1, 1, 1));
    let mut scheduler = GPUBatchScheduler::new(1000, pipeline);
    scheduler.schedule_batch(stamped("late-low", 1, 30)).unwrap();
    scheduler.schedule_batch(stamped("early-low", 1, 10)).unwrap();
    scheduler.schedule_batch(stamped("high", 5, 20)).unwrap();
    scheduler.schedule_batch(stamped("tie-a", 1, 10)).unwrap();
    let order: Vec<String> = std::iter::from_fn(|| scheduler.get_next_batch())
        .map(|b| b.items[0].id.clone())
        .collect();
    assert_eq!(order, vec!["high", "early-low", "tie-a", "late-low"]);
    assert!(scheduler.get_next_batch().is_none());
}

#[test]
fn scheduler_queue_holds_at_most_one_hundred() {
    let pipeline = GPUComputePipeline::new("k".to_string(), (1, 1, 1));
    let mut scheduler = GPUBatchScheduler::new(usize::MAX, pipeline);
    for i in 0..100 {
        scheduler.schedule_batch(stamped("x", 0, i)).unwrap();
    }
    assert_eq!(scheduler.schedule_batch(stamped("y", 0, 0)).unwrap_err(), "Queue is full");
    assert_eq!(scheduler.get_queue_size(), 100);
}

#[test]
fn scheduler_memory_check_counts_memory_in_use() {
    let pipeline = GPUComputePipeline::new("k".to_string(), (1, 1, 1));
    let mut scheduler = GPUBatchScheduler::new(100, pipeline);
    let alloc = scheduler.allocate_memory(95).unwrap();
    assert_eq!(scheduler.schedule_batch(stamped("a", 0, 0)).unwrap_err(), "Insufficient GPU memory");
    scheduler.deallocate_memory(&alloc);
    assert_eq!(scheduler.schedule_batch(stamped("a", 0, 0)).unwrap(), "Batch scheduled");
    assert_eq!(scheduler.get_memory_usage(), (0, 100));
}

#[test]
fn batch_output_concatenates_item_data() {
    let items = vec![
        GPUBatchItem::new("a".to_string(), vec![1, 2], 1),
        GPUBatchItem::new("b".to_string(), vec![], 1),
        GPUBatchItem::new("c".to_string(), vec![3], 1),
    ];
    let batch = GPUBatchRequest::new(items, 0);
    assert_eq!(concat_batch_data(&batch), vec![1, 2, 3]);
}
