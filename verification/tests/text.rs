use minerva::batch::{batch_reply_text, distinct_count, response_position};
use minerva::batch_async::tokens_label;
use minerva::error::{render_decimal, text_with_number};

#[test]
fn test_render_decimal_values() {
    assert_eq!(render_decimal(0), "0");
    assert_eq!(render_decimal(7), "7");
    assert_eq!(render_decimal(10), "10");
    assert_eq!(render_decimal(4096), "4096");
    assert_eq!(render_decimal(u128::MAX), u128::MAX.to_string());
}

#[test]
fn test_text_with_number() {
    assert_eq!(text_with_number("Position ", 42, " out of bounds"), "Position 42 out of bounds");
}

#[test]
fn test_tokens_label() {
    assert_eq!(tokens_label(&vec![104, 101, 108]), "[tokens: 104,101,108]");
    assert_eq!(tokens_label(&vec![7]), "[tokens: 7]");
    assert_eq!(tokens_label(&vec![]), "[tokens: ]");
}

#[test]
fn test_response_position_latest_wins() {
    let ids = vec!["a".to_string(), "b".to_string(), "a".to_string()];
    assert_eq!(response_position(&ids, "a"), Some(2));
    assert_eq!(response_position(&ids, "b"), Some(1));
    assert_eq!(response_position(&ids, "c"), None);
    assert_eq!(response_position(&vec![], "a"), None);
}

#[test]
fn test_batch_reply_text() {
    assert_eq!(batch_reply_text("hi"), "Response to: hi");
    assert_eq!(
        batch_reply_text("The quick brown fox jumps over the lazy dog"),
        "Response to: The quick brown fox "
    );
}

#[test]
fn test_distinct_count_counts_ids_once() {
    let ids = vec!["a".to_string(), "b".to_string(), "a".to_string(), "c".to_string(), "b".to_string()];
    assert_eq!(distinct_count(&ids), 3);
    assert_eq!(distinct_count(&vec![]), 0);
}
