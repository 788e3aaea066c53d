use minerva::layers::{create_causal_mask, Decoder, FeedForward, MultiHeadAttention};

#[test]
fn causal_mask_lets_positions_see_the_past_only() {
    let mask = create_causal_mask(3);
    assert_eq!(mask, vec![true, false, false, true, true, false, true, true, true]);
    assert!(create_causal_mask(0).is_empty());
}

#[test]
fn attention_head_split_checks() {
    let attn = MultiHeadAttention::new(4, 64).unwrap();
    assert_eq!(attn.num_heads(), 4);
    assert_eq!(attn.head_dim(), 16);
    assert_eq!(
        MultiHeadAttention::new(3, 64).unwrap_err().to_string(),
        "Total dimension must be divisible by num_heads"
    );
    assert_eq!(
        MultiHeadAttention::new(3, 9).unwrap_err().to_string(),
        "num_heads * head_dim must be even for RoPE"
    );
    assert!(MultiHeadAttention::new(0, 8).is_err());
}

#[test]
fn decoder_and_feedforward_keep_their_sizes() {
    let decoder = Decoder::new(32000, 2048);
    assert_eq!(decoder.vocab_size(), 32000);
    assert_eq!(decoder.max_seq_len(), 2048);
    let ff = FeedForward::new(512, 2048);
    assert_eq!(ff.hidden_size, 512);
    assert_eq!(ff.intermediate_size, 2048);
}
