use minerva::compute::{check_element_mul, check_rmsnorm_weight, check_silu_gate, AttentionParams, GPUComputeConfig, GPUComputeEngine, GPUInferenceConfig, GPULlamaInference, Projection};
use minerva::embedding::{embed_tokens, EmbeddingConfig};
use minerva::error::MinervaError;
use minerva::layers::{attention_blocks, check_layer_norm, check_rmsnorm, Activation, AttentionConfig, Decoder, FeedForward, FeedforwardConfig};

fn message<T>(r: Result<T, MinervaError>) -> String {
    match r {
        Err(MinervaError::InferenceError(m)) => m,
        _ => panic!("expected an inference error"),
    }
}

#[test]
fn test_embed_tokens_copies_rows() {
    let config = EmbeddingConfig { vocab_size: 3, hidden_size: 2 };
    let table = vec![10, 11, 20, 21, 30, 31];
    let out = embed_tokens(&[2, 0, 2], &table, &config).unwrap();
    assert_eq!(out, vec![30, 31, 10, 11, 30, 31]);
    assert_eq!(embed_tokens(&[], &table, &config).unwrap(), Vec::<u32>::new());
}

#[test]
fn test_embed_tokens_errors() {
    let config = EmbeddingConfig { vocab_size: 3, hidden_size: 2 };
    assert_eq!(
        message(embed_tokens(&[0], &[1, 2, 3], &config)),
        "Embedding matrix shape mismatch: expected 6, got 3"
    );
    let table = vec![0u32; 6];
    assert_eq!(message(embed_tokens(&[1, 5, 7], &table, &config)), "Token ID 5 out of vocabulary size 3");
}

#[test]
fn test_attention_input_check() {
    let config = AttentionConfig { seq_len: 2, head_size: 4, causal: true };
    assert!(config.check_input(8, 8, 8).is_ok());
    assert_eq!(message(config.check_input(7, 8, 8)), "Query shape mismatch: expected 8, got 7");
    assert_eq!(message(config.check_input(8, 8, 9)), "Key/value shape mismatch");
}

#[test]
fn test_feedforward_and_norm_checks() {
    let ff = FeedforwardConfig { seq_len: 2, hidden_size: 3, intermediate_size: 4, activation: Activation::ReLU };
    assert!(ff.check_shapes(6, 12, 12).is_ok());
    assert_eq!(message(ff.check_shapes(5, 12, 12)), "Input shape mismatch");
    assert_eq!(message(ff.check_shapes(6, 11, 12)), "Up weight shape mismatch");
    assert_eq!(message(ff.check_shapes(6, 12, 13)), "Down weight shape mismatch");
    assert!(check_layer_norm(6, 2, 3, None).is_ok());
    assert!(check_layer_norm(6, 2, 3, Some(3)).is_ok());
    assert_eq!(message(check_layer_norm(5, 2, 3, None)), "Input size mismatch");
    assert_eq!(message(check_layer_norm(6, 2, 3, Some(2))), "Scale size mismatch");
    assert!(check_rmsnorm(4, 4).is_ok());
    assert_eq!(message(check_rmsnorm(4, 3)), "Input size 4 != weight size 3");
}

#[test]
fn test_compute_engine_checks() {
    let engine = GPUComputeEngine::simulated().unwrap();
    let params = AttentionParams { heads: 2, head_dim: 4 };
    assert_eq!(engine.attention_seq_len(16, params).unwrap(), 2);
    assert_eq!(message(engine.attention_seq_len(15, params)), "Invalid attention input shape");
    let off = GPUComputeEngine::new(GPUComputeConfig { enabled: false, ..Default::default() }).unwrap();
    assert_eq!(off.attention_seq_len(15, params).unwrap(), 1);
    assert!(check_element_mul(3, 3).is_ok());
    assert_eq!(message(check_element_mul(3, 2)), "Element multiplication requires same-sized inputs");
    assert!(check_rmsnorm_weight(3, 3).is_ok());
    assert_eq!(message(check_rmsnorm_weight(3, 4)), "RMSNorm weight mismatch");
    assert!(check_silu_gate(3, 3).is_ok());
    assert_eq!(message(check_silu_gate(3, 4)), "SiLU gate dimension mismatch");
}

#[test]
fn test_block_checks() {
    let inference = GPULlamaInference::new(GPUInferenceConfig {
        gpu_enabled: true,
        use_simulation: true,
        num_heads: 2,
        head_dim: 4,
        hidden_dim: 8,
        intermediate_dim: 16,
    })
    .unwrap();
    assert!(inference.check_block_input(8).is_ok());
    assert_eq!(message(inference.check_block_input(256)), "Input dimension mismatch: expected 8, got 256");
    assert!(inference.check_projection(Projection::Attention, 64).is_ok());
    assert!(inference.check_projection(Projection::Output, 64).is_ok());
    assert!(inference.check_projection(Projection::FfnUp, 128).is_ok());
    assert!(inference.check_projection(Projection::FfnDown, 128).is_ok());
    assert_eq!(
        message(inference.check_projection(Projection::Attention, 63)),
        "Weight dimension mismatch for attention projection"
    );
    assert_eq!(
        message(inference.check_projection(Projection::Output, 65)),
        "Weight dimension mismatch for output projection"
    );
    assert_eq!(
        message(inference.check_projection(Projection::FfnUp, 64)),
        "Weight dimension mismatch for FFN up projection"
    );
    assert_eq!(
        message(inference.check_projection(Projection::FfnDown, 0)),
        "Weight dimension mismatch for FFN down projection"
    );
}

#[test]
fn test_attention_blocks() {
    assert_eq!(attention_blocks(10, 4), vec![(0, 4), (4, 8), (8, 10)]);
    assert_eq!(attention_blocks(8, 4), vec![(0, 4), (4, 8)]);
    assert_eq!(attention_blocks(0, 3), Vec::<(usize, usize)>::new());
    assert_eq!(attention_blocks(2, 5), vec![(0, 2)]);
}

#[test]
fn test_decoder_and_feedforward_checks() {
    let d = Decoder::new(5, 8);
    assert!(d.check_logits(5).is_ok());
    assert_eq!(message(d.check_logits(4)), "Logits size 4 != vocab size 5");
    assert!(d.check_generation(3, 5).is_ok());
    assert_eq!(message(d.check_generation(0, 1)), "Initial tokens cannot be empty");
    assert_eq!(message(d.check_generation(4, 5)), "Sequence too long for max_seq_len");
    let ff = FeedForward::new(2, 3);
    assert!(ff.check_forward(2, 6, 6).is_ok());
    assert_eq!(message(ff.check_forward(3, 6, 6)), "Input size 3 != hidden size 2");
    assert_eq!(message(ff.check_forward(2, 5, 6)), "Up weight dimension mismatch");
    assert_eq!(message(ff.check_forward(2, 6, 5)), "Down weight dimension mismatch");
}
