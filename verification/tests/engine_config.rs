use minerva::engine_config::InferenceEngineConfig;
use minerva::error::MinervaError;
use minerva::layers::Activation;
use minerva::time::current_timestamp;

fn message(r: Result<(), MinervaError>) -> String {
    match r {
        Err(MinervaError::InferenceError(m)) => m,
        _ => panic!("expected an inference error"),
    }
}

#[test]
fn test_engine_presets() {
    let l = InferenceEngineConfig::llama(32000, 4096, 32);
    assert_eq!(l.num_layers, 32);
    assert_eq!(l.intermediate_size, 10922);
    assert_eq!(l.activation, Activation::SiLU);
    assert!(l.causal);
    assert_eq!(f32::from_bits(l.eps), 1e-6);
    assert_eq!(l.max_seq_len, 2048);
    let b = InferenceEngineConfig::bert(30522, 768, 12);
    assert_eq!((b.num_layers, b.intermediate_size, b.max_seq_len), (12, 3072, 512));
    assert_eq!(b.activation, Activation::GELU);
    assert!(!b.causal);
    assert_eq!(f32::from_bits(b.eps), 1e-12);
    let t = InferenceEngineConfig::tiny(100);
    assert_eq!((t.vocab_size, t.hidden_size, t.num_heads, t.num_layers, t.intermediate_size), (100, 64, 2, 2, 128));
    assert_eq!(t.activation, Activation::ReLU);
    assert_eq!(t.max_seq_len, 128);
}

#[test]
fn test_engine_weight_checks() {
    let c = InferenceEngineConfig::tiny(10);
    assert!(c.check_weight_shapes(640, 2, 64, 640).is_ok());
    assert_eq!(message(c.check_weight_shapes(5, 2, 64, 640)), "Embedding shape mismatch: expected 640, got 5");
    assert_eq!(message(c.check_weight_shapes(640, 3, 64, 640)), "Number of layers mismatch: expected 2, got 3");
    assert_eq!(message(c.check_weight_shapes(640, 2, 63, 640)), "Final norm scale shape mismatch");
    assert_eq!(message(c.check_weight_shapes(640, 2, 64, 1)), "Output projection shape mismatch");
}

#[test]
fn test_engine_sequence_checks() {
    let c = InferenceEngineConfig::tiny(10);
    assert!(c.check_sequence(1).is_ok());
    assert!(c.check_sequence(128).is_ok());
    assert_eq!(message(c.check_sequence(0)), "Empty token sequence");
    assert_eq!(message(c.check_sequence(129)), "Sequence length 129 exceeds max 128");
}

#[test]
fn test_current_timestamp_is_after_2020() {
    assert!(current_timestamp() > 1_577_836_800);
}
