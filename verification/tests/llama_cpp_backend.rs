use minerva::error::MinervaError;
use minerva::llama_cpp_backend::{can_handle, detect_format, LlamaCppBackend};
use minerva::llama_tokenizer::LLaMATokenizer;

#[test]
fn test_detect_format_by_extension() {
    assert_eq!(detect_format("models/llama.gguf"), "gguf");
    assert_eq!(detect_format("models/LLAMA.GGUF"), "gguf");
    assert_eq!(detect_format("m.safetensors"), "safetensors");
    assert_eq!(detect_format("pytorch_model.bin"), "huggingface");
    assert_eq!(detect_format("w.pt"), "pytorch");
    assert_eq!(detect_format("graph.pb"), "tensorflow");
    assert_eq!(detect_format("notes.txt"), "unknown");
    assert_eq!(detect_format("no_extension"), "unknown");
    assert!(can_handle("a.gguf"));
    assert!(!can_handle("a.bin"));
}

#[test]
fn test_check_model_file() {
    match LlamaCppBackend::check_model_file("missing.gguf", false) {
        Err(MinervaError::ModelNotFound(m)) => assert_eq!(m, "Model file not found: missing.gguf"),
        _ => panic!("expected ModelNotFound"),
    }
    match LlamaCppBackend::check_model_file("m.safetensors", true) {
        Err(MinervaError::InvalidRequest(m)) => assert_eq!(
            m,
            "llama.cpp backend only supports GGUF format, got: safetensors (HuggingFace format detected - use pure Rust backend or convert to GGUF)"
        ),
        _ => panic!("expected InvalidRequest"),
    }
    match LlamaCppBackend::check_model_file("m.pt", true) {
        Err(MinervaError::InvalidRequest(m)) => assert_eq!(
            m,
            "llama.cpp backend only supports GGUF format, got: pytorch (PyTorch/TensorFlow format detected - convert to GGUF first)"
        ),
        _ => panic!("expected InvalidRequest"),
    }
    match LlamaCppBackend::check_model_file("m.txt", true) {
        Err(MinervaError::InvalidRequest(m)) => assert_eq!(
            m,
            "llama.cpp backend only supports GGUF format, got: unknown (unsupported format - convert to GGUF)"
        ),
        _ => panic!("expected InvalidRequest"),
    }
    assert!(LlamaCppBackend::check_model_file("m.gguf", true).is_ok());
}

#[test]
fn test_backend_state() {
    let mut backend = LlamaCppBackend::new();
    assert!(!backend.is_loaded());
    assert_eq!(backend.context_size(), 0);
    assert!(backend.thread_count() >= 1);
    match backend.check_generate() {
        Err(MinervaError::InferenceError(m)) => assert_eq!(m, "Model not loaded"),
        _ => panic!("expected an inference error"),
    }
    backend.record_loaded(2048);
    assert!(backend.is_loaded());
    assert_eq!(backend.context_size(), 2048);
    assert!(backend.check_generate().is_ok());
    backend.unload_model();
    assert!(!backend.is_loaded());
}

#[test]
fn test_tokenize_without_tokenizer_numbers_words() {
    let backend = LlamaCppBackend::default();
    assert_eq!(backend.tokenize("  the quick\tbrown  fox ").unwrap(), vec![0, 1, 2, 3]);
    assert_eq!(backend.tokenize("").unwrap(), Vec::<i32>::new());
    assert_eq!(backend.detokenize(&[5, 6, 7]).unwrap(), "[3 tokens]");
}

#[test]
fn test_tokenize_with_tokenizer() {
    let mut backend = LlamaCppBackend::new();
    backend.set_tokenizer(LlamaCppBackend::create_fallback_tokenizer());
    let ids = backend.tokenize("the").unwrap();
    assert_eq!(ids, vec![3]);
    assert_eq!(backend.detokenize(&[3, 5]).unwrap(), "theand");
    match backend.detokenize(&[42]) {
        Err(MinervaError::InferenceError(m)) => assert_eq!(m, "Unknown token ID: 42"),
        _ => panic!("expected an inference error"),
    }
}

#[test]
fn test_fallback_tokenizer_vocab() {
    let t = LlamaCppBackend::create_fallback_tokenizer();
    assert_eq!(t.vocab_size(), 10);
    assert_eq!(t.get_token(2), Some("</s>"));
    let _ = LLaMATokenizer::new(vec!["x".to_string()]).unwrap();
}
