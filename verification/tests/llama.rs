use minerva::llama_engine::{reply_for, LlamaEngine};
use minerva::llama_tokenizer::{LLaMATokenizer, SpecialTokens};

fn create_test_tokenizer() -> LLaMATokenizer {
    let vocab = vec![
        "<unk>".to_string(),
        "<s>".to_string(),
        "</s>".to_string(),
        "hello".to_string(),
        "world".to_string(),
        " ".to_string(),
        "!".to_string(),
        "a".to_string(),
        "b".to_string(),
        "c".to_string(),
    ];
    LLaMATokenizer::new(vocab).unwrap()
}

#[test]
fn test_tokenizer_creation() {
    let tokenizer = create_test_tokenizer();
    assert_eq!(tokenizer.vocab_size(), 10);
}

#[test]
fn test_get_token() {
    let tokenizer = create_test_tokenizer();
    assert_eq!(tokenizer.get_token(1), Some("<s>"));
    assert_eq!(tokenizer.get_token(3), Some("hello"));
    assert_eq!(tokenizer.get_token(100), None);
}

#[test]
fn test_get_id() {
    let tokenizer = create_test_tokenizer();
    assert_eq!(tokenizer.get_id("<s>"), Some(1));
    assert_eq!(tokenizer.get_id("hello"), Some(3));
    assert_eq!(tokenizer.get_id("nonexistent"), None);
}

#[test]
fn test_encode_simple() {
    let tokenizer = create_test_tokenizer();
    let tokens = tokenizer.encode("hello").unwrap();
    assert!(!tokens.is_empty());
}

#[test]
fn test_encode_batch() {
    let tokenizer = create_test_tokenizer();
    let texts = vec!["hello", "world"];
    let results = tokenizer.encode_batch(&texts).unwrap();
    assert_eq!(results.len(), 2);
}

#[test]
fn test_special_tokens() {
    let special = SpecialTokens::llama();
    assert_eq!(special.bos, 1);
    assert_eq!(special.eos, 2);
    assert_eq!(special.unk, 0);
}

#[test]
fn test_empty_text_encode() {
    let tokenizer = create_test_tokenizer();
    let tokens = tokenizer.encode("").unwrap();
    assert!(tokens.is_empty());
}

#[test]
fn test_tokenizer_empty_vocab_error() {
    let result = LLaMATokenizer::new(vec![]);
    assert!(result.is_err());
}

#[test]
fn test_decode_simple() {
    let tokenizer = create_test_tokenizer();
    let text = tokenizer.decode(&[1, 3]).unwrap();
    assert!(!text.is_empty());
}

#[test]
fn test_decode_batch() {
    let tokenizer = create_test_tokenizer();
    let batches = vec![vec![1, 3], vec![2, 4]];
    let results = tokenizer.decode_batch(&batches).unwrap();
    assert_eq!(results.len(), 2);
}

#[test]
fn test_decode_invalid_token() {
    let tokenizer = create_test_tokenizer();
    let result = tokenizer.decode(&[1, 999]);
    assert!(result.is_err());
}

#[test]
fn test_bpe_merges_setting() {
    let mut tokenizer = create_test_tokenizer();
    tokenizer.set_bpe_merges(vec![(1, 3), (2, 4)]);
    assert_eq!(tokenizer.bpe_merge_count(), 2);
}

#[test]
fn test_vocab_lookup() {
    let tokenizer = create_test_tokenizer();
    for (id, token) in tokenizer.vocab().iter().enumerate() {
        assert_eq!(tokenizer.get_id(token), Some(id as u32));
    }
}

#[test]
fn test_token_to_id_consistency() {
    let tokenizer = create_test_tokenizer();
    for (id, token) in tokenizer.vocab().iter().enumerate() {
        if let Some(found_id) = tokenizer.get_id(token) {
            assert_eq!(found_id, id as u32);
        }
    }
}

#[test]
fn encode_and_decode_exact_values() {
    let tokenizer = create_test_tokenizer();
    assert_eq!(tokenizer.encode("hello").unwrap(), vec![3]);
    assert_eq!(tokenizer.encode("abc").unwrap(), vec![7, 8, 9]);
    assert_eq!(tokenizer.encode("hello world!").unwrap(), vec![0, 0, 0, 0, 0, 0, 0, 0, 0, 0, 0, 6]);
    assert_eq!(tokenizer.encode("hi!").unwrap(), vec![0, 0, 6]);
    assert_eq!(tokenizer.decode(&[1, 3]).unwrap(), "<s>hello");
    assert_eq!(tokenizer.decode(&[]).unwrap(), "");
    assert_eq!(tokenizer.decode(&[1, 999]).unwrap_err().to_string(), "Unknown token ID: 999");
    assert_eq!(
        tokenizer.decode_batch(&[vec![4, 6], vec![7]]).unwrap(),
        vec!["world!".to_string(), "a".to_string()]
    );
}

#[test]
fn later_duplicate_token_wins_the_lookup() {
    let tokenizer = LLaMATokenizer::new(vec!["x".to_string(), "y".to_string(), "x".to_string()]).unwrap();
    assert_eq!(tokenizer.get_id("x"), Some(2));
    assert_eq!(tokenizer.get_token(0), Some("x"));
}

#[test]
fn test_llama_engine_creation() {
    let engine = LlamaEngine::new("/test/model.gguf".to_string());
    assert!(!engine.is_loaded());
}

#[test]
fn test_llama_engine_load_nonexistent() {
    let mut engine = LlamaEngine::new("/nonexistent/model.gguf".to_string());
    let result = engine.load(2048, false);
    assert!(result.is_err());
}

#[test]
fn test_llama_engine_generate_not_loaded() {
    let engine = LlamaEngine::new("/test/model.gguf".to_string());
    let result = engine.generate("hello", 100);
    assert!(result.is_err());
}

#[test]
fn llama_engine_load_generate_unload() {
    let mut engine = LlamaEngine::new("/models/test.gguf".to_string());
    assert!(engine.load(2048, true).is_ok());
    assert!(engine.is_loaded());
    let info = engine.get_context_info().unwrap();
    assert_eq!(info.context_size, 2048);
    assert!(info.thread_count > 0);
    assert_eq!(info.model_path, "/models/test.gguf");
    let response = engine.generate("hello", 100).unwrap();
    assert_eq!(response, "Hello! I'm a language model. How can I help you today? ");
    let err = engine.generate("hello", 4096).unwrap_err();
    assert_eq!(err.to_string(), "Context limit exceeded: max 2048, required 4096");
    engine.unload();
    assert!(!engine.is_loaded());
    assert_eq!(engine.get_context_info().unwrap_err().to_string(), "Model not loaded");
}

#[test]
fn llama_engine_missing_file_message() {
    let mut engine = LlamaEngine::new("/x.gguf".to_string());
    assert_eq!(engine.load(16, false).unwrap_err().to_string(), "Model file not found: /x.gguf");
    assert!(!engine.is_loaded());
}

#[test]
fn llama_engine_replies_differ_by_prompt() {
    let mut engine = LlamaEngine::new("/m.gguf".to_string());
    engine.load(2048, true).unwrap();
    let hello_resp = engine.generate("hello", 100).unwrap();
    let what_resp = engine.generate("what is AI?", 100).unwrap();
    let why_resp = engine.generate("why is this?", 100).unwrap();
    assert!(!hello_resp.is_empty());
    assert!(!what_resp.is_empty());
    assert!(!why_resp.is_empty());
    assert_ne!(hello_resp, what_resp);
    assert_ne!(what_resp, why_resp);
    assert!(engine.generate("WHY now", 100).unwrap().starts_with("There are several reasons"));
}

#[test]
fn replies_are_cut_to_the_word_budget() {
    assert_eq!(reply_for("hello", "hello", 3), "Hello! I'm a");
    assert_eq!(reply_for("Tell me", "tell me", 3), "You asked: \"Tell");
    assert_eq!(reply_for("x", "x", 0), "");
    let long = reply_for("explain it", "explain it", 1000);
    assert!(long.starts_with("Let me provide a comprehensive explanation."));
    let q = reply_for("How?", "how?", 5);
    assert_eq!(q.split_whitespace().count(), 5);
}
