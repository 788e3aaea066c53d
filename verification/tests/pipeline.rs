use minerva::error::MinervaError;
use minerva::llama_tokenizer::LLaMATokenizer;
use minerva::pipeline::{InferencePipeline, InferencePipelineParams};

#[test]
fn test_inference_pipeline_params_default() {
    let params = InferencePipelineParams::default();
    assert_eq!(params.max_tokens, 256);
    assert_eq!(f32::from_bits(params.temperature), 0.7);
    assert_eq!(f32::from_bits(params.top_p), 0.9);
    assert!(params.use_gpu);
}

#[test]
fn test_inference_pipeline_params_custom() {
    let params = InferencePipelineParams {
        max_tokens: 512,
        temperature: 0.5f32.to_bits(),
        top_p: 0.8f32.to_bits(),
        use_gpu: false,
    };
    assert_eq!(params.max_tokens, 512);
    assert_eq!(f32::from_bits(params.temperature), 0.5);
    assert!(!params.use_gpu);
}

#[test]
fn test_pipeline_creation_with_default_tokenizer() {
    let params = InferencePipelineParams::default();
    let result = InferencePipeline::with_default_tokenizer(params);
    assert!(result.is_ok());
}

#[test]
fn test_pipeline_creation_custom_params() {
    let vocab = vec!["hello".to_string(), "world".to_string()];
    let tokenizer = LLaMATokenizer::new(vocab).unwrap();
    let params = InferencePipelineParams {
        max_tokens: 100,
        temperature: 0.8f32.to_bits(),
        ..Default::default()
    };
    let result = InferencePipeline::new(tokenizer, params);
    assert!(result.is_ok());
}

#[test]
fn test_pipeline_parameters() {
    let params = InferencePipelineParams {
        max_tokens: 200,
        temperature: 0.6f32.to_bits(),
        top_p: 0.85f32.to_bits(),
        use_gpu: true,
    };
    let vocab = vec!["token".to_string()];
    let tokenizer = LLaMATokenizer::new(vocab).unwrap();
    let pipeline = InferencePipeline::new(tokenizer, params.clone()).unwrap();
    assert_eq!(pipeline.params().max_tokens, 200);
    assert_eq!(f32::from_bits(pipeline.params().temperature), 0.6);
}

#[test]
fn test_inference_accessors() {
    let params = InferencePipelineParams::default();
    let vocab = vec!["test".to_string()];
    let tokenizer = LLaMATokenizer::new(vocab).unwrap();
    let pipeline = InferencePipeline::new(tokenizer, params).unwrap();

    assert_eq!(pipeline.params().max_tokens, 256);
    let _tokens = pipeline.tokenizer().encode("test").unwrap();
    assert!(pipeline.gpu_inference().is_gpu_enabled());
}

#[test]
fn test_sample_token_validity() {
    let params = InferencePipelineParams::default();
    let pipeline = InferencePipeline::with_default_tokenizer(params).unwrap();

    let token0 = pipeline.sample_token(0);
    let token1 = pipeline.sample_token(1);
    let token100 = pipeline.sample_token(100);

    assert!(token0 < 32000);
    assert!(token1 < 32000);
    assert!(token100 < 32000);
    assert_eq!(token100, 2);
}

#[test]
fn test_generated_tokens_follow_the_budget() {
    for (max, expected) in [
        (0usize, vec![]),
        (1, vec![0u32]),
        (3, vec![0, 1, 0]),
        (4, vec![0, 1, 0, 2]),
        (256, vec![0, 1, 0, 2]),
    ] {
        let params = InferencePipelineParams { max_tokens: max, ..Default::default() };
        let pipeline = InferencePipeline::with_default_tokenizer(params).unwrap();
        let tokens = pipeline.generated_tokens();
        assert!(tokens.len() <= max);
        assert_eq!(tokens, expected);
    }
}

#[test]
fn test_generated_tokens_decode_with_default_vocab() {
    let pipeline = InferencePipeline::with_default_tokenizer(InferencePipelineParams::default()).unwrap();
    let tokens = pipeline.generated_tokens();
    assert_eq!(pipeline.tokenizer().decode(&tokens).unwrap(), "helloworldhello</s>");
}

#[test]
fn test_prompt_tokens_empty_prompt_refused() {
    let pipeline = InferencePipeline::with_default_tokenizer(InferencePipelineParams::default()).unwrap();
    match pipeline.prompt_tokens("") {
        Err(MinervaError::InferenceError(m)) => assert_eq!(m, "Empty tokenization result"),
        _ => panic!("expected an inference error"),
    }
    let tokens = pipeline.prompt_tokens("hello").unwrap();
    assert_eq!(tokens, vec![0]);
}
