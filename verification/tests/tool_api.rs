use minerva::openai_api::{CompletionUsage, OpenAIAPI, OpenAIModelRegistry};
use minerva::tool_api::{CompactModelSpec, ModelInfo, ParsedModelInfo};

#[test]
fn test_model_info_parse() {
    let info = ModelInfo { id: "GPT-OSS-20B|MXFP4|12110|459|24|201088".to_string(), load_ms: 45, loadable: true };
    let parsed = info.parse();
    assert_eq!(parsed.name, "GPT-OSS-20B");
    assert_eq!(parsed.quant, "MXFP4");
    assert_eq!(parsed.size_mb, 12110);
    assert_eq!(parsed.tensors, 459);
    assert_eq!(parsed.layers, 24);
    assert_eq!(parsed.vocab, 201088);
}

#[test]
fn model_info_parse_reads_bad_numbers_as_zero() {
    let info = ModelInfo { id: "m|q|12110M|+459|-24|".to_string(), load_ms: 0, loadable: false };
    let parsed = info.parse();
    assert_eq!(parsed.name, "m");
    assert_eq!(parsed.quant, "q");
    assert_eq!(parsed.size_mb, 0);
    assert_eq!(parsed.tensors, 459);
    assert_eq!(parsed.layers, 0);
    assert_eq!(parsed.vocab, 0);
    let too_big = ModelInfo { id: "a|b|4294967296|1|2|3".to_string(), load_ms: 0, loadable: true };
    assert_eq!(too_big.parse().size_mb, 0);
    let max = ModelInfo { id: "a|b|4294967295|1|2|3".to_string(), load_ms: 0, loadable: true };
    assert_eq!(max.parse().size_mb, u32::MAX);
}

#[test]
fn model_info_parse_needs_six_fields() {
    let info = ModelInfo { id: "a|b|1|2|3".to_string(), load_ms: 0, loadable: true };
    let parsed = info.parse();
    let default = ParsedModelInfo::default();
    assert_eq!(parsed.name, default.name);
    assert_eq!(parsed.size_mb, 0);
    assert_eq!(parsed.vocab, 0);
    let seven = ModelInfo { id: "a|b|1|2|3|4|5".to_string(), load_ms: 0, loadable: true };
    assert_eq!(seven.parse().name, "");
}

#[test]
fn test_compact_spec() {
    let spec = CompactModelSpec::new("GPT-OSS-20B|MXFP4|12110|459|24|201088".to_string(), true);
    assert_eq!(spec.spec.split('|').count(), 6);
}

#[test]
fn compact_spec_from_info() {
    let info = ModelInfo { id: "x|y|1|2|3|4".to_string(), load_ms: 3, loadable: false };
    let spec = CompactModelSpec::from_info(&info);
    assert_eq!(spec.spec, "x|y|1|2|3|4");
    assert!(!spec.ok);
}

#[test]
fn test_model_registry() {
    let mut registry = OpenAIModelRegistry::new();
    registry.register("gpt-oss-20b", "/tmp/dummy.gguf");
    assert!(registry.get("gpt-oss-20b").is_some());
    assert!(registry.get("nonexistent").is_none());
    let models = registry.list();
    assert!(models.contains(&"gpt-oss-20b"));
}

#[test]
fn registry_register_replaces_the_path() {
    let mut registry = OpenAIModelRegistry::default();
    registry.register("a", "/one.gguf");
    registry.register("b", "/two.gguf");
    registry.register("a", "/three.gguf");
    assert_eq!(registry.get("a").unwrap().model_path(), "/three.gguf");
    assert_eq!(registry.get("b").unwrap().model_path(), "/two.gguf");
    let mut names = registry.list();
    names.sort();
    assert_eq!(names, vec!["a", "b"]);
}

#[test]
fn openai_api_keeps_its_path() {
    let api = OpenAIAPI::new("/models/m.gguf");
    assert_eq!(api.model_path(), "/models/m.gguf");
    let usage = CompletionUsage { prompt_tokens: 1, completion_tokens: 2, total_tokens: 3 };
    assert_eq!(usage.total_tokens, usage.prompt_tokens + usage.completion_tokens);
}
