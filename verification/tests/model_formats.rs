use minerva::config::ModelConfig as HfConfig;
use minerva::gguf_metadata::GGUFValue;
use minerva::model_formats::{
    gpt_oss_20b_config, parse_gguf_header, quick_look, skip_metadata_kv, GGUFDataType, GGUFLoader, ModelConfig,
    ModelFormat, ModelFormatQuick, StreamingTensorLoader,
};
use minerva::error::MinervaError;

fn kv(key: &[u8], ty: u32, value: &[u8]) -> Vec<u8> {
    let mut out = Vec::new();
    out.extend_from_slice(&(key.len() as u32).to_le_bytes());
    out.extend_from_slice(key);
    out.extend_from_slice(&ty.to_le_bytes());
    out.extend_from_slice(value);
    out
}

#[test]
fn test_model_format_str() {
    assert_eq!(ModelFormat::GGUF.as_str(), "GGUF");
    assert_eq!(ModelFormat::SafeTensors.as_str(), "SafeTensors");
    assert_eq!(ModelFormat::MLX.as_str(), "MLX");
}

#[test]
fn test_model_config_creation() {
    let config = ModelConfig {
        model_name: "test".to_string(),
        hidden_size: 2048,
        num_layers: 22,
        num_attention_heads: 32,
        num_kv_heads: Some(8),
        vocab_size: 32000,
        intermediate_size: 5632,
        max_sequence_length: 4096,
        architectures: vec!["LlamaForCausalLM".to_string()],
    };
    assert_eq!(config.hidden_size, 2048);
    assert_eq!(config.num_layers, 22);
    assert_eq!(config.num_kv_heads, Some(8));
}

#[test]
fn test_gguf_format_detection() {
    let loader = GGUFLoader::new();
    assert!(loader.detect("model.gguf"));
    assert!(!loader.detect("model.safetensors"));
}

#[test]
fn gguf_detection_is_case_sensitive() {
    let loader = GGUFLoader::new();
    assert!(!loader.detect("model.GGUF"));
    assert!(!loader.detect("gguf"));
    assert_eq!(loader.format(), ModelFormat::GGUF);
}

#[test]
fn test_gguf_data_type_bytes() {
    assert_eq!(GGUFDataType::F32.bytes_per_element(), 4);
    assert_eq!(GGUFDataType::F16.bytes_per_element(), 2);
    assert_eq!(GGUFDataType::Q4_0.bytes_per_element(), 1);
}

#[test]
fn test_gguf_quantization_types() {
    assert!(GGUFDataType::Q4_0.is_quantized());
    assert!(GGUFDataType::Q8_0.is_quantized());
    assert!(!GGUFDataType::F32.is_quantized());
}

#[test]
fn gguf_header_fields_and_errors() {
    let mut bytes = b"GGUF".to_vec();
    bytes.extend_from_slice(&3u32.to_le_bytes());
    bytes.extend_from_slice(&459u64.to_le_bytes());
    bytes.extend_from_slice(&37u64.to_le_bytes());
    let header = parse_gguf_header(&bytes).unwrap();
    assert_eq!(header.magic, u32::from_le_bytes(*b"GGUF"));
    assert_eq!(header.version, 3);
    assert_eq!(header.tensor_count, 459);
    assert_eq!(header.metadata_kv_count, 37);
    assert_eq!(parse_gguf_header(b"GG").unwrap_err().to_string(), "Failed to read GGUF magic");
    assert_eq!(parse_gguf_header(b"GGML0000").unwrap_err().to_string(), "Invalid GGUF magic number");
    assert_eq!(parse_gguf_header(b"GGUF00").unwrap_err().to_string(), "Failed to read version");
    assert_eq!(parse_gguf_header(&bytes[..12]).unwrap_err().to_string(), "Failed to read tensor count");
    assert_eq!(parse_gguf_header(&bytes[..20]).unwrap_err().to_string(), "Failed to read metadata count");
}

#[test]
fn gguf_metadata_entries_of_each_type() {
    let bytes = kv(b"a.count", 4, &7u32.to_le_bytes());
    let (key, value, next) = GGUFLoader::read_metadata_kv(&bytes, 0).unwrap();
    assert_eq!(key, "a.count");
    assert!(matches!(value, GGUFValue::U32(7)));
    assert_eq!(next, bytes.len());

    let bytes = kv(b"s", 8, &[3, 0, 0, 0, b'a', b'b', b'c']);
    let (_, value, next) = GGUFLoader::read_metadata_kv(&bytes, 0).unwrap();
    assert!(matches!(value, GGUFValue::String(ref s) if s == "abc"));
    assert_eq!(next, bytes.len());

    let bytes = kv(b"i", 5, &(-2i32).to_le_bytes());
    assert!(matches!(GGUFLoader::read_metadata_kv(&bytes, 0).unwrap().1, GGUFValue::I32(-2)));
    let bytes = kv(b"i8", 1, &[0xff]);
    assert!(matches!(GGUFLoader::read_metadata_kv(&bytes, 0).unwrap().1, GGUFValue::I8(-1)));
    let bytes = kv(b"u16", 2, &[0x34, 0x12]);
    assert!(matches!(GGUFLoader::read_metadata_kv(&bytes, 0).unwrap().1, GGUFValue::U16(0x1234)));
    let bytes = kv(b"f", 6, &1.5f32.to_le_bytes());
    match GGUFLoader::read_metadata_kv(&bytes, 0).unwrap().1 {
        GGUFValue::F32(bits) => assert_eq!(f32::from_bits(bits), 1.5),
        _ => panic!("expected a float"),
    }
    let bytes = kv(b"b", 7, &[2]);
    assert!(matches!(GGUFLoader::read_metadata_kv(&bytes, 0).unwrap().1, GGUFValue::Bool(true)));
    let bytes = kv(b"x", 99, &[]);
    let (_, value, next) = GGUFLoader::read_metadata_kv(&bytes, 0).unwrap();
    assert!(matches!(value, GGUFValue::Unknown));
    assert_eq!(next, bytes.len());
}

#[test]
fn gguf_metadata_reads_consecutive_entries_and_pads_short_values() {
    let mut bytes = kv(b"first", 0, &[9]);
    let second_at = bytes.len();
    bytes.extend(kv(b"second", 4, &[1, 2]));
    let (_, v1, next) = GGUFLoader::read_metadata_kv(&bytes, 0).unwrap();
    assert!(matches!(v1, GGUFValue::U8(9)));
    assert_eq!(next, second_at);
    let (k2, v2, end) = GGUFLoader::read_metadata_kv(&bytes, next).unwrap();
    assert_eq!(k2, "second");
    assert!(matches!(v2, GGUFValue::U32(0x0201)));
    assert_eq!(end, bytes.len());
}

#[test]
fn gguf_metadata_errors_and_invalid_text() {
    assert_eq!(GGUFLoader::read_metadata_kv(&[1, 0], 0).unwrap_err().to_string(), "Failed to read key length");
    assert_eq!(GGUFLoader::read_metadata_kv(&[5, 0, 0, 0, b'a'], 0).unwrap_err().to_string(), "Failed to read key");
    assert_eq!(
        GGUFLoader::read_metadata_kv(&[1, 0, 0, 0, b'a', 0], 0).unwrap_err().to_string(),
        "Failed to read value type"
    );
    let bytes = kv(&[0xff, 0xfe], 8, &[2, 0, 0, 0, 0xc3, 0x28]);
    let (key, value, _) = GGUFLoader::read_metadata_kv(&bytes, 0).unwrap();
    assert_eq!(key, "invalid_key");
    assert!(matches!(value, GGUFValue::String(ref s) if s.is_empty()));
}

#[test]
fn gguf_config_from_metadata() {
    let metadata = vec![
        ("gpt_oss.embedding_length".to_string(), GGUFValue::U32(2880)),
        ("gpt_oss.block_count".to_string(), GGUFValue::I32(24)),
        ("gpt_oss.attention.head_count".to_string(), GGUFValue::String("64".to_string())),
        ("tokenizer.ggml.vocab_size".to_string(), GGUFValue::U32(1)),
        ("tokenizer.ggml.vocab_size".to_string(), GGUFValue::U32(201088)),
    ];
    let config = GGUFLoader::extract_config(&metadata).unwrap();
    assert_eq!(config.model_name, "GPT-OSS-20B");
    assert_eq!(config.hidden_size, 2880);
    assert_eq!(config.num_layers, 24);
    assert_eq!(config.num_attention_heads, 0);
    assert_eq!(config.num_kv_heads, Some(0));
    assert_eq!(config.vocab_size, 201088);
    assert_eq!(config.intermediate_size, 0);
    assert_eq!(config.max_sequence_length, 4096);
    assert_eq!(config.architectures, vec!["GptOssForCausalLM".to_string()]);
}

#[test]
fn gpt_oss_config_values() {
    let c = gpt_oss_20b_config();
    assert_eq!(c.hidden_size, 2880);
    assert_eq!(c.num_layers, 24);
    assert_eq!(c.num_attention_heads, 64);
    assert_eq!(c.vocab_size, 201088);
}

#[test]
fn streaming_loader_starts_with_no_tensors() {
    let loader = StreamingTensorLoader::new("/models/m.gguf".to_string());
    assert!(loader.list_tensors().is_empty());
}

fn hf_config() -> HfConfig {
    HfConfig {
        architectures: vec!["LlamaForCausalLM".to_string()],
        hidden_size: 4096,
        intermediate_size: 11008,
        num_hidden_layers: 32,
        num_attention_heads: 32,
        num_key_value_heads: None,
        vocab_size: 32000,
        max_position_embeddings: 2048,
        hidden_act: "silu".to_string(),
        rms_norm_eps: 1e-5f32.to_bits(),
        rope_theta: Some(10000.0f32.to_bits()),
        attention_dropout: None,
        layer_norm_eps: None,
    }
}

#[test]
fn test_model_config_head_dim() {
    let config = hf_config();
    assert_eq!(config.head_dim(), 128);
    assert_eq!(config.num_kv_heads(), 32);
}

#[test]
fn test_model_config_validation() {
    let mut config = hf_config();
    assert!(config.validate().is_ok());
    config.hidden_size = 0;
    assert!(config.validate().is_err());
}

#[test]
fn model_config_validation_messages_in_order() {
    let mut config = hf_config();
    config.num_hidden_layers = 0;
    config.vocab_size = 0;
    assert_eq!(config.validate().unwrap_err().to_string(), "num_hidden_layers must be > 0");
    config.num_hidden_layers = 1;
    assert_eq!(config.validate().unwrap_err().to_string(), "vocab_size must be > 0");
    config.vocab_size = 1;
    config.num_attention_heads = 0;
    assert_eq!(config.validate().unwrap_err().to_string(), "num_attention_heads must be > 0");
    let mut grouped = hf_config();
    grouped.num_key_value_heads = Some(8);
    assert_eq!(grouped.num_kv_heads(), 8);
}

fn le32(x: u32) -> Vec<u8> {
    x.to_le_bytes().to_vec()
}

#[test]
fn test_skip_metadata_kv_entries() {
    // key "ab", type 4 (one byte skipped)
    let mut b = le32(2);
    b.extend_from_slice(b"ab");
    b.extend(le32(4));
    b.push(9);
    assert_eq!(skip_metadata_kv(&b, 0).unwrap(), 11);
    // key "k", type 8, string "xyz"
    let mut s = le32(1);
    s.push(b'k');
    s.extend(le32(8));
    s.extend(le32(3));
    s.extend_from_slice(b"xyz");
    assert_eq!(skip_metadata_kv(&s, 0).unwrap(), 16);
    // unknown type
    let mut u = le32(0);
    u.extend(le32(9));
    match skip_metadata_kv(&u, 0) {
        Err(MinervaError::ModelLoadingError(m)) => assert_eq!(m, "Unknown metadata type"),
        _ => panic!("expected a loading error"),
    }
    // truncated
    match skip_metadata_kv(&[1, 0], 0) {
        Err(MinervaError::ModelLoadingError(m)) => assert_eq!(m, "Failed to read metadata entry"),
        _ => panic!("expected a loading error"),
    }
}

#[test]
fn test_quick_look_formats() {
    let mut g = b"GGUF".to_vec();
    g.extend(le32(3));
    g.extend(7u64.to_le_bytes());
    g.extend(1u64.to_le_bytes());
    g.extend(le32(0));
    g.extend(le32(0));
    g.push(1);
    let look = quick_look(&g).unwrap();
    assert_eq!(look.format, ModelFormatQuick::GGUF);
    assert_eq!(look.tensor_count, 7);
    assert_eq!(look.quantization, "MXFP4");
    assert_eq!(look.config.num_layers, 24);
    let other = quick_look(b"{\"x\": 1}").unwrap();
    assert_eq!(other.format, ModelFormatQuick::SafeTensors);
    assert_eq!(other.tensor_count, 459);
    assert_eq!(other.quantization, "MXFP4+Q8");
    assert!(quick_look(b"GG").is_err());
    assert!(quick_look(b"GGUF\x03\x00").is_err());
}
