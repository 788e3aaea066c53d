use minerva::config::ModelConfig;
use minerva::gpu_backend::GPUSafeTensorsBackend;
use safetensors::tensor::TensorView;
use safetensors::{serialize, Dtype};

fn bytes(xs: &[f32]) -> Vec<u8> {
    xs.iter().flat_map(|x| x.to_le_bytes()).collect()
}

fn config(layers: usize) -> ModelConfig {
    ModelConfig {
        architectures: vec!["LlamaForCausalLM".to_string()],
        hidden_size: 2,
        intermediate_size: 4,
        num_hidden_layers: layers,
        num_attention_heads: 1,
        num_key_value_heads: None,
        vocab_size: 3,
        max_position_embeddings: 16,
        hidden_act: "silu".to_string(),
        rms_norm_eps: 1e-5f32.to_bits(),
        rope_theta: None,
        attention_dropout: None,
        layer_norm_eps: None,
    }
}

fn model() -> Vec<u8> {
    let emb = bytes(&[1.0, 2.0, 3.0, 4.0, 5.0, 6.0]);
    let q = bytes(&[0.5; 4]);
    let up = bytes(&[0.25; 8]);
    let tensors = vec![
        ("model.embed_tokens.weight", TensorView::new(Dtype::F32, vec![3, 2], &emb).unwrap()),
        ("model.layers.0.self_attn.q_proj.weight", TensorView::new(Dtype::F32, vec![2, 2], &q).unwrap()),
        ("model.layers.1.mlp.up_proj.weight", TensorView::new(Dtype::F32, vec![2, 4], &up).unwrap()),
    ];
    serialize(tensors, None).unwrap()
}

#[test]
fn test_backend_loads_layers_and_counts_parameters() {
    let buf = model();
    let backend = GPUSafeTensorsBackend::from_buffer(config(2), &buf, "m.safetensors").unwrap();
    assert_eq!(backend.attention_layers.len(), 2);
    assert_eq!(backend.mlp_layers.len(), 2);
    assert_eq!(backend.attn_norm_weights.len(), 2);
    assert_eq!(backend.model_path, "m.safetensors");
    assert_eq!((backend.attention_layers[0].q_proj.rows, backend.attention_layers[0].q_proj.cols), (2, 2));
    assert_eq!((backend.mlp_layers[1].up_proj.rows, backend.mlp_layers[1].up_proj.cols), (2, 4));
    let stats = backend.get_stats();
    // embedding 6, head 1, layer 0 attention 4 + 1 + 1 + 1, layer 1 attention 4,
    // layer 0 mlp 3, layer 1 mlp 1 + 8 + 1
    assert_eq!(stats.total_parameters, 6 + 1 + 7 + 4 + 3 + 10);
    assert_eq!(stats.num_layers, 2);
    assert_eq!(stats.hidden_size, 2);
    assert_eq!(stats.vocab_size, 3);
    assert_eq!(backend.get_config().vocab_size, 3);
}

#[test]
fn test_backend_needs_an_embedding() {
    let q = bytes(&[0.5; 4]);
    let buf = serialize(vec![("other", TensorView::new(Dtype::F32, vec![2, 2], &q).unwrap())], None).unwrap();
    assert!(GPUSafeTensorsBackend::from_buffer(config(1), &buf, "m").is_err());
}

#[test]
fn test_embedding_lookup_rows_and_out_of_range_zeros() {
    let buf = model();
    let backend = GPUSafeTensorsBackend::from_buffer(config(0), &buf, "m").unwrap();
    let t = backend.embedding_lookup(&[2, 9, 0]).unwrap();
    assert_eq!((t.rows, t.cols), (3, 2));
    let expect: Vec<u32> = [5.0f32, 6.0, 0.0, 0.0, 1.0, 2.0].iter().map(|x| x.to_bits()).collect();
    assert_eq!(t.data, expect);
}
