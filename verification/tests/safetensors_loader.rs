use minerva::error::MinervaError;
use minerva::safetensors_loader::{decode_words, header_numbers_fit, weight_tensor, SafeTensorsLoader, ONE_BITS};
use safetensors::tensor::TensorView;
use safetensors::{serialize, Dtype};

fn f32_bytes(xs: &[f32]) -> Vec<u8> {
    xs.iter().flat_map(|x| x.to_le_bytes()).collect()
}

fn buffer() -> Vec<u8> {
    let emb = f32_bytes(&[1.0, 2.0, 3.0, 4.0, 5.0, 6.0]);
    let norm = f32_bytes(&[0.5, 0.25]);
    let half = vec![0u8; 8];
    let tensors = vec![
        ("model.embed_tokens.weight", TensorView::new(Dtype::F32, vec![3, 2], &emb).unwrap()),
        ("model.norm.weight", TensorView::new(Dtype::F32, vec![2], &norm).unwrap()),
        ("model.layers.0.mlp.up_proj.weight", TensorView::new(Dtype::F16, vec![2, 2], &half).unwrap()),
    ];
    serialize(tensors, None).unwrap()
}

#[test]
fn test_decode_words_little_endian() {
    assert_eq!(decode_words(&[1, 0, 0, 0, 0, 1, 0, 0]), vec![1, 256]);
    assert_eq!(decode_words(&[0xff, 0xff, 0xff, 0xff, 7]), vec![u32::MAX, 0]);
    assert_eq!(decode_words(&[]), Vec::<u32>::new());
}

#[test]
fn test_weight_tensor_layout() {
    let t = weight_tensor(&[2], &f32_bytes(&[1.0, 2.0])).unwrap();
    assert_eq!((t.rows, t.cols), (2, 1));
    let t = weight_tensor(&[2, 3], &[0u8; 8]).unwrap();
    assert_eq!((t.rows, t.cols), (2, 3));
    assert_eq!(t.data, vec![0u32; 6]);
    let t = weight_tensor(&[], &[9, 0, 0, 0]).unwrap();
    assert_eq!((t.rows, t.cols, t.data), (1, 1, vec![0]));
    assert!(weight_tensor(&[usize::MAX, 2], &[]).is_none());
}

#[test]
fn test_load_tensor_from_buffer() {
    let buf = buffer();
    let emb = SafeTensorsLoader::load_embedding(&buf).unwrap();
    assert_eq!((emb.rows, emb.cols), (3, 2));
    assert_eq!(emb.data[5], 6.0f32.to_bits());
    let (norm, head) = SafeTensorsLoader::load_final_weights(&buf).unwrap();
    assert_eq!((norm.rows, norm.cols), (2, 1));
    assert_eq!(norm.data, vec![0.5f32.to_bits(), 0.25f32.to_bits()]);
    assert_eq!((head.rows, head.cols, head.data), (1, 1, vec![0]));
}

#[test]
fn test_load_tensor_errors() {
    let buf = buffer();
    match SafeTensorsLoader::load_tensor(&buf, "nope") {
        Err(MinervaError::ModelLoadingError(m)) => assert_eq!(m, "tensor nope not found"),
        _ => panic!("expected a loading error"),
    }
    match SafeTensorsLoader::load_tensor(&[1, 2, 3], "x") {
        Err(MinervaError::ModelLoadingError(m)) => assert_eq!(m, "failed to deserialize safetensors"),
        _ => panic!("expected a loading error"),
    }
}

#[test]
fn test_layer_weights_fall_back() {
    let buf = buffer();
    let mlp = SafeTensorsLoader::load_mlp_weights(&buf, 0).unwrap();
    // two f16 words of data for a two-by-two shape: zeros of that shape
    assert_eq!((mlp.up_proj.rows, mlp.up_proj.cols), (2, 2));
    assert_eq!(mlp.up_proj.data, vec![0u32; 4]);
    assert_eq!((mlp.gate_proj.rows, mlp.gate_proj.cols, mlp.gate_proj.data.clone()), (1, 1, vec![0]));
    let attn = SafeTensorsLoader::load_attention_projections(&buf, 3).unwrap();
    assert_eq!(attn.q_proj.data, vec![0]);
    let (a, f) = SafeTensorsLoader::load_norm_weights(&buf, 1).unwrap();
    assert_eq!(a.data, vec![ONE_BITS]);
    assert_eq!(f.data, vec![1.0f32.to_bits()]);
}

fn with_header(header: &str, data_len: usize) -> Vec<u8> {
    let mut buf = (header.len() as u64).to_le_bytes().to_vec();
    buf.extend_from_slice(header.as_bytes());
    buf.extend(std::iter::repeat(0u8).take(data_len));
    buf
}

#[test]
fn offsets_near_usize_max_are_refused() {
    // eight tensors of 2^61 - 1 bytes and one of 7: the last offset is 2^64 - 1
    let step: u64 = (1u64 << 61) - 1;
    let mut parts = Vec::new();
    let mut start: u64 = 0;
    for i in 0..9u64 {
        let len = if i < 8 { step } else { 7 };
        let end = start + len;
        parts.push(format!(
            "\"t{}\":{{\"dtype\":\"U8\",\"shape\":[{}],\"data_offsets\":[{},{}]}}",
            i, len, start, end
        ));
        start = end;
    }
    let header = format!("{{{}}}", parts.join(","));
    let buf = with_header(&header, 16);
    assert!(!header_numbers_fit(&buf));
    match SafeTensorsLoader::load_tensor(&buf, "t0") {
        Err(MinervaError::ModelLoadingError(m)) => assert_eq!(m, "failed to deserialize safetensors"),
        _ => panic!("expected a loading error"),
    }
}

#[test]
fn header_numbers_fit_cases() {
    assert!(header_numbers_fit(&buffer()));
    assert!(header_numbers_fit(&[1, 2, 3]));
    let small = with_header("{\"a\":{\"dtype\":\"U8\",\"shape\":[2],\"data_offsets\":[0,2]}}", 2);
    assert!(header_numbers_fit(&small));
    assert_eq!(SafeTensorsLoader::load_tensor(&small, "a").unwrap().rows, 2);
    // an offset that does not match the shape: the table does not read, so
    // there is nothing to add up, and loading fails as deserializing does
    let bad = with_header("{\"a\":{\"dtype\":\"U8\",\"shape\":[1],\"data_offsets\":[0,18446744073709551615]}}", 1);
    assert!(header_numbers_fit(&bad));
    match SafeTensorsLoader::load_tensor(&bad, "a") {
        Err(MinervaError::ModelLoadingError(m)) => assert_eq!(m, "failed to deserialize safetensors"),
        _ => panic!("expected a loading error"),
    }
}

#[test]
fn large_numbers_outside_the_offsets_are_accepted() {
    // digits in a tensor name and a huge dimension next to a zero one
    let name = "99999999999999999999999999";
    let header = format!(
        "{{\"{}\":{{\"dtype\":\"U8\",\"shape\":[2],\"data_offsets\":[0,2]}},\"z\":{{\"dtype\":\"U8\",\"shape\":[0,18446744073709551615],\"data_offsets\":[2,2]}}}}",
        name
    );
    let buf = with_header(&header, 2);
    assert!(header_numbers_fit(&buf));
    assert_eq!(SafeTensorsLoader::load_tensor(&buf, name).unwrap().rows, 2);
    assert!(SafeTensorsLoader::load_tensor(&buf, "z").is_ok());
}
