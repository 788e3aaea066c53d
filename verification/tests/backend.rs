use minerva::backend_manager::{BackendManager, BackendType};
use minerva::backend_selector::{BackendChoice, BackendPreference, BackendSelector, ModelFormat};

#[test]
fn test_backend_manager_creation() {
    let manager = BackendManager::new();
    assert!(!manager.is_loaded());
    assert_eq!(manager.preference(), BackendPreference::Auto);
}

#[test]
fn test_backend_manager_with_preference() {
    let manager = BackendManager::with_preference(BackendPreference::LlamaCpp);
    assert_eq!(manager.preference(), BackendPreference::LlamaCpp);
    assert!(!manager.fallback_enabled());
}

#[test]
fn test_backend_manager_fallback_preference() {
    let manager = BackendManager::with_preference(BackendPreference::Fallback);
    assert_eq!(manager.preference(), BackendPreference::Fallback);
    assert!(manager.fallback_enabled());
}

#[test]
fn test_backend_manager_default() {
    let manager = BackendManager::default();
    assert!(!manager.is_loaded());
}

#[test]
fn test_backend_manager_nonexistent_path() {
    let mut manager = BackendManager::new();
    let result = manager.load_model("/nonexistent/model.gguf", false, 2048);
    assert!(result.is_err());
    assert!(result.unwrap_err().to_string().contains("not found"));
}

#[test]
fn test_backend_manager_generate_without_model() {
    let manager = BackendManager::new();
    let result = manager.generation_backend();
    assert!(result.is_err());
    let err_msg = result.unwrap_err().to_string();
    assert!(
        err_msg.contains("not loaded") || err_msg.contains("Call load_model"),
        "Error message should mention model not loaded, got: {}",
        err_msg
    );
}

#[test]
fn test_backend_type_display() {
    assert_eq!(BackendType::LlamaCpp.to_string(), "llama.cpp");
    assert_eq!(BackendType::PureRust.to_string(), "Pure Rust");
}

#[test]
fn test_backend_type_equality() {
    assert_eq!(BackendType::LlamaCpp, BackendType::LlamaCpp);
    assert_ne!(BackendType::LlamaCpp, BackendType::PureRust);
}

#[test]
fn test_backend_manager_unload_when_not_loaded() {
    let mut manager = BackendManager::new();
    manager.unload_model();
    assert!(!manager.is_loaded());
}

#[test]
fn backend_manager_loads_gguf_into_llama_cpp() {
    let mut manager = BackendManager::new();
    let result = manager.load_model("/models/model.gguf", true, 2048);
    assert_eq!(result.ok(), Some(BackendType::LlamaCpp));
    assert!(manager.is_loaded());
    assert_eq!(manager.active_backend(), Some(BackendType::LlamaCpp));
    assert_eq!(manager.generation_backend().ok(), Some(BackendType::LlamaCpp));
    manager.unload_model();
    assert!(!manager.is_loaded());
}

#[test]
fn backend_manager_missing_file_message_names_path() {
    let mut manager = BackendManager::new();
    let err = manager.load_model("/x/y.gguf", false, 512).unwrap_err();
    assert_eq!(err.to_string(), "Model file not found: /x/y.gguf");
}

#[test]
fn backend_manager_refuses_pytorch_and_stays_unloaded() {
    let mut manager = BackendManager::new();
    let result = manager.load_model("model.pt", true, 512);
    assert!(result.is_err());
    assert!(!manager.is_loaded());
}

#[test]
fn test_model_format_detection_gguf() {
    assert_eq!(ModelFormat::detect("model.gguf"), ModelFormat::Gguf);
}

#[test]
fn test_model_format_detection_safetensors() {
    assert_eq!(ModelFormat::detect("model.safetensors"), ModelFormat::Safetensors);
}

#[test]
fn test_model_format_detection_huggingface() {
    assert_eq!(ModelFormat::detect("pytorch_model.bin"), ModelFormat::HuggingFaceBin);
}

#[test]
fn test_model_format_detection_pytorch() {
    assert_eq!(ModelFormat::detect("model.pt"), ModelFormat::PyTorch);
}

#[test]
fn test_model_format_detection_tensorflow() {
    assert_eq!(ModelFormat::detect("saved_model.pb"), ModelFormat::TensorFlow);
}

#[test]
fn test_model_format_detection_unknown() {
    assert_eq!(ModelFormat::detect("model.unknown"), ModelFormat::Unknown);
}

#[test]
fn test_model_format_case_insensitive() {
    assert_eq!(ModelFormat::detect("model.GGUF"), ModelFormat::Gguf);
}

#[test]
fn model_format_without_extension_is_unknown() {
    assert_eq!(ModelFormat::detect("/models/model"), ModelFormat::Unknown);
    assert_eq!(ModelFormat::detect("model.pth"), ModelFormat::PyTorch);
    assert_eq!(ModelFormat::detect("dir.gguf/model"), ModelFormat::Unknown);
}

#[test]
fn test_format_supported_by_llama_cpp() {
    assert!(ModelFormat::Gguf.is_supported_by_llama_cpp());
    assert!(!ModelFormat::Safetensors.is_supported_by_llama_cpp());
}

#[test]
fn test_format_supported_by_pure_rust() {
    assert!(ModelFormat::Safetensors.is_supported_by_pure_rust());
    assert!(ModelFormat::HuggingFaceBin.is_supported_by_pure_rust());
    assert!(!ModelFormat::Gguf.is_supported_by_pure_rust());
}

#[test]
fn test_backend_selection_auto_gguf() {
    let choice = BackendSelector::select("model.gguf", BackendPreference::Auto);
    assert_eq!(choice, BackendChoice::UseLlamaCpp);
}

#[test]
fn test_backend_selection_auto_safetensors() {
    let choice = BackendSelector::select("model.safetensors", BackendPreference::Auto);
    assert_eq!(choice, BackendChoice::UsePureRust);
}

#[test]
fn test_backend_selection_auto_huggingface_bin() {
    let choice = BackendSelector::select("pytorch_model.bin", BackendPreference::Auto);
    assert_eq!(choice, BackendChoice::UsePureRust);
}

#[test]
fn test_backend_selection_auto_pytorch_error() {
    let choice = BackendSelector::select("model.pt", BackendPreference::Auto);
    assert!(matches!(choice, BackendChoice::Error(_)));
}

#[test]
fn test_backend_selection_force_llama_cpp() {
    let choice = BackendSelector::select("model.gguf", BackendPreference::LlamaCpp);
    assert_eq!(choice, BackendChoice::UseLlamaCpp);
}

#[test]
fn test_backend_selection_force_llama_cpp_unsupported() {
    let choice = BackendSelector::select("model.safetensors", BackendPreference::LlamaCpp);
    assert!(matches!(choice, BackendChoice::Error(_)));
}

#[test]
fn test_backend_selection_force_pure_rust() {
    let choice = BackendSelector::select("model.safetensors", BackendPreference::PureRust);
    assert_eq!(choice, BackendChoice::UsePureRust);
}

#[test]
fn test_backend_selection_force_pure_rust_unsupported() {
    let choice = BackendSelector::select("model.gguf", BackendPreference::PureRust);
    assert!(matches!(choice, BackendChoice::Error(_)));
}

#[test]
fn test_backend_selection_fallback_gguf() {
    let choice = BackendSelector::select("model.gguf", BackendPreference::Fallback);
    assert_eq!(choice, BackendChoice::UseLlamaCpp);
}

#[test]
fn test_backend_selection_fallback_safetensors() {
    let choice = BackendSelector::select("model.safetensors", BackendPreference::Fallback);
    assert_eq!(choice, BackendChoice::UsePureRust);
}

#[test]
fn test_backend_preference_default() {
    assert_eq!(BackendPreference::default(), BackendPreference::Auto);
}

#[test]
fn test_model_format_names() {
    assert_eq!(ModelFormat::Gguf.name(), "GGUF");
    assert_eq!(ModelFormat::Safetensors.name(), "Safetensors");
    assert_eq!(ModelFormat::HuggingFaceBin.name(), "HuggingFace PyTorch");
}

#[test]
fn test_error_messages_are_informative() {
    let choice = BackendSelector::select("model.pt", BackendPreference::Auto);
    if let BackendChoice::Error(msg) = choice {
        assert!(msg.contains("PyTorch"));
        assert!(msg.contains("SOLUTION"));
    } else {
        panic!("Expected error for PyTorch format");
    }
}

#[test]
fn test_to_result_success() {
    let result = BackendSelector::to_result(BackendChoice::UseLlamaCpp);
    assert!(result.is_ok());
}

#[test]
fn test_to_result_error() {
    let result = BackendSelector::to_result(BackendChoice::Error("Test error".to_string()));
    assert!(result.is_err());
}

#[test]
fn auto_and_fallback_agree_on_every_format() {
    let formats = [
        ModelFormat::Gguf,
        ModelFormat::Safetensors,
        ModelFormat::HuggingFaceBin,
        ModelFormat::PyTorch,
        ModelFormat::TensorFlow,
        ModelFormat::Unknown,
    ];
    for f in formats {
        let a = BackendSelector::select_for_format(f, BackendPreference::Auto);
        let b = BackendSelector::select_for_format(f, BackendPreference::Fallback);
        match (&a, &b) {
            (BackendChoice::Error(_), BackendChoice::Error(_)) => {}
            _ => assert_eq!(a, b),
        }
    }
}
