//! Backend selection: detect a model's file format and pick the inference
//! backend that serves it under the user's preference.
use vstd::prelude::*;

use crate::error::{text, MinervaError, MinervaResult};
use crate::util::{chars_of, eq_ascii_lowercase, matches_ascii_lowercase};

verus! {

/// Which inference backend the user prefers.
#[derive(Debug, Clone, Copy, PartialEq, Eq, Structural)]
pub enum BackendPreference {
    /// Choose by model format
    Auto,
    /// Always use llama.cpp
    LlamaCpp,
    /// Always use the pure Rust backend
    PureRust,
    /// Try the primary backend for the format, else the secondary
    Fallback,
}

impl Default for BackendPreference {
    fn default() -> (r: Self)
        ensures
            r == BackendPreference::Auto,
    {
        BackendPreference::Auto
    }
}

/// Model file format, as told by the file's extension.
#[derive(Debug, Clone, Copy, PartialEq, Eq, Structural)]
pub enum ModelFormat {
    /// GGUF quantized format
    Gguf,
    /// Safetensors format
    Safetensors,
    /// HuggingFace PyTorch format (.bin)
    HuggingFaceBin,
    /// PyTorch format (.pt, .pth)
    PyTorch,
    /// TensorFlow format (.pb)
    TensorFlow,
    /// Unknown format
    Unknown,
}

/// Extension of the last component of a path, as `std::path::Path::extension`
/// reports it; the empty sequence when the path has none.
pub uninterp spec fn path_extension(path: Seq<char>) -> Seq<char>;

/// The extension of `path`, or an empty string when it has none.
///
/// Trusted: calls `std::path::Path::extension` on `path` and returns the
/// extension's text. The contract names the result and says nothing of how
/// std splits paths.
#[verifier::external_body]
pub(crate) fn extension_of(path: &str) -> (r: String)
    ensures
        r@ == path_extension(path@),
{
    match std::path::Path::new(path).extension() {
        Some(e) => e.to_string_lossy().into_owned(),
        None => String::new(),
    }
}

/// The format an extension names, compared without regard to ASCII case.
pub open spec fn format_of_extension(ext: Seq<char>) -> ModelFormat {
    if eq_ascii_lowercase(ext, "gguf"@) {
        ModelFormat::Gguf
    } else if eq_ascii_lowercase(ext, "safetensors"@) {
        ModelFormat::Safetensors
    } else if eq_ascii_lowercase(ext, "bin"@) {
        ModelFormat::HuggingFaceBin
    } else if eq_ascii_lowercase(ext, "pt"@) || eq_ascii_lowercase(ext, "pth"@) {
        ModelFormat::PyTorch
    } else if eq_ascii_lowercase(ext, "pb"@) {
        ModelFormat::TensorFlow
    } else {
        ModelFormat::Unknown
    }
}

/// Human-readable name of a format.
pub open spec fn format_name(f: ModelFormat) -> Seq<char> {
    match f {
        ModelFormat::Gguf => "GGUF"@,
        ModelFormat::Safetensors => "Safetensors"@,
        ModelFormat::HuggingFaceBin => "HuggingFace PyTorch"@,
        ModelFormat::PyTorch => "PyTorch"@,
        ModelFormat::TensorFlow => "TensorFlow"@,
        ModelFormat::Unknown => "Unknown"@,
    }
}

/// llama.cpp reads only GGUF.
pub open spec fn supported_by_llama_cpp(f: ModelFormat) -> bool {
    f == ModelFormat::Gguf
}

/// The pure Rust backend reads Safetensors and HuggingFace `.bin` files.
pub open spec fn supported_by_pure_rust(f: ModelFormat) -> bool {
    f == ModelFormat::Safetensors || f == ModelFormat::HuggingFaceBin
}

impl ModelFormat {
    /// Format named by an extension (ASCII case ignored).
    pub fn from_extension(ext: &str) -> (r: Self)
        ensures
            r == format_of_extension(ext@),
    {
        let cs = chars_of(ext);
        if matches_ascii_lowercase(&cs, "gguf") {
            ModelFormat::Gguf
        } else if matches_ascii_lowercase(&cs, "safetensors") {
            ModelFormat::Safetensors
        } else if matches_ascii_lowercase(&cs, "bin") {
            ModelFormat::HuggingFaceBin
        } else if matches_ascii_lowercase(&cs, "pt") || matches_ascii_lowercase(&cs, "pth") {
            ModelFormat::PyTorch
        } else if matches_ascii_lowercase(&cs, "pb") {
            ModelFormat::TensorFlow
        } else {
            ModelFormat::Unknown
        }
    }

    /// Format of the file at `path`, by its extension.
    pub fn detect(path: &str) -> (r: Self)
        ensures
            r == format_of_extension(path_extension(path@)),
    {
        let ext = extension_of(path);
        Self::from_extension(ext.as_str())
    }

    /// Whether llama.cpp reads this format natively.
    pub fn is_supported_by_llama_cpp(&self) -> (r: bool)
        ensures
            r == supported_by_llama_cpp(*self),
    {
        match self {
            ModelFormat::Gguf => true,
            _ => false,
        }
    }

    /// Whether the pure Rust backend reads this format natively.
    pub fn is_supported_by_pure_rust(&self) -> (r: bool)
        ensures
            r == supported_by_pure_rust(*self),
    {
        match self {
            ModelFormat::Safetensors | ModelFormat::HuggingFaceBin => true,
            _ => false,
        }
    }

    /// Human-readable format name.
    pub fn name(&self) -> (r: &'static str)
        ensures
            r@ == format_name(*self),
    {
        match self {
            ModelFormat::Gguf => "GGUF",
            ModelFormat::Safetensors => "Safetensors",
            ModelFormat::HuggingFaceBin => "HuggingFace PyTorch",
            ModelFormat::PyTorch => "PyTorch",
            ModelFormat::TensorFlow => "TensorFlow",
            ModelFormat::Unknown => "Unknown",
        }
    }
}

/// Outcome of backend selection.
#[derive(Debug, Clone, PartialEq, Eq)]
pub enum BackendChoice {
    /// Use the llama.cpp backend
    UseLlamaCpp,
    /// Use the pure Rust backend
    UsePureRust,
    /// No backend fits; the message says what to do
    Error(String),
}

/// The backend a preference selects for a format: `Some(true)` for llama.cpp,
/// `Some(false)` for pure Rust, `None` when the selection fails.
pub open spec fn selected_backend(format: ModelFormat, preference: BackendPreference) -> Option<bool> {
    match preference {
        BackendPreference::LlamaCpp => if supported_by_llama_cpp(format) { Some(true) } else { None },
        BackendPreference::PureRust => if supported_by_pure_rust(format) { Some(false) } else { None },
        _ => if supported_by_llama_cpp(format) {
            Some(true)
        } else if supported_by_pure_rust(format) {
            Some(false)
        } else {
            None
        },
    }
}

/// `choice` is the backend selection `expected` describes.
pub open spec fn choice_matches(choice: BackendChoice, expected: Option<bool>) -> bool {
    match expected {
        Some(true) => choice == BackendChoice::UseLlamaCpp,
        Some(false) => choice == BackendChoice::UsePureRust,
        None => choice is Error,
    }
}

/// `c` is an error carrying `msg`.
pub open spec fn error_with(c: BackendChoice, msg: Seq<char>) -> bool {
    c matches BackendChoice::Error(m) && m@ == msg
}

/// Error text for a PyTorch model under automatic selection.
pub open spec fn pytorch_guidance() -> Seq<char> {
    "Unsupported format: PyTorch (PyTorch .pt/.pth files)\n\nSOLUTION:\nThe model is in PyTorch format but not supported directly.\nPlease convert to one of these formats:\n\n1. GGUF (recommended for speed):\n   - Use llama.cpp's conversion script\n   - Command: python convert.py model.pth --outtype q4_k_m\n   - Then use llama.cpp backend\n\n2. Safetensors (for pure Rust):\n   - Convert PyTorch to Safetensors\n   - Use HuggingFace's safetensors library\n   - Then use pure Rust backend\n\nLearn more: https://huggingface.co/docs/safetensors/en/index"@
}

/// Error text when llama.cpp is forced on a format it cannot read.
pub open spec fn llama_cpp_refusal(format: ModelFormat) -> Seq<char> {
    "Cannot use llama.cpp backend with "@ + format_name(format)
        + " format\n\nllama.cpp ONLY supports:\n- *.gguf (GGUF quantized format)\n\nYour model format: "@
        + format_name(format) + " ("@
        + (if supported_by_pure_rust(format) { "supported by pure Rust backend"@ } else { "conversion needed"@ })
        + ")"@
}

/// Error text when the pure Rust backend is forced on a format it cannot read.
pub open spec fn pure_rust_refusal(format: ModelFormat) -> Seq<char> {
    "Cannot use pure Rust backend with "@ + format_name(format)
        + " format\n\nPure Rust backend supports:\n- *.safetensors (HuggingFace Safetensors)\n- *.bin (HuggingFace PyTorch format)\n\nYour model format: "@
        + format_name(format) + " ("@
        + (if supported_by_llama_cpp(format) { "supported by llama.cpp backend"@ } else { "conversion needed"@ })
        + ")"@
}

/// Routes model loading to a backend.
#[derive(Debug)]
pub struct BackendSelector;

impl BackendSelector {
    /// Selects the backend for the model at `path` under `preference`.
    pub fn select(path: &str, preference: BackendPreference) -> (r: BackendChoice)
        ensures
            choice_matches(r, selected_backend(format_of_extension(path_extension(path@)), preference)),
    {
        let format = ModelFormat::detect(path);
        Self::select_for_format(format, preference)
    }

    /// Selects the backend for a known format under `preference`.
    pub fn select_for_format(format: ModelFormat, preference: BackendPreference) -> (r: BackendChoice)
        ensures
            choice_matches(r, selected_backend(format, preference)),
            preference == BackendPreference::Auto && format == ModelFormat::PyTorch ==> error_with(r, pytorch_guidance()),
    {
        match preference {
            BackendPreference::Auto => Self::select_auto(format),
            BackendPreference::LlamaCpp => Self::select_llama_cpp(format),
            BackendPreference::PureRust => Self::select_pure_rust(format),
            BackendPreference::Fallback => Self::select_fallback(format),
        }
    }

    fn select_auto(format: ModelFormat) -> (r: BackendChoice)
        ensures
            choice_matches(r, selected_backend(format, BackendPreference::Auto)),
            format == ModelFormat::PyTorch ==> error_with(r, pytorch_guidance()),
    {
        match format {
            ModelFormat::Gguf => BackendChoice::UseLlamaCpp,
            ModelFormat::Safetensors | ModelFormat::HuggingFaceBin => BackendChoice::UsePureRust,
            ModelFormat::PyTorch => BackendChoice::Error(text(
                "Unsupported format: PyTorch (PyTorch .pt/.pth files)\n\nSOLUTION:\nThe model is in PyTorch format but not supported directly.\nPlease convert to one of these formats:\n\n1. GGUF (recommended for speed):\n   - Use llama.cpp's conversion script\n   - Command: python convert.py model.pth --outtype q4_k_m\n   - Then use llama.cpp backend\n\n2. Safetensors (for pure Rust):\n   - Convert PyTorch to Safetensors\n   - Use HuggingFace's safetensors library\n   - Then use pure Rust backend\n\nLearn more: https://huggingface.co/docs/safetensors/en/index",
            )),
            ModelFormat::TensorFlow => BackendChoice::Error(text(
                "Unsupported format: TensorFlow (TensorFlow .pb files)\n\nSOLUTION:\nThe model is in TensorFlow format but not supported directly.\nPlease convert to one of these formats:\n\n1. Convert to GGUF:\n   - Use tf2onnx to convert to ONNX first\n   - Then use ONNX to GGUF conversion\n\n2. Convert to Safetensors:\n   - Use TensorFlow to PyTorch conversion\n   - Then convert to Safetensors format",
            )),
            ModelFormat::Unknown => BackendChoice::Error(text(
                "Unknown or unsupported model format\n\nSUPPORTED FORMATS:\n- *.gguf (GGUF quantized format)\n- *.safetensors (HuggingFace Safetensors)\n- *.bin (HuggingFace PyTorch format)\n\nUNSUPPORTED FORMATS (needs conversion):\n- *.pt, *.pth (PyTorch)\n- *.pb (TensorFlow)\n\nPlease ensure model has correct extension or convert to supported format.",
            )),
        }
    }

    fn select_llama_cpp(format: ModelFormat) -> (r: BackendChoice)
        ensures
            choice_matches(r, selected_backend(format, BackendPreference::LlamaCpp)),
            !supported_by_llama_cpp(format) ==> error_with(r, llama_cpp_refusal(format)),
    {
        if format.is_supported_by_llama_cpp() {
            BackendChoice::UseLlamaCpp
        } else {
            let hint = match format {
                ModelFormat::Safetensors => "supported by pure Rust backend",
                ModelFormat::HuggingFaceBin => "supported by pure Rust backend",
                _ => "conversion needed",
            };
            let mut msg = text("Cannot use llama.cpp backend with ");
            msg.append(format.name());
            msg.append(" format\n\nllama.cpp ONLY supports:\n- *.gguf (GGUF quantized format)\n\nYour model format: ");
            msg.append(format.name());
            msg.append(" (");
            msg.append(hint);
            msg.append(")");
            BackendChoice::Error(msg)
        }
    }

    fn select_pure_rust(format: ModelFormat) -> (r: BackendChoice)
        ensures
            choice_matches(r, selected_backend(format, BackendPreference::PureRust)),
            !supported_by_pure_rust(format) ==> error_with(r, pure_rust_refusal(format)),
    {
        if format.is_supported_by_pure_rust() {
            BackendChoice::UsePureRust
        } else {
            let hint = match format {
                ModelFormat::Gguf => "supported by llama.cpp backend",
                _ => "conversion needed",
            };
            let mut msg = text("Cannot use pure Rust backend with ");
            msg.append(format.name());
            msg.append(" format\n\nPure Rust backend supports:\n- *.safetensors (HuggingFace Safetensors)\n- *.bin (HuggingFace PyTorch format)\n\nYour model format: ");
            msg.append(format.name());
            msg.append(" (");
            msg.append(hint);
            msg.append(")");
            BackendChoice::Error(msg)
        }
    }

    fn select_fallback(format: ModelFormat) -> (r: BackendChoice)
        ensures
            choice_matches(r, selected_backend(format, BackendPreference::Fallback)),
            selected_backend(format, BackendPreference::Fallback) is None
                ==> error_with(r, "Format "@ + format_name(format) + " is not supported by any backend in fallback mode"@),
    {
        match format {
            ModelFormat::Gguf => BackendChoice::UseLlamaCpp,
            ModelFormat::Safetensors | ModelFormat::HuggingFaceBin => BackendChoice::UsePureRust,
            _ => {
                let mut msg = text("Format ");
                msg.append(format.name());
                msg.append(" is not supported by any backend in fallback mode");
                BackendChoice::Error(msg)
            },
        }
    }

    /// Turns an error choice into an error result.
    pub fn to_result(choice: BackendChoice) -> (r: MinervaResult<BackendChoice>)
        ensures
            match choice {
                BackendChoice::Error(m) => r matches Err(MinervaError::InferenceError(e)) && e@ == m@,
                _ => r == Ok::<BackendChoice, MinervaError>(choice),
            },
    {
        match choice {
            BackendChoice::Error(msg) => Err(MinervaError::InferenceError(msg)),
            _ => Ok(choice),
        }
    }
}

/// Whatever the preference, a successful selection names a backend that reads
/// the model's format natively.
pub proof fn lemma_selection_is_supported(format: ModelFormat, preference: BackendPreference)
    ensures
        selected_backend(format, preference) == Some(true) ==> supported_by_llama_cpp(format),
        selected_backend(format, preference) == Some(false) ==> supported_by_pure_rust(format),
        selected_backend(format, preference) is None ==> (preference == BackendPreference::LlamaCpp && !supported_by_llama_cpp(format))
            || (preference == BackendPreference::PureRust && !supported_by_pure_rust(format))
            || (!supported_by_llama_cpp(format) && !supported_by_pure_rust(format)),
{
}

/// Automatic and fallback selection agree on every format.
pub proof fn lemma_auto_agrees_with_fallback(format: ModelFormat)
    ensures
        selected_backend(format, BackendPreference::Auto) == selected_backend(format, BackendPreference::Fallback),
{
}

} // verus!
