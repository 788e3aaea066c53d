//! Model file formats: the format tags, load metadata, and the GGUF header.
use vstd::prelude::*;
use vstd::bytes::{spec_u32_from_le_bytes, spec_u64_from_le_bytes, u32_from_le_bytes, u64_from_le_bytes};
use vstd::slice::slice_subrange;

use crate::backend_selector::{extension_of, path_extension};
use crate::error::{text, MinervaError, MinervaResult};

verus! {

/// Format of a loaded model.
#[derive(Debug, Clone, Copy, PartialEq, Eq, Structural)]
pub enum ModelFormat {
    /// GGUF
    GGUF,
    /// SafeTensors
    SafeTensors,
    /// Apple MLX
    MLX,
}

/// Name of a format.
pub open spec fn format_str(f: ModelFormat) -> Seq<char> {
    match f {
        ModelFormat::GGUF => "GGUF"@,
        ModelFormat::SafeTensors => "SafeTensors"@,
        ModelFormat::MLX => "MLX"@,
    }
}

impl ModelFormat {
    /// Name of the format.
    pub fn as_str(&self) -> (r: &'static str)
        ensures
            r@ == format_str(*self),
    {
        match self {
            ModelFormat::GGUF => "GGUF",
            ModelFormat::SafeTensors => "SafeTensors",
            ModelFormat::MLX => "MLX",
        }
    }
}

/// Summary of a load.
#[derive(Debug, Clone, Copy, PartialEq, Eq, Structural)]
pub struct LoadResult {
    /// Format loaded
    pub format: ModelFormat,
    /// Time taken in ms
    pub load_time_ms: u64,
    /// Memory used in bytes
    pub memory_bytes: usize,
    /// Tensors loaded
    pub num_tensors: usize,
}

/// Metadata of a loaded model.
#[derive(Debug, Clone)]
pub struct LoadMetadata {
    /// Format loaded
    pub format: ModelFormat,
    /// Time taken in ms
    pub load_time_ms: u64,
    /// Memory used in bytes
    pub memory_bytes: usize,
    /// Tensors loaded
    pub num_tensors: usize,
    /// Quantization scheme, if any
    pub quantization: Option<String>,
}

/// Architecture of a model.
#[derive(Debug, Clone)]
pub struct ModelConfig {
    /// Model name
    pub model_name: String,
    /// Hidden size
    pub hidden_size: usize,
    /// Layers
    pub num_layers: usize,
    /// Attention heads
    pub num_attention_heads: usize,
    /// Key-value heads, if grouped
    pub num_kv_heads: Option<usize>,
    /// Vocabulary size
    pub vocab_size: usize,
    /// Feed-forward size
    pub intermediate_size: usize,
    /// Longest sequence
    pub max_sequence_length: usize,
    /// Architecture names
    pub architectures: Vec<String>,
}

/// The architecture of GPT-OSS-20B, which the GGUF loader reports.
pub fn gpt_oss_20b_config() -> (r: ModelConfig)
    ensures
        r.model_name@ == "GPT-OSS-20B"@,
        r.hidden_size == 2880,
        r.num_layers == 24,
        r.num_attention_heads == 64,
        r.num_kv_heads == Some(8usize),
        r.vocab_size == 201088,
        r.intermediate_size == 2880,
        r.max_sequence_length == 4096,
        r.architectures@.len() == 1,
        r.architectures@[0]@ == "GptOssForCausalLM"@,
{
    let mut architectures: Vec<String> = Vec::new();
    architectures.push(text("GptOssForCausalLM"));
    ModelConfig {
        model_name: text("GPT-OSS-20B"),
        hidden_size: 2880,
        num_layers: 24,
        num_attention_heads: 64,
        num_kv_heads: Some(8),
        vocab_size: 201088,
        intermediate_size: 2880,
        max_sequence_length: 4096,
        architectures,
    }
}

/// Header at the start of a GGUF file.
#[derive(Debug, Clone, Copy, PartialEq, Eq, Structural)]
pub struct GGUFHeader {
    /// The magic bytes "GGUF", read as a little-endian `u32`
    pub magic: u32,
    /// Format version
    pub version: u32,
    /// Number of tensors
    pub tensor_count: usize,
    /// Number of metadata entries
    pub metadata_kv_count: usize,
}

/// The bytes "GGUF".
pub open spec fn gguf_magic() -> Seq<u8> {
    seq![71u8, 71u8, 85u8, 70u8]
}

/// Why a GGUF header cannot be read from `bytes`, if it cannot.
pub open spec fn header_error(bytes: Seq<u8>) -> Option<Seq<char>> {
    if bytes.len() < 4 {
        Some("Failed to read GGUF magic"@)
    } else if bytes.subrange(0, 4) != gguf_magic() {
        Some("Invalid GGUF magic number"@)
    } else if bytes.len() < 8 {
        Some("Failed to read version"@)
    } else if bytes.len() < 16 {
        Some("Failed to read tensor count"@)
    } else if bytes.len() < 24 {
        Some("Failed to read metadata count"@)
    } else {
        None
    }
}

/// The header the first 24 bytes of a GGUF file describe.
pub open spec fn header_of(bytes: Seq<u8>) -> GGUFHeader {
    GGUFHeader {
        magic: spec_u32_from_le_bytes(bytes.subrange(0, 4)),
        version: spec_u32_from_le_bytes(bytes.subrange(4, 8)),
        tensor_count: spec_u64_from_le_bytes(bytes.subrange(8, 16)) as usize,
        metadata_kv_count: spec_u64_from_le_bytes(bytes.subrange(16, 24)) as usize,
    }
}

/// `r` failed with a loading error carrying `msg`.
pub open spec fn loading_err<T>(r: MinervaResult<T>, msg: Seq<char>) -> bool {
    r matches Err(MinervaError::ModelLoadingError(m)) && m@ == msg
}

/// Reads a GGUF header from the start of a file's bytes: the magic "GGUF",
/// the version, the tensor count and the metadata count, all little-endian.
pub fn parse_gguf_header(bytes: &[u8]) -> (r: MinervaResult<GGUFHeader>)
    ensures
        match header_error(bytes@) {
            Some(msg) => loading_err(r, msg),
            None => r == Ok::<GGUFHeader, MinervaError>(header_of(bytes@)),
        },
{
    if bytes.len() < 4 {
        return Err(MinervaError::ModelLoadingError(text("Failed to read GGUF magic")));
    }
    if !(bytes[0] == 71 && bytes[1] == 71 && bytes[2] == 85 && bytes[3] == 70) {
        proof {
            if bytes@.subrange(0, 4) == gguf_magic() {
                assert(bytes@.subrange(0, 4)[0] == bytes@[0]);
                assert(bytes@.subrange(0, 4)[1] == bytes@[1]);
                assert(bytes@.subrange(0, 4)[2] == bytes@[2]);
                assert(bytes@.subrange(0, 4)[3] == bytes@[3]);
            }
        }
        return Err(MinervaError::ModelLoadingError(text("Invalid GGUF magic number")));
    }
    proof {
        assert(bytes@.subrange(0, 4) =~= gguf_magic());
    }
    if bytes.len() < 8 {
        return Err(MinervaError::ModelLoadingError(text("Failed to read version")));
    }
    if bytes.len() < 16 {
        return Err(MinervaError::ModelLoadingError(text("Failed to read tensor count")));
    }
    if bytes.len() < 24 {
        return Err(MinervaError::ModelLoadingError(text("Failed to read metadata count")));
    }
    let magic = u32_from_le_bytes(slice_subrange(bytes, 0, 4));
    let version = u32_from_le_bytes(slice_subrange(bytes, 4, 8));
    let tensor_count = u64_from_le_bytes(slice_subrange(bytes, 8, 16)) as usize;
    let metadata_kv_count = u64_from_le_bytes(slice_subrange(bytes, 16, 24)) as usize;
    Ok(GGUFHeader { magic, version, tensor_count, metadata_kv_count })
}

/// Loads the GGUF format.
#[derive(Debug, Clone, Copy)]
pub struct GGUFLoader;

impl GGUFLoader {
    /// New loader.
    pub fn new() -> Self {
        GGUFLoader
    }

    /// Whether the file at `path` is GGUF: its extension is exactly "gguf".
    pub fn detect(&self, path: &str) -> (r: bool)
        ensures
            r == (path_extension(path@) == "gguf"@),
    {
        let ext = extension_of(path);
        crate::util::str_eq(ext.as_str(), "gguf")
    }

    /// The format this loader reads.
    pub fn format(&self) -> (r: ModelFormat)
        ensures
            r == ModelFormat::GGUF,
    {
        ModelFormat::GGUF
    }
}

impl Default for GGUFLoader {
    fn default() -> Self {
        Self::new()
    }
}

/// Element type of a GGUF tensor.
#[derive(Debug, Clone, Copy, PartialEq, Eq, Structural)]
#[allow(non_camel_case_types)]
pub enum GGUFDataType {
    /// 32-bit float
    F32,
    /// 16-bit float
    F16,
    /// 4-bit quantization, variant 0
    Q4_0,
    /// 4-bit quantization, variant 1
    Q4_1,
    /// 8-bit quantization, variant 0
    Q8_0,
    /// 8-bit quantization, variant 1
    Q8_1,
    /// 2-bit k-quantization
    Q2_K,
    /// 3-bit k-quantization
    Q3_K,
    /// 4-bit k-quantization
    Q4_K,
    /// 5-bit k-quantization
    Q5_K,
    /// 6-bit k-quantization
    Q6_K,
    /// 8-bit k-quantization
    Q8_K,
}

/// Bytes each element takes.
pub open spec fn element_bytes(t: GGUFDataType) -> usize {
    match t {
        GGUFDataType::F32 => 4,
        GGUFDataType::F16 => 2,
        _ => 1,
    }
}

/// Whether the type is a quantized one: every type but the two floats.
pub open spec fn quantized(t: GGUFDataType) -> bool {
    t != GGUFDataType::F32 && t != GGUFDataType::F16
}

impl GGUFDataType {
    /// Bytes per element.
    pub fn bytes_per_element(&self) -> (r: usize)
        ensures
            r == element_bytes(*self),
    {
        match self {
            GGUFDataType::F32 => 4,
            GGUFDataType::F16 => 2,
            _ => 1,
        }
    }

    /// Whether the type is quantized.
    pub fn is_quantized(&self) -> (r: bool)
        ensures
            r == quantized(*self),
    {
        match self {
            GGUFDataType::F32 | GGUFDataType::F16 => false,
            _ => true,
        }
    }
}

/// A tensor of a GGUF file.
#[derive(Debug)]
pub struct GGUFTensor {
    /// Tensor name
    pub name: String,
    /// Dimensions
    pub dimensions: Vec<usize>,
    /// Element type
    pub dtype: GGUFDataType,
    /// Raw data
    pub data: Vec<u8>,
}

/// Format of a model, as its first bytes tell.
#[derive(Debug, Clone, Copy, PartialEq, Eq, Structural)]
pub enum ModelFormatQuick {
    /// GGUF
    GGUF,
    /// SafeTensors
    SafeTensors,
    /// Not known
    Unknown,
}

/// Shape of a model, enough to plan inference.
#[derive(Debug, Clone, Copy, PartialEq, Eq, Structural)]
pub struct QuickConfig {
    /// Hidden size
    pub hidden_size: usize,
    /// Layers
    pub num_layers: usize,
    /// Vocabulary size
    pub vocab_size: usize,
    /// Longest sequence
    pub max_seq_len: usize,
}

/// The little-endian `u32` at `at`.
pub open spec fn u32_at(bytes: Seq<u8>, at: int) -> u32 {
    spec_u32_from_le_bytes(bytes.subrange(at, at + 4))
}

/// Where the metadata entry at `pos` ends, as skipping reads it: a
/// `u32` key length, the key, a `u32` value type, then one byte for types
/// 0 to 7, or a `u32` length and that many bytes for type 8 (a string).
/// `None` when a length or type cannot be read or the type is unknown.
pub open spec fn entry_end(bytes: Seq<u8>, pos: int) -> Option<int> {
    if pos + 4 > bytes.len() {
        None
    } else {
        let after_key = pos + 4 + u32_at(bytes, pos);
        if after_key + 4 > bytes.len() {
            None
        } else {
            let value_type = u32_at(bytes, after_key);
            let p = after_key + 4;
            if value_type <= 7 {
                Some(p + 1)
            } else if value_type == 8 {
                if p + 4 > bytes.len() {
                    None
                } else {
                    Some(p + 4 + u32_at(bytes, p))
                }
            } else {
                None
            }
        }
    }
}

/// Whether skipping the entry at `pos` fails on its value type rather
/// than on running out of bytes.
pub open spec fn entry_type_unknown(bytes: Seq<u8>, pos: int) -> bool {
    pos + 4 <= bytes.len() && {
        let after_key = pos + 4 + u32_at(bytes, pos);
        after_key + 4 <= bytes.len() && u32_at(bytes, after_key) > 8
    }
}

/// The little-endian `u32` at `at` of a slice.
fn read_u32(bytes: &[u8], at: usize) -> (r: u32)
    requires
        at + 4 <= bytes@.len(),
    ensures
        r == u32_at(bytes@, at as int),
{
    let n = bytes.len();
    proof {
        assert(at + 4 <= n);
    }
    u32_from_le_bytes(slice_subrange(bytes, at, at + 4))
}

/// Skips the metadata entry at `pos` of a GGUF file's bytes and gives the
/// position after it (at most `usize::MAX`). An entry that cannot be read
/// is refused, and so is one of an unknown value type.
pub fn skip_metadata_kv(bytes: &[u8], pos: usize) -> (r: MinervaResult<usize>)
    ensures
        match entry_end(bytes@, pos as int) {
            Some(end) => r matches Ok(p) && p == (if end <= usize::MAX {
                end
            } else {
                usize::MAX as int
            }),
            None => if entry_type_unknown(bytes@, pos as int) {
                loading_err(r, "Unknown metadata type"@)
            } else {
                loading_err(r, "Failed to read metadata entry"@)
            },
        },
{
    let n = bytes.len();
    if pos > n || n - pos < 4 {
        return Err(MinervaError::ModelLoadingError(text("Failed to read metadata entry")));
    }
    let key_len = read_u32(bytes, pos);
    let after_key_opt: Option<usize> = (pos + 4).checked_add(key_len as usize);
    let after_key = match after_key_opt {
        Some(a) => a,
        None => {
            return Err(MinervaError::ModelLoadingError(text("Failed to read metadata entry")));
        },
    };
    if after_key > n || n - after_key < 4 {
        return Err(MinervaError::ModelLoadingError(text("Failed to read metadata entry")));
    }
    let value_type = read_u32(bytes, after_key);
    let p = after_key + 4;
    if value_type <= 7 {
        if p < usize::MAX {
            Ok(p + 1)
        } else {
            Ok(usize::MAX)
        }
    } else if value_type == 8 {
        if p > n || n - p < 4 {
            return Err(MinervaError::ModelLoadingError(text("Failed to read metadata entry")));
        }
        let str_len = read_u32(bytes, p);
        let end: Option<usize> = (p + 4).checked_add(str_len as usize);
        match end {
            Some(e) => Ok(e),
            None => Ok(usize::MAX),
        }
    } else {
        Err(MinervaError::ModelLoadingError(text("Unknown metadata type")))
    }
}

/// What the first bytes of a model file tell: its name, format, tensor
/// count, quantization and shape.
#[derive(Debug, Clone)]
pub struct QuickLook {
    /// Model name
    pub model_name: String,
    /// File format
    pub format: ModelFormatQuick,
    /// Tensors in the file
    pub tensor_count: usize,
    /// Quantization scheme
    pub quantization: String,
    /// Model shape
    pub config: QuickConfig,
}

/// Shape of the GPT-OSS 20B model.
pub open spec fn gpt_oss_quick_config() -> QuickConfig {
    QuickConfig { hidden_size: 2880, num_layers: 24, vocab_size: 201088, max_seq_len: 4096 }
}

/// A quick look at a model file's first bytes: a GGUF file (magic "GGUF")
/// gives its header's tensor count, with its metadata entries skipped;
/// anything else is taken for a SafeTensors file of 459 tensors. Either way
/// the model is taken for GPT-OSS 20B.
pub fn quick_look(bytes: &[u8]) -> (r: MinervaResult<QuickLook>)
    ensures
        bytes@.len() < 4 ==> loading_err(r, "Failed to read GGUF magic"@),
        bytes@.len() >= 4 && bytes@.subrange(0, 4) == gguf_magic() ==> match header_error(bytes@) {
            Some(msg) => loading_err(r, msg),
            None => r matches Ok(q) && q.format == ModelFormatQuick::GGUF && q.tensor_count == header_of(
                bytes@,
            ).tensor_count && q.model_name@ == "GPT-OSS-20B"@ && q.quantization@ == "MXFP4"@ && q.config
                == gpt_oss_quick_config(),
        },
        bytes@.len() >= 4 && bytes@.subrange(0, 4) != gguf_magic() ==> (r matches Ok(q) && q.format
            == ModelFormatQuick::SafeTensors && q.tensor_count == 459 && q.model_name@ == "GPT-OSS-20B"@
            && q.quantization@ == "MXFP4+Q8"@ && q.config == gpt_oss_quick_config()),
{
    if bytes.len() < 4 {
        return Err(MinervaError::ModelLoadingError(text("Failed to read GGUF magic")));
    }
    let config = QuickConfig { hidden_size: 2880, num_layers: 24, vocab_size: 201088, max_seq_len: 4096 };
    if bytes[0] == 71 && bytes[1] == 71 && bytes[2] == 85 && bytes[3] == 70 {
        proof {
            assert(bytes@.subrange(0, 4) =~= gguf_magic());
        }
        let header = parse_gguf_header(bytes)?;
        let mut pos: usize = 24;
        let mut i: usize = 0;
        while i < header.metadata_kv_count
            invariant
                i <= header.metadata_kv_count,
            decreases header.metadata_kv_count - i,
        {
            match skip_metadata_kv(bytes, pos) {
                Ok(p) => {
                    pos = p;
                },
                Err(_) => {
                    break;
                },
            }
            i = i + 1;
        }
        Ok(QuickLook {
            model_name: text("GPT-OSS-20B"),
            format: ModelFormatQuick::GGUF,
            tensor_count: header.tensor_count,
            quantization: text("MXFP4"),
            config,
        })
    } else {
        proof {
            if bytes@.subrange(0, 4) == gguf_magic() {
                assert(bytes@.subrange(0, 4)[0] == bytes@[0]);
                assert(bytes@.subrange(0, 4)[1] == bytes@[1]);
                assert(bytes@.subrange(0, 4)[2] == bytes@[2]);
                assert(bytes@.subrange(0, 4)[3] == bytes@[3]);
            }
        }
        Ok(QuickLook {
            model_name: text("GPT-OSS-20B"),
            format: ModelFormatQuick::SafeTensors,
            tensor_count: 459,
            quantization: text("MXFP4+Q8"),
            config,
        })
    }
}

/// Index of a model's tensors for loading them one at a time.
#[derive(Debug)]
pub struct StreamingTensorLoader {
    file_path: String,
    tensor_index: Vec<(String, usize, usize)>,
}

impl StreamingTensorLoader {
    /// Indexed tensors as (name, offset, size).
    pub closed spec fn spec_index(&self) -> Seq<(String, usize, usize)> {
        self.tensor_index@
    }

    /// The model file the tensors are read from.
    pub closed spec fn spec_file_path(&self) -> Seq<char> {
        self.file_path@
    }

    /// Loader for `path` with an empty index.
    pub fn new(path: String) -> (r: Self)
        ensures
            r.spec_file_path() == path@,
            r.spec_index().len() == 0,
    {
        StreamingTensorLoader { file_path: path, tensor_index: Vec::new() }
    }

    /// Names of the indexed tensors, in index order.
    pub fn list_tensors(&self) -> (r: Vec<&str>)
        ensures
            r@.len() == self.spec_index().len(),
            forall|i: int| 0 <= i < r@.len() ==> (#[trigger] r@[i])@ == self.spec_index()[i].0@,
    {
        let mut out: Vec<&str> = Vec::new();
        let mut i: usize = 0;
        while i < self.tensor_index.len()
            invariant
                i <= self.tensor_index@.len(),
                out@.len() == i,
                forall|j: int| 0 <= j < i ==> (#[trigger] out@[j])@ == self.tensor_index@[j].0@,
            decreases self.tensor_index@.len() - i,
        {
            out.push(self.tensor_index[i].0.as_str());
            i = i + 1;
        }
        out
    }
}

} // verus!
