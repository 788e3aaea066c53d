//! Weight matrices read from a SafeTensors buffer. The elements are the
//! little-endian 32-bit words of the tensor's bytes, the bit patterns of
//! its `f32` values; one-dimensional tensors become single columns.
use vstd::prelude::*;
use vstd::bytes::{spec_u64_from_le_bytes, u64_from_le_bytes};
use vstd::slice::slice_subrange;

use vstd::utf8::{decode_utf8, valid_utf8};

use crate::gguf_metadata::utf8_string;
use crate::error::{decimal_text, text, text_then_number, MinervaError, MinervaResult};

verus! {

/// Whether `safetensors::SafeTensors::deserialize` accepts `buffer`.
pub uninterp spec fn safetensors_readable(buffer: Seq<u8>) -> bool;

/// Shape and data bytes that `safetensors::SafeTensors::tensor` gives for
/// `name` in the deserialized `buffer`; `None` when there is no such tensor.
pub uninterp spec fn safetensors_tensor(buffer: Seq<u8>, name: Seq<char>) -> Option<(Seq<usize>, Seq<u8>)>;

/// What a SafeTensors buffer holds under a name.
#[derive(Debug)]
pub enum TensorEntry {
    /// The buffer is not a SafeTensors file
    Unreadable,
    /// No tensor has the name
    Missing,
    /// The tensor's shape and data bytes
    Found(Vec<usize>, Vec<u8>),
}

/// The header length that the first eight bytes of a SafeTensors buffer
/// give, little-endian.
pub open spec fn header_len(buffer: Seq<u8>) -> int {
    spec_u64_from_le_bytes(buffer.subrange(0, 8)) as int
}

/// Whether reading a SafeTensors buffer adds up without overflow: when the
/// buffer has a length field of at most 100 000 000, a header of that length
/// that is UTF-8 text, and the header's tensor table reads (with the end of
/// its data), that end plus the header and its length field fits `usize`.
pub open spec fn header_fits(buffer: Seq<u8>) -> bool {
    buffer.len() < 8 || {
        let n = header_len(buffer);
        let h = buffer.subrange(8, 8 + n);
        n > 100_000_000 || 8 + n > buffer.len() || !valid_utf8(h)
            || match safetensors_data_end(decode_utf8(h)) {
            Some(end) => end + 8 + n <= usize::MAX,
            None => true,
        }
    }
}

/// End of the data that a SafeTensors header's tensor table declares, or
/// `None` when the header does not read as a valid table.
pub uninterp spec fn safetensors_data_end(header: Seq<char>) -> Option<usize>;

/// Reads a SafeTensors header's tensor table and gives the end of its data.
///
/// Trusted: calls `serde_json::from_str` for `safetensors::tensor::Metadata`
/// (which reads the table, orders it by offsets and checks it as
/// deserializing a buffer does) and then `Metadata::data_len`, the end offset
/// of the last tensor. The contract names the result.
#[verifier::external_body]
fn header_data_end(header: &str) -> (r: Option<usize>)
    ensures
        r == safetensors_data_end(header@),
{
    match serde_json::from_str::<safetensors::tensor::Metadata>(header) {
        Ok(m) => Some(m.data_len()),
        Err(_) => None,
    }
}

/// Checks that reading a SafeTensors buffer adds up without overflow.
pub fn header_numbers_fit(buffer: &[u8]) -> (r: bool)
    ensures
        r == header_fits(buffer@),
{
    if buffer.len() < 8 {
        return true;
    }
    let head = slice_subrange(buffer, 0, 8);
    let n64 = u64_from_le_bytes(head);
    proof {
        assert(buffer@.subrange(0, 8) =~= head@);
    }
    if n64 > 100_000_000 || n64 > (buffer.len() - 8) as u64 {
        return true;
    }
    let n: usize = n64 as usize;
    let header_bytes = crate::util::copy_bytes(slice_subrange(buffer, 8, 8 + n));
    match utf8_string(header_bytes) {
        None => true,
        Some(header) => match header_data_end(header.as_str()) {
            None => true,
            Some(end) => end <= usize::MAX - 8 - n,
        },
    }
}

/// Looks a tensor up in a serialized SafeTensors buffer.
///
/// Trusted: calls `safetensors::SafeTensors::deserialize` on the buffer and,
/// when that succeeds, `SafeTensors::tensor` with the name, copying the
/// view's `shape()` and `data()`. The contract names both results and says
/// nothing of the file format itself. Deserializing adds the end of the
/// data that the header declares to the header's length without a check,
/// which overflows (and panics where overflow is checked) when that end
/// comes near `usize::MAX`; `header_fits` leaves such buffers out.
#[verifier::external_body]
fn read_entry(buffer: &[u8], name: &str) -> (r: TensorEntry)
    requires
        header_fits(buffer@),
    ensures
        !safetensors_readable(buffer@) ==> r is Unreadable,
        safetensors_readable(buffer@) ==> match safetensors_tensor(buffer@, name@) {
            None => r is Missing,
            Some(entry) => r matches TensorEntry::Found(shape, data) && shape@ == entry.0 && data@ == entry.1,
        },
{
    match safetensors::SafeTensors::deserialize(buffer) {
        Err(_) => TensorEntry::Unreadable,
        Ok(st) => match st.tensor(name) {
            Err(_) => TensorEntry::Missing,
            Ok(view) => TensorEntry::Found(view.shape().to_vec(), view.data().to_vec()),
        },
    }
}

/// The little-endian word of four bytes.
pub open spec fn le_word(b0: u8, b1: u8, b2: u8, b3: u8) -> u32 {
    (b0 + 256 * b1 + 65536 * b2 + 16777216 * b3) as u32
}

/// Words of `bytes`, four bytes each, little-endian; a last group of fewer
/// than four bytes gives `0`.
pub open spec fn le_words(bytes: Seq<u8>) -> Seq<u32> {
    Seq::new(
        ((bytes.len() + 3) / 4) as nat,
        |i: int|
            if 4 * i + 4 <= bytes.len() {
                le_word(bytes[4 * i], bytes[4 * i + 1], bytes[4 * i + 2], bytes[4 * i + 3])
            } else {
                0u32
            },
    )
}

/// Rows and columns a tensor of `shape` is laid out in: a vector becomes
/// one column, a tensor of two or more dimensions takes its first two, and
/// a scalar is one by one.
pub open spec fn layout(shape: Seq<usize>) -> (usize, usize) {
    if shape.len() == 1 {
        (shape[0], 1)
    } else if shape.len() >= 2 {
        (shape[0], shape[1])
    } else {
        (1, 1)
    }
}

/// Elements of a matrix of `rows` by `cols`.
pub open spec fn element_count(rows: usize, cols: usize) -> int {
    rows * cols
}

/// Whether a tensor of `shape` keeps its data `words`: it has at least one
/// dimension and the words fill its layout exactly. Otherwise it is zeros.
pub open spec fn keeps_data(shape: Seq<usize>, words: Seq<u32>) -> bool {
    shape.len() >= 1 && words.len() == element_count(layout(shape).0, layout(shape).1)
}

/// A matrix of `rows` by `cols` of 4-byte elements fits in memory.
pub open spec fn fits_in_memory(rows: usize, cols: usize) -> bool {
    element_count(rows, cols) * 4 <= isize::MAX
}

/// What loading `name` from `buffer` gives: the rows, columns and elements
/// of the matrix, or `None` when loading fails.
pub open spec fn loaded_tensor(buffer: Seq<u8>, name: Seq<char>) -> Option<(usize, usize, Seq<u32>)> {
    if !header_fits(buffer) || !safetensors_readable(buffer) {
        None
    } else {
        match safetensors_tensor(buffer, name) {
            None => None,
            Some(entry) => {
                let (rows, cols) = layout(entry.0);
                let words = le_words(entry.1);
                if keeps_data(entry.0, words) {
                    Some((rows, cols, words))
                } else if fits_in_memory(rows, cols) {
                    Some((rows, cols, Seq::new(element_count(rows, cols) as nat, |i: int| 0u32)))
                } else {
                    None
                }
            },
        }
    }
}

/// The message of the loading error for `name` in `buffer` when loading
/// fails: the buffer does not read, the tensor is missing, or it is too large
/// to lay out.
pub open spec fn load_error(buffer: Seq<u8>, name: Seq<char>) -> Seq<char> {
    if !header_fits(buffer) || !safetensors_readable(buffer) {
        "failed to deserialize safetensors"@
    } else if safetensors_tensor(buffer, name) is None {
        "tensor "@ + name + " not found"@
    } else {
        "tensor "@ + name + " is too large"@
    }
}

/// What loading `name` gives, or a one-by-one matrix holding `fill` when
/// loading fails.
pub open spec fn loaded_or(buffer: Seq<u8>, name: Seq<char>, fill: u32) -> (usize, usize, Seq<u32>) {
    match loaded_tensor(buffer, name) {
        Some(t) => t,
        None => (1, 1, seq![fill]),
    }
}

/// Rows, columns and elements of a matrix.
pub open spec fn tensor_view(t: WeightTensor) -> (usize, usize, Seq<u32>) {
    (t.rows, t.cols, t.data@)
}

/// Name of a tensor of layer `layer`: `model.layers.`, the layer number,
/// then `suffix`.
pub open spec fn layer_tensor_name(layer: usize, suffix: Seq<char>) -> Seq<char> {
    "model.layers."@ + decimal_text(layer as nat) + suffix
}

/// Attention projections of one layer.
#[derive(Debug, Clone)]
pub struct AttentionWeights {
    /// Query projection
    pub q_proj: WeightTensor,
    /// Key projection
    pub k_proj: WeightTensor,
    /// Value projection
    pub v_proj: WeightTensor,
    /// Output projection
    pub o_proj: WeightTensor,
}

/// Feed-forward weights of one layer.
#[derive(Debug, Clone)]
pub struct MLPWeights {
    /// Gate projection
    pub gate_proj: WeightTensor,
    /// Up projection
    pub up_proj: WeightTensor,
    /// Down projection
    pub down_proj: WeightTensor,
}

/// A row-major matrix of `f32` bit patterns.
#[derive(Debug, Clone)]
pub struct WeightTensor {
    /// Rows
    pub rows: usize,
    /// Columns
    pub cols: usize,
    /// Elements, row after row
    pub data: Vec<u32>,
}

/// Bits of `1.0f32`.
pub const ONE_BITS: u32 = 0x3f80_0000;

/// A matrix of `rows` by `cols` whose every element is `fill`.
pub fn filled(rows: usize, cols: usize, fill: u32) -> (r: WeightTensor)
    requires
        fits_in_memory(rows, cols),
    ensures
        r.rows == rows,
        r.cols == cols,
        r.data@ == Seq::new(element_count(rows, cols) as nat, |i: int| fill),
{
    let n = rows * cols;
    let mut data: Vec<u32> = Vec::new();
    let mut i: usize = 0;
    while i < n
        invariant
            i <= n,
            data@ == Seq::new(i as nat, |k: int| fill),
        decreases n - i,
    {
        data.push(fill);
        i = i + 1;
        proof {
            assert(data@ =~= Seq::new(i as nat, |k: int| fill));
        }
    }
    WeightTensor { rows, cols, data }
}

/// Decodes bytes into little-endian words.
pub fn decode_words(bytes: &[u8]) -> (r: Vec<u32>)
    ensures
        r@ == le_words(bytes@),
{
    let n = bytes.len();
    let count: usize = if n % 4 == 0 {
        n / 4
    } else {
        n / 4 + 1
    };
    proof {
        assert(count == (n + 3) / 4);
    }
    let mut out: Vec<u32> = Vec::new();
    let mut k: usize = 0;
    while k < count
        invariant
            n == bytes@.len(),
            count == (n + 3) / 4,
            k <= count,
            out@.len() == k,
            forall|j: int| 0 <= j < k ==> #[trigger] out@[j] == le_words(bytes@)[j],
        decreases count - k,
    {
        let i = 4 * k;
        let w: u32 = if n - i >= 4 {
            (bytes[i] as u32) + 256 * (bytes[i + 1] as u32) + 65536 * (bytes[i + 2] as u32) + 16777216 * (
            bytes[i + 3] as u32)
        } else {
            0
        };
        out.push(w);
        k = k + 1;
    }
    proof {
        assert(out@ =~= le_words(bytes@));
    }
    out
}

/// The matrix a tensor entry gives: its words laid out by its shape when
/// it has a dimension and the word count matches, otherwise zeros of that
/// shape.
pub fn weight_tensor(shape: &[usize], bytes: &[u8]) -> (r: Option<WeightTensor>)
    ensures
        ({
            let (rows, cols) = layout(shape@);
            let words = le_words(bytes@);
            &&& keeps_data(shape@, words) ==> (r matches Some(t) && t.rows == rows && t.cols == cols
                && t.data@ == words)
            &&& !keeps_data(shape@, words) && fits_in_memory(rows, cols) ==> (r matches Some(t)
                && t.rows == rows && t.cols == cols && t.data@ == Seq::new(
                element_count(rows, cols) as nat,
                |i: int| 0u32,
            ))
            &&& !keeps_data(shape@, words) && !fits_in_memory(rows, cols) ==> r is None
        }),
{
    let (rows, cols): (usize, usize) = if shape.len() == 1 {
        (shape[0], 1)
    } else if shape.len() >= 2 {
        (shape[0], shape[1])
    } else {
        (1, 1)
    };
    let words = decode_words(bytes);
    let byte_len = bytes.len();
    proof {
        assert(words@.len() == (byte_len + 3) / 4);
    }
    let count: Option<usize> = rows.checked_mul(cols);
    match count {
        Some(n) => {
            if shape.len() >= 1 && words.len() == n {
                return Some(WeightTensor { rows, cols, data: words });
            }
            let bytes_needed: Option<usize> = n.checked_mul(4);
            match bytes_needed {
                Some(b) => {
                    if b <= isize::MAX as usize {
                        Some(filled(rows, cols, 0))
                    } else {
                        None
                    }
                },
                None => None,
            }
        },
        None => None,
    }
}

impl SafeTensorsLoader {
    /// The tensor `name` of a serialized SafeTensors buffer as a matrix.
    pub fn load_tensor(buffer: &[u8], name: &str) -> (r: MinervaResult<WeightTensor>)
        ensures
            match loaded_tensor(buffer@, name@) {
                Some(t) => r matches Ok(w) && tensor_view(w) == t,
                None => r matches Err(MinervaError::ModelLoadingError(m)) && m@ == load_error(buffer@, name@),
            },
            !header_fits(buffer@) || !safetensors_readable(buffer@) ==> (r matches Err(
                MinervaError::ModelLoadingError(m),
            ) && m@ == "failed to deserialize safetensors"@),
            header_fits(buffer@) && safetensors_readable(buffer@) ==> match safetensors_tensor(buffer@, name@) {
                None => r matches Err(MinervaError::ModelLoadingError(m)) && m@ == "tensor "@ + name@
                    + " not found"@,
                Some(entry) => {
                    let (rows, cols) = layout(entry.0);
                    let words = le_words(entry.1);
                    &&& keeps_data(entry.0, words) ==> (r matches Ok(t) && t.rows == rows
                        && t.cols == cols && t.data@ == words)
                    &&& !keeps_data(entry.0, words) && fits_in_memory(rows, cols) ==> (r matches Ok(
                        t,
                    ) && t.rows == rows && t.cols == cols && t.data@ == Seq::new(
                        element_count(rows, cols) as nat,
                        |i: int| 0u32,
                    ))
                    &&& !keeps_data(entry.0, words) && !fits_in_memory(rows, cols) ==> (r matches Err(
                        MinervaError::ModelLoadingError(m),
                    ) && m@ == "tensor "@ + name@ + " is too large"@)
                },
            },
    {
        if !header_numbers_fit(buffer) {
            return Err(MinervaError::ModelLoadingError(text("failed to deserialize safetensors")));
        }
        match read_entry(buffer, name) {
            TensorEntry::Unreadable => Err(MinervaError::ModelLoadingError(text("failed to deserialize safetensors"))),
            TensorEntry::Missing => {
                let mut m = text("tensor ");
                m.append(name);
                m.append(" not found");
                Err(MinervaError::ModelLoadingError(m))
            },
            TensorEntry::Found(shape, data) => match weight_tensor(shape.as_slice(), data.as_slice()) {
                Some(t) => Ok(t),
                None => {
                    let mut m = text("tensor ");
                    m.append(name);
                    m.append(" is too large");
                    Err(MinervaError::ModelLoadingError(m))
                },
            },
        }
    }

    /// The tensor `name`, or a one-by-one matrix holding `fill` when it
    /// cannot be loaded.
    fn load_or(buffer: &[u8], name: &str, fill: u32) -> (r: WeightTensor)
        ensures
            tensor_view(r) == loaded_or(buffer@, name@, fill),
    {
        match Self::load_tensor(buffer, name) {
            Ok(t) => t,
            Err(_) => {
                let t = filled(1, 1, fill);
                proof {
                    assert(t.data@ =~= seq![fill]);
                }
                t
            },
        }
    }

    /// The token embedding matrix, `model.embed_tokens.weight`.
    pub fn load_embedding(buffer: &[u8]) -> (r: MinervaResult<WeightTensor>)
        ensures
            match loaded_tensor(buffer@, "model.embed_tokens.weight"@) {
                Some(t) => r matches Ok(w) && tensor_view(w) == t,
                None => r matches Err(MinervaError::ModelLoadingError(m)) && m@ == load_error(
                    buffer@,
                    "model.embed_tokens.weight"@,
                ),
            },
    {
        Self::load_tensor(buffer, "model.embed_tokens.weight")
    }

    /// The query, key, value and output projections of layer `layer_idx`,
    /// `model.layers.{layer_idx}.self_attn.{q,k,v,o}_proj.weight`; each that
    /// cannot be loaded is a one-by-one zero matrix.
    pub fn load_attention_projections(buffer: &[u8], layer_idx: usize) -> (r: MinervaResult<AttentionWeights>)
        ensures
            r matches Ok(w) && tensor_view(w.q_proj) == loaded_or(
                buffer@,
                layer_tensor_name(layer_idx, ".self_attn.q_proj.weight"@),
                0,
            ) && tensor_view(w.k_proj) == loaded_or(
                buffer@,
                layer_tensor_name(layer_idx, ".self_attn.k_proj.weight"@),
                0,
            ) && tensor_view(w.v_proj) == loaded_or(
                buffer@,
                layer_tensor_name(layer_idx, ".self_attn.v_proj.weight"@),
                0,
            ) && tensor_view(w.o_proj) == loaded_or(
                buffer@,
                layer_tensor_name(layer_idx, ".self_attn.o_proj.weight"@),
                0,
            ),
    {
        let prefix = text_then_number("model.layers.", layer_idx as u128);
        let mut q = prefix.clone();
        q.append(".self_attn.q_proj.weight");
        let mut k = prefix.clone();
        k.append(".self_attn.k_proj.weight");
        let mut v = prefix.clone();
        v.append(".self_attn.v_proj.weight");
        let mut o = prefix.clone();
        o.append(".self_attn.o_proj.weight");
        Ok(AttentionWeights {
            q_proj: Self::load_or(buffer, q.as_str(), 0),
            k_proj: Self::load_or(buffer, k.as_str(), 0),
            v_proj: Self::load_or(buffer, v.as_str(), 0),
            o_proj: Self::load_or(buffer, o.as_str(), 0),
        })
    }

    /// The feed-forward projections (gating, up, down) of layer `layer_idx`,
    /// `model.layers.{layer_idx}.mlp.{gate,up,down}_proj.weight`; each that
    /// cannot be loaded is a one-by-one zero matrix.
    pub fn load_mlp_weights(buffer: &[u8], layer_idx: usize) -> (r: MinervaResult<MLPWeights>)
        ensures
            r matches Ok(w) && tensor_view(w.gate_proj) == loaded_or(
                buffer@,
                layer_tensor_name(layer_idx, ".mlp.gate_proj.weight"@),
                0,
            ) && tensor_view(w.up_proj) == loaded_or(buffer@, layer_tensor_name(layer_idx, ".mlp.up_proj.weight"@), 0)
                && tensor_view(w.down_proj) == loaded_or(
                buffer@,
                layer_tensor_name(layer_idx, ".mlp.down_proj.weight"@),
                0,
            ),
    {
        let prefix = text_then_number("model.layers.", layer_idx as u128);
        let mut g = prefix.clone();
        g.append(".mlp.gate_proj.weight");
        let mut u = prefix.clone();
        u.append(".mlp.up_proj.weight");
        let mut d = prefix.clone();
        d.append(".mlp.down_proj.weight");
        Ok(MLPWeights {
            gate_proj: Self::load_or(buffer, g.as_str(), 0),
            up_proj: Self::load_or(buffer, u.as_str(), 0),
            down_proj: Self::load_or(buffer, d.as_str(), 0),
        })
    }

    /// The two normalisation weights of layer `layer_idx`,
    /// `input_layernorm` and `post_attention_layernorm`; each that cannot be
    /// loaded is a one-by-one matrix of ones.
    pub fn load_norm_weights(buffer: &[u8], layer_idx: usize) -> (r: MinervaResult<(WeightTensor, WeightTensor)>)
        ensures
            r matches Ok(w) && tensor_view(w.0) == loaded_or(
                buffer@,
                layer_tensor_name(layer_idx, ".input_layernorm.weight"@),
                ONE_BITS,
            ) && tensor_view(w.1) == loaded_or(
                buffer@,
                layer_tensor_name(layer_idx, ".post_attention_layernorm.weight"@),
                ONE_BITS,
            ),
    {
        let prefix = text_then_number("model.layers.", layer_idx as u128);
        let mut a = prefix.clone();
        a.append(".input_layernorm.weight");
        let mut f = prefix.clone();
        f.append(".post_attention_layernorm.weight");
        Ok((Self::load_or(buffer, a.as_str(), ONE_BITS), Self::load_or(buffer, f.as_str(), ONE_BITS)))
    }

    /// The final normalisation weight, `model.norm.weight` (ones when it
    /// cannot be loaded), and the output head, `lm_head.weight` (zeros when
    /// it cannot be loaded).
    pub fn load_final_weights(buffer: &[u8]) -> (r: MinervaResult<(WeightTensor, WeightTensor)>)
        ensures
            r matches Ok(w) && tensor_view(w.0) == loaded_or(buffer@, "model.norm.weight"@, ONE_BITS) && tensor_view(
                w.1,
            ) == loaded_or(buffer@, "lm_head.weight"@, 0),
    {
        let norm = Self::load_or(buffer, "model.norm.weight", ONE_BITS);
        let lm_head = Self::load_or(buffer, "lm_head.weight", 0);
        Ok((norm, lm_head))
    }
}

/// Loads the weight matrices of a model stored in the SafeTensors format.
#[derive(Debug, Clone, Copy)]
pub struct SafeTensorsLoader;

} // verus!
