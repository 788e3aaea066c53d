//! GGUF metadata entries: one key and its typed value, read from the bytes
//! of a file, and the model configuration that the entries describe.
use vstd::prelude::*;
use vstd::utf8::{decode_utf8, valid_utf8};

use crate::error::{text, MinervaError, MinervaResult};
use crate::model_formats::{loading_err, GGUFLoader, ModelConfig};
use crate::util::str_eq;

verus! {

/// A metadata value. A 32-bit float is held as its IEEE-754 bit pattern.
#[derive(Debug, Clone)]
pub enum GGUFValue {
    /// Unsigned byte
    U8(u8),
    /// Signed byte
    I8(i8),
    /// Unsigned 16-bit integer
    U16(u16),
    /// Signed 16-bit integer
    I16(i16),
    /// Unsigned 32-bit integer
    U32(u32),
    /// Signed 32-bit integer
    I32(i32),
    /// Bit pattern of a 32-bit float
    F32(u32),
    /// Boolean
    Bool(bool),
    /// Text
    String(String),
    /// A value of a type this reader does not know
    Unknown,
}

/// Byte `i` of `b`, or zero past its end: a read that runs out of input
/// leaves the rest of its buffer zeroed.
pub open spec fn byte_or_zero(b: Seq<u8>, i: int) -> u8 {
    if 0 <= i < b.len() {
        b[i]
    } else {
        0
    }
}

/// `n` bytes of `b` from `start`, zeros standing for those past its end.
pub open spec fn padded(b: Seq<u8>, start: int, n: nat) -> Seq<u8> {
    Seq::new(n, |k: int| byte_or_zero(b, start + k))
}

/// The text that UTF-8 `bytes` decode to, or `default` when they are not
/// valid UTF-8.
pub open spec fn text_or(bytes: Seq<u8>, default: Seq<char>) -> Seq<char> {
    if valid_utf8(bytes) {
        decode_utf8(bytes)
    } else {
        default
    }
}

/// The number two bytes give, least significant first.
pub open spec fn le_u16(b0: u8, b1: u8) -> u16 {
    (b0 + 256 * b1) as u16
}

/// The number four bytes give, least significant first.
pub open spec fn le_u32(b0: u8, b1: u8, b2: u8, b3: u8) -> u32 {
    (b0 + 256 * b1 + 65536 * b2 + 16777216 * b3) as u32
}

/// Little-endian `u16` at `p`, zeros past the end.
pub open spec fn u16_at(b: Seq<u8>, p: int) -> u16 {
    le_u16(byte_or_zero(b, p), byte_or_zero(b, p + 1))
}

/// Little-endian `u32` at `p`, zeros past the end.
pub open spec fn u32_at(b: Seq<u8>, p: int) -> u32 {
    le_u32(byte_or_zero(b, p), byte_or_zero(b, p + 1), byte_or_zero(b, p + 2), byte_or_zero(b, p + 3))
}

/// How many bytes a value of type `ty` whose encoding starts at `p` takes.
pub open spec fn value_width(b: Seq<u8>, ty: u32, p: int) -> int {
    if ty == 0 || ty == 1 || ty == 7 {
        1
    } else if ty == 2 || ty == 3 {
        2
    } else if ty == 4 || ty == 5 || ty == 6 {
        4
    } else if ty == 8 {
        4 + u32_at(b, p)
    } else {
        0
    }
}

/// `v` is the value of type `ty` encoded at `p`.
pub open spec fn value_read(v: GGUFValue, b: Seq<u8>, ty: u32, p: int) -> bool {
    if ty == 0 {
        v == GGUFValue::U8(byte_or_zero(b, p))
    } else if ty == 1 {
        v == GGUFValue::I8(byte_or_zero(b, p) as i8)
    } else if ty == 2 {
        v == GGUFValue::U16(u16_at(b, p))
    } else if ty == 3 {
        v == GGUFValue::I16(u16_at(b, p) as i16)
    } else if ty == 4 {
        v == GGUFValue::U32(u32_at(b, p))
    } else if ty == 5 {
        v == GGUFValue::I32(u32_at(b, p) as i32)
    } else if ty == 6 {
        v == GGUFValue::F32(u32_at(b, p))
    } else if ty == 7 {
        v == GGUFValue::Bool(byte_or_zero(b, p) != 0)
    } else if ty == 8 {
        v matches GGUFValue::String(s) && s@ == text_or(padded(b, p + 4, u32_at(b, p) as nat), Seq::empty())
    } else {
        v is Unknown
    }
}

/// Why the entry at `pos` cannot be read, if it cannot.
pub open spec fn entry_error(b: Seq<u8>, pos: int) -> Option<Seq<char>> {
    let key_len = u32_at(b, pos);
    if pos + 4 > b.len() {
        Some("Failed to read key length"@)
    } else if pos + 4 + key_len > b.len() {
        Some("Failed to read key"@)
    } else if pos + 8 + key_len > b.len() {
        Some("Failed to read value type"@)
    } else {
        None
    }
}

/// The decoded key of the entry at `pos`.
pub open spec fn entry_key(b: Seq<u8>, pos: int) -> Seq<char> {
    text_or(b.subrange(pos + 4, pos + 4 + u32_at(b, pos)), "invalid_key"@)
}

/// The type tag of the entry at `pos`.
pub open spec fn entry_type(b: Seq<u8>, pos: int) -> u32 {
    u32_at(b, pos + 4 + u32_at(b, pos))
}

/// Where the value of the entry at `pos` starts.
pub open spec fn entry_value_start(b: Seq<u8>, pos: int) -> int {
    pos + 8 + u32_at(b, pos)
}

/// Where reading stops after the entry at `pos`: the end of its value, or
/// the end of the input if the value runs past it.
pub open spec fn entry_end(b: Seq<u8>, pos: int) -> int {
    let e = entry_value_start(b, pos) + value_width(b, entry_type(b, pos), entry_value_start(b, pos));
    if e <= b.len() {
        e
    } else {
        b.len() as int
    }
}

/// Decodes UTF-8 bytes.
///
/// Trusted: calls std's `String::from_utf8`, which succeeds exactly on valid
/// UTF-8 and then holds the characters the bytes encode.
#[verifier::external_body]
pub(crate) fn utf8_string(bytes: Vec<u8>) -> (r: Option<String>)
    ensures
        r is Some <==> valid_utf8(bytes@),
        r matches Some(s) ==> s@ == decode_utf8(bytes@),
{
    String::from_utf8(bytes).ok()
}

/// `n` bytes of `b` from `start`, zeros past its end.
fn padded_bytes(b: &[u8], start: usize, n: usize) -> (r: Vec<u8>)
    ensures
        r@ == padded(b@, start as int, n as nat),
{
    let mut out: Vec<u8> = Vec::new();
    let mut k: usize = 0;
    while k < n
        invariant
            k <= n,
            out@.len() == k,
            forall|j: int| 0 <= j < k ==> out@[j] == byte_or_zero(b@, start + j),
        decreases n - k,
    {
        if start < b.len() && k < b.len() - start {
            out.push(b[start + k]);
        } else {
            out.push(0);
        }
        k = k + 1;
    }
    proof {
        assert(out@ =~= padded(b@, start as int, n as nat));
    }
    out
}

/// Position `p + n`, or the end of the input if that lies past it.
fn advance(p: usize, n: usize, len: usize) -> (r: usize)
    requires
        p <= len,
    ensures
        r == (if p + n <= len { p + n } else { len as int }),
{
    if n <= len - p {
        p + n
    } else {
        len
    }
}

/// Padded reads from past the end of the input read zeros wherever they
/// start.
proof fn lemma_padded_past_end(b: Seq<u8>, start: int, n: nat)
    requires
        start >= b.len(),
    ensures
        padded(b, start, n) == padded(b, b.len() as int, n),
{
    assert(padded(b, start, n) =~= padded(b, b.len() as int, n));
}

/// Little-endian `u16` at `p`, zeros past the end.
fn read_u16(b: &[u8], p: usize) -> (r: u16)
    ensures
        r == u16_at(b@, p as int),
{
    let v = padded_bytes(b, p, 2);
    assert(v@[0] == byte_or_zero(b@, p as int) && v@[1] == byte_or_zero(b@, p + 1));
    (v[0] as u16) + 256 * (v[1] as u16)
}

/// Little-endian `u32` at `p`, zeros past the end.
fn read_u32(b: &[u8], p: usize) -> (r: u32)
    ensures
        r == u32_at(b@, p as int),
{
    let v = padded_bytes(b, p, 4);
    assert(v@[0] == byte_or_zero(b@, p as int) && v@[1] == byte_or_zero(b@, p + 1)
        && v@[2] == byte_or_zero(b@, p + 2) && v@[3] == byte_or_zero(b@, p + 3));
    (v[0] as u32) + 256 * (v[1] as u32) + 65536 * (v[2] as u32) + 16777216 * (v[3] as u32)
}

/// Decodes bytes as UTF-8, or gives `default` when they are not valid.
fn text_or_default(bytes: Vec<u8>, default: &str) -> (r: String)
    ensures
        r@ == text_or(bytes@, default@),
{
    match utf8_string(bytes) {
        Some(s) => s,
        None => text(default),
    }
}

/// Reads the value of type `ty` whose encoding starts at `p`.
fn read_value(b: &[u8], ty: u32, p: usize) -> (r: GGUFValue)
    requires
        p <= b@.len(),
    ensures
        value_read(r, b@, ty, p as int),
{
    if ty == 0 {
        let v = padded_bytes(b, p, 1);
        assert(v@[0] == byte_or_zero(b@, p as int));
        GGUFValue::U8(v[0])
    } else if ty == 1 {
        let v = padded_bytes(b, p, 1);
        assert(v@[0] == byte_or_zero(b@, p as int));
        GGUFValue::I8(v[0] as i8)
    } else if ty == 2 {
        GGUFValue::U16(read_u16(b, p))
    } else if ty == 3 {
        GGUFValue::I16(read_u16(b, p) as i16)
    } else if ty == 4 {
        GGUFValue::U32(read_u32(b, p))
    } else if ty == 5 {
        GGUFValue::I32(read_u32(b, p) as i32)
    } else if ty == 6 {
        GGUFValue::F32(read_u32(b, p))
    } else if ty == 7 {
        let v = padded_bytes(b, p, 1);
        assert(v@[0] == byte_or_zero(b@, p as int));
        GGUFValue::Bool(v[0] != 0)
    } else if ty == 8 {
        let str_len = read_u32(b, p);
        let start = advance(p, 4, b.len());
        proof {
            if p + 4 > b@.len() {
                lemma_padded_past_end(b@, p + 4, str_len as nat);
            }
        }
        let bytes = padded_bytes(b, start, str_len as usize);
        let t = text_or_default(bytes, "");
        proof {
            reveal_strlit("");
            assert(""@ =~= Seq::<char>::empty());
            assert(bytes@ == padded(b@, p + 4, u32_at(b@, p as int) as nat));
        }
        GGUFValue::String(t)
    } else {
        GGUFValue::Unknown
    }
}

impl GGUFLoader {
    /// Reads the metadata entry at `pos`: a length-prefixed key, a type tag
    /// and a value of that type, all little-endian. Returns the key (or
    /// "invalid_key" if it is not UTF-8), the value and where the next entry
    /// starts. Bytes of the value past the end of the input read as zeros.
    pub fn read_metadata_kv(bytes: &[u8], pos: usize) -> (r: MinervaResult<(String, GGUFValue, usize)>)
        requires
            pos <= bytes@.len(),
        ensures
            match entry_error(bytes@, pos as int) {
                Some(msg) => loading_err(r, msg),
                None => r matches Ok((key, value, next)) && key@ == entry_key(bytes@, pos as int)
                    && value_read(value, bytes@, entry_type(bytes@, pos as int), entry_value_start(
                    bytes@,
                    pos as int,
                )) && next == entry_end(bytes@, pos as int),
            },
    {
        if bytes.len() - pos < 4 {
            return Err(MinervaError::ModelLoadingError(text("Failed to read key length")));
        }
        let key_len = read_u32(bytes, pos);
        let key_start = pos + 4;
        if bytes.len() - key_start < key_len as usize {
            return Err(MinervaError::ModelLoadingError(text("Failed to read key")));
        }
        let key_end = key_start + key_len as usize;
        if bytes.len() - key_end < 4 {
            return Err(MinervaError::ModelLoadingError(text("Failed to read value type")));
        }
        let key_bytes = padded_bytes(bytes, key_start, key_len as usize);
        proof {
            assert(key_bytes@ =~= bytes@.subrange(key_start as int, key_end as int));
        }
        let key = text_or_default(key_bytes, "invalid_key");
        let value_type = read_u32(bytes, key_end);
        let value_start = key_end + 4;
        let value = read_value(bytes, value_type, value_start);
        let width: usize = if value_type == 0 || value_type == 1 || value_type == 7 {
            1
        } else if value_type == 2 || value_type == 3 {
            2
        } else if value_type == 4 || value_type == 5 || value_type == 6 {
            4
        } else if value_type == 8 {
            let str_len = read_u32(bytes, value_start);
            if str_len as usize <= usize::MAX - 4 {
                4 + str_len as usize
            } else {
                usize::MAX
            }
        } else {
            0
        };
        let next = advance(value_start, width, bytes.len());
        Ok((key, value, next))
    }

    /// The configuration that GGUF metadata entries describe: the model
    /// name and architecture of GPT-OSS-20B, the sizes read from their keys
    /// (zero where a key is missing or not an integer) and a context of 4096.
    pub fn extract_config(metadata: &Vec<(String, GGUFValue)>) -> (r: MinervaResult<ModelConfig>)
        ensures
            r matches Ok(c) && c.model_name@ == "GPT-OSS-20B"@ && c.hidden_size == metadata_usize(
                metadata@,
                "gpt_oss.embedding_length"@,
            ) && c.num_layers == metadata_usize(metadata@, "gpt_oss.block_count"@)
                && c.num_attention_heads == metadata_usize(metadata@, "gpt_oss.attention.head_count"@)
                && c.num_kv_heads == Some(metadata_usize(metadata@, "gpt_oss.attention.head_count_kv"@))
                && c.vocab_size == metadata_usize(metadata@, "tokenizer.ggml.vocab_size"@)
                && c.intermediate_size == metadata_usize(metadata@, "gpt_oss.feed_forward_length"@)
                && c.max_sequence_length == 4096 && c.architectures@.len() == 1
                && c.architectures@[0]@ == "GptOssForCausalLM"@,
    {
        let hidden_size = get_usize(metadata, "gpt_oss.embedding_length");
        let num_layers = get_usize(metadata, "gpt_oss.block_count");
        let num_attention_heads = get_usize(metadata, "gpt_oss.attention.head_count");
        let num_kv_heads = get_usize(metadata, "gpt_oss.attention.head_count_kv");
        let vocab_size = get_usize(metadata, "tokenizer.ggml.vocab_size");
        let intermediate_size = get_usize(metadata, "gpt_oss.feed_forward_length");
        let mut architectures: Vec<String> = Vec::new();
        architectures.push(text("GptOssForCausalLM"));
        Ok(
            ModelConfig {
                model_name: text("GPT-OSS-20B"),
                hidden_size,
                num_layers,
                num_attention_heads,
                num_kv_heads: Some(num_kv_heads),
                vocab_size,
                intermediate_size,
                max_sequence_length: 4096,
                architectures,
            },
        )
    }
}

/// The value stored under `key`: the last entry with that key, as a map
/// filled entry by entry keeps it.
pub open spec fn metadata_lookup(m: Seq<(String, GGUFValue)>, key: Seq<char>) -> Option<GGUFValue>
    decreases m.len(),
{
    if m.len() == 0 {
        None
    } else if m.last().0@ == key {
        Some(m.last().1)
    } else {
        metadata_lookup(m.drop_last(), key)
    }
}

/// The integer stored under `key` as a `usize`, or zero when there is none.
pub open spec fn metadata_usize(m: Seq<(String, GGUFValue)>, key: Seq<char>) -> usize {
    match metadata_lookup(m, key) {
        Some(GGUFValue::U32(n)) => n as usize,
        Some(GGUFValue::I32(n)) => n as usize,
        _ => 0,
    }
}

/// The integer stored under `key`, or zero.
fn get_usize(metadata: &Vec<(String, GGUFValue)>, key: &str) -> (r: usize)
    ensures
        r == metadata_usize(metadata@, key@),
{
    let mut i: usize = metadata.len();
    proof {
        assert(metadata@.subrange(0, i as int) =~= metadata@);
    }
    while i > 0
        invariant
            i <= metadata@.len(),
            metadata_lookup(metadata@, key@) == metadata_lookup(metadata@.subrange(0, i as int), key@),
        decreases i,
    {
        let ghost pre = metadata@.subrange(0, i as int);
        proof {
            assert(pre.drop_last() =~= metadata@.subrange(0, i - 1));
            assert(pre.last() == metadata@[i - 1]);
        }
        if str_eq(metadata[i - 1].0.as_str(), key) {
            return match &metadata[i - 1].1 {
                GGUFValue::U32(n) => *n as usize,
                GGUFValue::I32(n) => *n as usize,
                _ => 0,
            };
        }
        i = i - 1;
    }
    0
}

/// Numeric metadata values are their bytes read least significant first:
/// one byte for types 0, 1 and 7, two for types 2 and 3, four for types 4, 5
/// and 6, with the signed types holding the same bits as the unsigned ones
/// and zeros standing for bytes past the end of the input.
pub proof fn lemma_values_little_endian(v: GGUFValue, b: Seq<u8>, ty: u32, p: int)
    requires
        value_read(v, b, ty, p),
    ensures
        ty == 0 ==> (v matches GGUFValue::U8(x) && x == byte_or_zero(b, p)),
        ty == 1 ==> (v matches GGUFValue::I8(x) && x as u8 == byte_or_zero(b, p)),
        ty == 2 ==> (v matches GGUFValue::U16(x) && x == byte_or_zero(b, p) + 256 * byte_or_zero(b, p + 1)),
        ty == 3 ==> (v matches GGUFValue::I16(x) && x as u16 == byte_or_zero(b, p) + 256 * byte_or_zero(b, p + 1)),
        ty == 4 ==> (v matches GGUFValue::U32(x) && x == byte_or_zero(b, p) + 256 * byte_or_zero(b, p + 1)
            + 65536 * byte_or_zero(b, p + 2) + 16777216 * byte_or_zero(b, p + 3)),
        ty == 5 ==> (v matches GGUFValue::I32(x) && x as u32 == byte_or_zero(b, p) + 256 * byte_or_zero(b, p + 1)
            + 65536 * byte_or_zero(b, p + 2) + 16777216 * byte_or_zero(b, p + 3)),
        ty == 6 ==> (v matches GGUFValue::F32(x) && x == byte_or_zero(b, p) + 256 * byte_or_zero(b, p + 1)
            + 65536 * byte_or_zero(b, p + 2) + 16777216 * byte_or_zero(b, p + 3)),
        ty == 7 ==> (v matches GGUFValue::Bool(x) && x == (byte_or_zero(b, p) != 0)),
{
    let b0 = byte_or_zero(b, p);
    let b1 = byte_or_zero(b, p + 1);
    let b2 = byte_or_zero(b, p + 2);
    let b3 = byte_or_zero(b, p + 3);
    assert(b0 + 256 * b1 <= u16::MAX);
    assert(b0 + 256 * b1 + 65536 * b2 + 16777216 * b3 <= u32::MAX);
    if ty == 1 {
        assert(((b0 as i8) as u8) == b0) by (bit_vector);
    }
    if ty == 3 {
        let y = u16_at(b, p);
        assert(((y as i16) as u16) == y) by (bit_vector);
    }
    if ty == 5 {
        let y = u32_at(b, p);
        assert(((y as i32) as u32) == y) by (bit_vector);
    }
}

} // verus!
