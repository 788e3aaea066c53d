//! Batched tokenization requests and responses.
use vstd::prelude::*;

use crate::time::{elapsed_nanos, Instant};
use crate::error::text;
use crate::util::{chars_of, push_char, reversed};
use vstd::string::StringSliceAdditionalSpecFns;
use vstd::utf8::{encode_utf8, valid_utf8};

verus! {

/// One item of a batch.
#[derive(Debug, Clone)]
pub struct BatchItem<T> {
    /// Item identifier
    pub id: String,
    /// Payload
    pub data: T,
}

impl<T> BatchItem<T> {
    /// New batch item.
    pub fn new(id: String, data: T) -> (r: Self)
        ensures
            r.id == id,
            r.data == data,
    {
        BatchItem { id, data }
    }
}

/// The answer to one batch item.
#[derive(Debug, Clone)]
pub struct BatchResponse<T> {
    /// Identifier of the item answered
    pub id: String,
    /// Result
    pub data: T,
    /// Time spent on the item in ms
    pub duration_ms: u128,
}

impl<T> BatchResponse<T> {
    /// New response.
    pub fn new(id: String, data: T, duration_ms: u128) -> (r: Self)
        ensures
            r.id == id,
            r.data == data,
            r.duration_ms == duration_ms,
    {
        BatchResponse { id, data, duration_ms }
    }
}

/// A text to tokenize.
#[derive(Debug, Clone)]
pub struct TokenizeBatchRequest {
    /// The text
    pub text: String,
}

/// Tokens of a text.
#[derive(Debug, Clone)]
pub struct TokenizeBatchResponse {
    /// Token IDs
    pub tokens: Vec<u32>,
    /// Number of tokens
    pub count: usize,
}

/// Tokens to turn back into text.
#[derive(Debug, Clone)]
pub struct DetokenizeBatchRequest {
    /// Token IDs
    pub tokens: Vec<u32>,
}

/// Text of a token list.
#[derive(Debug, Clone)]
pub struct DetokenizeBatchResponse {
    /// The text
    pub text: String,
}

/// Text generated for one request.
#[derive(Debug, Clone)]
pub struct InferenceBatchResponse {
    /// Generated text
    pub text: String,
    /// Tokens generated
    pub tokens_generated: usize,
}

/// The tokens the batch tokenizer gives a text: one per character, numbered
/// from zero.
pub open spec fn index_tokens(n: nat) -> Seq<u32> {
    Seq::new(n, |i: int| i as u32)
}

/// Whether a code point is a Unicode scalar value.
pub open spec fn is_scalar_value(code: u32) -> bool {
    code <= 0x10FFFF && !(0xD800 <= code <= 0xDFFF)
}

/// The text the batch tokenizer gives a token list: each ID that is a Unicode
/// scalar value, as a character; the others are dropped.
pub open spec fn scalar_text(ids: Seq<u32>) -> Seq<char>
    decreases ids.len(),
{
    if ids.len() == 0 {
        Seq::empty()
    } else {
        scalar_text(ids.drop_last()) + if is_scalar_value(ids.last()) {
            seq![ids.last() as char]
        } else {
            Seq::empty()
        }
    }
}

/// The character with code `code`, if it is one.
///
/// Trusted: calls std's `char::from_u32`, which returns the character exactly
/// for Unicode scalar values.
#[verifier::external_body]
fn char_from_code(code: u32) -> (r: Option<char>)
    ensures
        is_scalar_value(code) ==> r == Some(code as char),
        !is_scalar_value(code) ==> r is None,
{
    char::from_u32(code)
}

/// Tokens for one text.
pub fn tokenize_text(text: &str) -> (r: TokenizeBatchResponse)
    ensures
        r.tokens@ == index_tokens(text@.len()),
        r.count == text@.len(),
{
    let cs = chars_of(text);
    let mut tokens: Vec<u32> = Vec::new();
    let mut i: usize = 0;
    while i < cs.len()
        invariant
            i <= cs@.len(),
            cs@ == text@,
            tokens@ == index_tokens(i as nat),
        decreases cs@.len() - i,
    {
        tokens.push(i as u32);
        i = i + 1;
        proof {
            assert(tokens@ =~= index_tokens(i as nat));
        }
    }
    let count = tokens.len();
    TokenizeBatchResponse { tokens, count }
}

/// Text for one token list.
pub fn detokenize_ids(tokens: &Vec<u32>) -> (r: DetokenizeBatchResponse)
    ensures
        r.text@ == scalar_text(tokens@),
{
    let mut text = String::new();
    let mut i: usize = 0;
    while i < tokens.len()
        invariant
            i <= tokens@.len(),
            text@ == scalar_text(tokens@.subrange(0, i as int)),
        decreases tokens@.len() - i,
    {
        proof {
            assert(tokens@.subrange(0, i + 1).drop_last() =~= tokens@.subrange(0, i as int));
        }
        match char_from_code(tokens[i]) {
            Some(c) => {
                push_char(&mut text, c);
            },
            None => {},
        }
        i = i + 1;
        proof {
            assert(text@ =~= scalar_text(tokens@.subrange(0, i as int)));
        }
    }
    proof {
        assert(tokens@.subrange(0, i as int) =~= tokens@);
    }
    DetokenizeBatchResponse { text }
}

/// Whole milliseconds from `earlier` to `later`, zero when `later` comes
/// first.
pub open spec fn elapsed_millis(earlier: Instant, later: Instant) -> int {
    elapsed_nanos(earlier, later) / 1_000_000
}

/// Milliseconds from `start` to now: those from `start` to a reading of
/// the clock.
fn millis_since(start: Instant) -> (r: u128)
    requires
        start.wf(),
    ensures
        exists|now: Instant| now.wf() && r == #[trigger] elapsed_millis(start, now),
{
    let now = Instant::now();
    let r = now.duration_since(start).as_millis();
    assert(r == elapsed_millis(start, now));
    r
}

/// The last position whose id is `id`, as an index filled position by
/// position (each id keeping the latest position) gives back.
pub open spec fn last_position(ids: Seq<String>, id: Seq<char>) -> Option<int>
    decreases ids.len(),
{
    if ids.len() == 0 {
        None
    } else if ids.last()@ == id {
        Some(ids.len() - 1)
    } else {
        last_position(ids.drop_last(), id)
    }
}

/// Position of the response for request `id` among responses whose request
/// ids are `ids`; the latest one when an id repeats.
pub fn response_position(ids: &Vec<String>, id: &str) -> (r: Option<usize>)
    ensures
        match last_position(ids@, id@) {
            Some(i) => r == Some(i as usize),
            None => r is None,
        },
{
    let mut i: usize = ids.len();
    proof {
        assert(ids@.subrange(0, i as int) =~= ids@);
    }
    while i > 0
        invariant
            i <= ids@.len(),
            last_position(ids@, id@) == last_position(ids@.subrange(0, i as int), id@),
        decreases i,
    {
        let ghost pre = ids@.subrange(0, i as int);
        proof {
            assert(pre.drop_last() =~= ids@.subrange(0, i - 1));
            assert(pre.last() == ids@[i - 1]);
        }
        if crate::util::str_eq(ids[i - 1].as_str(), id) {
            return Some(i - 1);
        }
        i = i - 1;
    }
    None
}

/// Whether `id` is the id of one of `ids`.
pub open spec fn has_id(ids: Seq<String>, id: Seq<char>) -> bool {
    exists|i: int| 0 <= i < ids.len() && ids[i]@ == id
}

/// Number of different ids among `ids`, as an index keyed by id holds.
pub open spec fn distinct_ids(ids: Seq<String>) -> nat
    decreases ids.len(),
{
    if ids.len() == 0 {
        0
    } else if has_id(ids.drop_last(), ids.last()@) {
        distinct_ids(ids.drop_last())
    } else {
        distinct_ids(ids.drop_last()) + 1
    }
}

/// Number of different ids among `ids`.
pub fn distinct_count(ids: &Vec<String>) -> (r: usize)
    ensures
        r == distinct_ids(ids@),
{
    let mut count: usize = 0;
    let mut i: usize = 0;
    while i < ids.len()
        invariant
            i <= ids@.len(),
            count == distinct_ids(ids@.take(i as int)),
            count <= i,
        decreases ids@.len() - i,
    {
        let mut seen = false;
        let mut j: usize = 0;
        while j < i
            invariant
                j <= i,
                i < ids@.len(),
                seen <==> exists|k: int| 0 <= k < j && ids@[k]@ == ids@[i as int]@,
            decreases i - j,
        {
            if crate::util::str_eq(ids[j].as_str(), ids[i].as_str()) {
                seen = true;
            }
            j = j + 1;
        }
        proof {
            let pre = ids@.take(i + 1);
            assert(pre.drop_last() =~= ids@.take(i as int));
            assert(pre.last() == ids@[i as int]);
            if seen {
                let k = choose|k: int| 0 <= k < i && ids@[k]@ == ids@[i as int]@;
                assert(ids@.take(i as int)[k] == ids@[k]);
            } else {
                assert forall|k: int| 0 <= k < ids@.take(i as int).len() implies ids@.take(i as int)[k]@ != ids@[i as int]@ by {
                    assert(ids@.take(i as int)[k] == ids@[k]);
                }
            }
        }
        if !seen {
            count = count + 1;
        }
        i = i + 1;
    }
    proof {
        assert(ids@.take(i as int) =~= ids@);
    }
    count
}

/// A prompt for the batch engine, with the number of tokens its reply
/// reports.
#[derive(Debug, Clone)]
pub struct InferencePrompt {
    /// Prompt text
    pub prompt: String,
    /// Tokens the reply reports
    pub tokens_generated: usize,
}

/// The prompt's first twenty bytes (all of them when there are fewer) end
/// on a character boundary.
pub open spec fn quotable(prompt: Seq<char>) -> bool {
    encode_utf8(prompt).len() < 20 || vstd::utf8::is_char_boundary(encode_utf8(prompt), 20)
}

/// The batch engine's reply to a prompt: "Response to: " and the prompt's
/// first twenty bytes, or all of them when there are fewer.
pub open spec fn reply_to(prompt: Seq<char>) -> Seq<char> {
    let bytes = encode_utf8(prompt);
    "Response to: "@ + vstd::utf8::decode_utf8(bytes.subrange(0, if bytes.len() < 20 { bytes.len() as int } else { 20 }))
}

/// Bytes of the prompt the batch engine quotes: the first twenty, or all
/// of them when there are fewer.
pub open spec fn quoted_len(prompt: &str) -> int {
    if prompt.spec_bytes().len() < 20 {
        prompt.spec_bytes().len() as int
    } else {
        20
    }
}

/// Text of a batch inference reply: "Response to: " and the first twenty
/// bytes of the prompt, which must end on a character boundary.
pub fn batch_reply_text(prompt: &str) -> (r: String)
    requires
        prompt.spec_bytes().len() < 20 || vstd::utf8::is_char_boundary(prompt.spec_bytes(), 20),
    ensures
        r@ == "Response to: "@ + vstd::utf8::decode_utf8(prompt.spec_bytes().subrange(0, quoted_len(prompt))),
{
    broadcast use vstd::utf8::encode_utf8_valid_utf8, vstd::utf8::encode_utf8_decode_utf8, vstd::utf8::is_char_boundary_start_end_of_seq;

    let n = prompt.as_bytes().len();
    let k = if n < 20 { n } else { 20 };
    proof {
        assert(valid_utf8(prompt.spec_bytes()));
        assert(n == prompt.spec_bytes().len());
        if n < 20 {
            assert(vstd::utf8::is_char_boundary(prompt.spec_bytes(), prompt.spec_bytes().len() as int));
        }
        assert(vstd::utf8::is_char_boundary(prompt.spec_bytes(), k as int));
        assert(k == quoted_len(prompt));
    }
    let (head, _rest) = prompt.split_at(k);
    proof {
        assert(head.spec_bytes() == vstd::utf8::encode_utf8(head@));
        assert(vstd::utf8::decode_utf8(vstd::utf8::encode_utf8(head@)) == head@);
    }
    let mut out = text("Response to: ");
    out.append(head);
    out
}

/// Tokenizes batches of texts.
#[derive(Debug, Clone, Copy)]
pub struct BatchTokenizer;

impl BatchTokenizer {
    /// New tokenizer.
    pub fn new() -> Self {
        BatchTokenizer
    }

    /// Tokenizes each text; the answers keep the items' order and identifiers.
    pub fn encode_batch(&self, requests: Vec<BatchItem<TokenizeBatchRequest>>) -> (r: Vec<BatchResponse<TokenizeBatchResponse>>)
        ensures
            r@.len() == requests@.len(),
            forall|i: int| 0 <= i < requests@.len() ==> {
                &&& (#[trigger] r@[i]).id == requests@[i].id
                &&& r@[i].data.tokens@ == index_tokens(requests@[i].data.text@.len())
                &&& r@[i].data.count == requests@[i].data.text@.len()
            },
    {
        let n = requests.len();
        let ghost all = requests@;
        let mut rest = reversed(requests);
        let mut out: Vec<BatchResponse<TokenizeBatchResponse>> = Vec::new();
        while rest.len() > 0
            invariant
                out@.len() + rest@.len() == n,
                n == all.len(),
                forall|j: int| 0 <= j < rest@.len() ==> #[trigger] rest@[j] == all[n - 1 - j],
                forall|i: int| 0 <= i < out@.len() ==> {
                    &&& (#[trigger] out@[i]).id == all[i].id
                    &&& out@[i].data.tokens@ == index_tokens(all[i].data.text@.len())
                    &&& out@[i].data.count == all[i].data.text@.len()
                },
            decreases rest@.len(),
        {
            let ghost k = out@.len();
            let req = rest.pop().unwrap();
            proof {
                assert(req == all[k as int]);
            }
            let start = Instant::now();
            let data = tokenize_text(req.data.text.as_str());
            let duration = millis_since(start);
            out.push(BatchResponse::new(req.id, data, duration));
        }
        out
    }

    /// Turns each token list back into text; the answers keep the items'
    /// order and identifiers.
    pub fn decode_batch(&self, requests: Vec<BatchItem<DetokenizeBatchRequest>>) -> (r: Vec<BatchResponse<DetokenizeBatchResponse>>)
        ensures
            r@.len() == requests@.len(),
            forall|i: int| 0 <= i < requests@.len() ==> {
                &&& (#[trigger] r@[i]).id == requests@[i].id
                &&& r@[i].data.text@ == scalar_text(requests@[i].data.tokens@)
            },
    {
        let n = requests.len();
        let ghost all = requests@;
        let mut rest = reversed(requests);
        let mut out: Vec<BatchResponse<DetokenizeBatchResponse>> = Vec::new();
        while rest.len() > 0
            invariant
                out@.len() + rest@.len() == n,
                n == all.len(),
                forall|j: int| 0 <= j < rest@.len() ==> #[trigger] rest@[j] == all[n - 1 - j],
                forall|i: int| 0 <= i < out@.len() ==> {
                    &&& (#[trigger] out@[i]).id == all[i].id
                    &&& out@[i].data.text@ == scalar_text(all[i].data.tokens@)
                },
            decreases rest@.len(),
        {
            let ghost k = out@.len();
            let req = rest.pop().unwrap();
            proof {
                assert(req == all[k as int]);
            }
            let start = Instant::now();
            let data = detokenize_ids(&req.data.tokens);
            let duration = millis_since(start);
            out.push(BatchResponse::new(req.id, data, duration));
        }
        out
    }

    /// Largest batch accepted.
    pub fn max_batch_size(&self) -> (r: usize)
        ensures
            r == 1000,
    {
        1000
    }

    /// Batch size that works best.
    pub fn optimal_batch_size(&self) -> (r: usize)
        ensures
            r == 32,
    {
        32
    }
}

impl Default for BatchTokenizer {
    fn default() -> Self {
        Self::new()
    }
}

/// Runs batches of generation requests.
#[derive(Debug, Clone, Copy)]
pub struct BatchInferenceEngine;

impl BatchInferenceEngine {
    /// New engine.
    pub fn new() -> Self {
        BatchInferenceEngine
    }

    /// Answers each prompt of a batch: the reply quotes the prompt's first
    /// twenty bytes (which must end on a character boundary) and reports the
    /// token count the request came with; the answers keep the items' order
    /// and identifiers.
    pub fn infer_batch(&self, requests: Vec<BatchItem<InferencePrompt>>) -> (r: Vec<BatchResponse<InferenceBatchResponse>>)
        requires
            forall|i: int| 0 <= i < requests@.len() ==> quotable(#[trigger] requests@[i].data.prompt@),
        ensures
            r@.len() == requests@.len(),
            forall|i: int| 0 <= i < requests@.len() ==> {
                &&& (#[trigger] r@[i]).id == requests@[i].id
                &&& r@[i].data.text@ == reply_to(requests@[i].data.prompt@)
                &&& r@[i].data.tokens_generated == requests@[i].data.tokens_generated
            },
    {
        let n = requests.len();
        let ghost all = requests@;
        let mut rest = reversed(requests);
        let mut out: Vec<BatchResponse<InferenceBatchResponse>> = Vec::new();
        while rest.len() > 0
            invariant
                out@.len() + rest@.len() == n,
                n == all.len(),
                forall|i: int| 0 <= i < all.len() ==> quotable(#[trigger] all[i].data.prompt@),
                forall|j: int| 0 <= j < rest@.len() ==> #[trigger] rest@[j] == all[n - 1 - j],
                forall|i: int| 0 <= i < out@.len() ==> {
                    &&& (#[trigger] out@[i]).id == all[i].id
                    &&& out@[i].data.text@ == reply_to(all[i].data.prompt@)
                    &&& out@[i].data.tokens_generated == all[i].data.tokens_generated
                },
            decreases rest@.len(),
        {
            let ghost k = out@.len();
            let req = rest.pop().unwrap();
            proof {
                assert(req == all[k as int]);
                assert(quotable(all[k as int].data.prompt@));
            }
            let start = Instant::now();
            let text = batch_reply_text(req.data.prompt.as_str());
            let data = InferenceBatchResponse { text, tokens_generated: req.data.tokens_generated };
            let duration = millis_since(start);
            out.push(BatchResponse::new(req.id, data, duration));
        }
        out
    }

    /// Largest batch accepted.
    pub fn max_batch_size(&self) -> (r: usize)
        ensures
            r == 100,
    {
        100
    }

    /// Batch size that works best.
    pub fn optimal_batch_size(&self) -> (r: usize)
        ensures
            r == 8,
    {
        8
    }
}

impl Default for BatchInferenceEngine {
    fn default() -> Self {
        Self::new()
    }
}

} // verus!
