//! Items and responses of batches that are processed concurrently, each
//! tagged with the id of its request.
use vstd::prelude::*;

use crate::error::{decimal_text, render_decimal, text};

verus! {

/// The token ids in decimal, separated by commas.
pub open spec fn comma_decimals(tokens: Seq<u32>) -> Seq<char>
    decreases tokens.len(),
{
    if tokens.len() == 0 {
        Seq::empty()
    } else if tokens.len() == 1 {
        decimal_text(tokens[0] as nat)
    } else {
        comma_decimals(tokens.drop_last()) + ","@ + decimal_text(tokens.last() as nat)
    }
}

/// Text the concurrent detokenizer gives a token list: `[tokens: ` and the
/// ids in decimal separated by commas, then `]`.
pub fn tokens_label(tokens: &Vec<u32>) -> (r: String)
    ensures
        r@ == "[tokens: "@ + comma_decimals(tokens@) + "]"@,
{
    let mut body = String::new();
    let mut i: usize = 0;
    while i < tokens.len()
        invariant
            i <= tokens@.len(),
            body@ == comma_decimals(tokens@.take(i as int)),
        decreases tokens@.len() - i,
    {
        let ghost before = body@;
        if i > 0 {
            body.append(",");
        }
        let digits = render_decimal(tokens[i] as u128);
        body.append(digits.as_str());
        proof {
            let t = tokens@.take(i + 1);
            assert(t.drop_last() =~= tokens@.take(i as int));
            assert(t.last() == tokens@[i as int]);
            if i == 0 {
                assert(comma_decimals(tokens@.take(0)) =~= Seq::<char>::empty());
                assert(body@ =~= decimal_text(tokens@[0] as nat));
            } else {
                assert(body@ =~= before + ","@ + decimal_text(tokens@[i as int] as nat));
            }
        }
        i = i + 1;
    }
    proof {
        assert(tokens@.take(i as int) =~= tokens@);
    }
    let mut out = text("[tokens: ");
    out.append(body.as_str());
    out.append("]");
    out
}

/// A batch item and the id of its request.
#[derive(Debug, Clone)]
pub struct AsyncBatchItem<T: Clone> {
    /// Request id
    pub id: String,
    /// Payload
    pub data: T,
}

impl<T: Clone> AsyncBatchItem<T> {
    /// Item `data` with id `id`.
    pub fn new(id: String, data: T) -> (r: Self)
        ensures
            r.id == id,
            r.data == data,
    {
        AsyncBatchItem { id, data }
    }

    /// The request id.
    pub fn get_id(&self) -> (r: &str)
        ensures
            r@ == self.id@,
    {
        self.id.as_str()
    }

    /// The payload.
    pub fn get_data(&self) -> (r: &T)
        ensures
            *r == self.data,
    {
        &self.data
    }
}

/// A response to one batch item, with the time it took.
#[derive(Debug, Clone)]
pub struct AsyncBatchResponse<T: Clone> {
    /// Request id
    pub id: String,
    /// Payload
    pub data: T,
    /// Processing time in milliseconds
    pub duration_ms: u128,
}

impl<T: Clone> AsyncBatchResponse<T> {
    /// Response `data` to request `id`, which took `duration_ms`.
    pub fn new(id: String, data: T, duration_ms: u128) -> (r: Self)
        ensures
            r.id == id,
            r.data == data,
            r.duration_ms == duration_ms,
    {
        AsyncBatchResponse { id, data, duration_ms }
    }

    /// The request id.
    pub fn get_id(&self) -> (r: &str)
        ensures
            r@ == self.id@,
    {
        self.id.as_str()
    }

    /// The payload.
    pub fn get_data(&self) -> (r: &T)
        ensures
            *r == self.data,
    {
        &self.data
    }

    /// Processing time in milliseconds.
    pub fn get_duration_ms(&self) -> (r: u128)
        ensures
            r == self.duration_ms,
    {
        self.duration_ms
    }
}

/// A response in a batch result that precomputes its statistics.
#[derive(Debug, Clone)]
pub struct BatchResponseOpt<T: Clone> {
    /// Request id
    pub id: String,
    /// Payload
    pub data: T,
    /// Processing time in milliseconds
    pub duration_ms: u128,
}

} // verus!
