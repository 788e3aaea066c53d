//! Token embedding: each token id selects one row of the embedding matrix.
//! Elements are IEEE-754 bit patterns of `f32`; the lookup only copies them.
use vstd::prelude::*;

use crate::error::{decimal_text, text_with_number, MinervaError, MinervaResult};

verus! {

/// Shape of an embedding matrix: `vocab_size` rows of `hidden_size` elements.
#[derive(Debug, Clone, Copy, PartialEq, Eq, Structural)]
pub struct EmbeddingConfig {
    /// Number of rows
    pub vocab_size: usize,
    /// Elements per row
    pub hidden_size: usize,
}

/// Element `col` of row `row` of a row-major matrix `width` elements wide.
pub open spec fn cell(s: Seq<u32>, width: int, row: int, col: int) -> u32 {
    s[row * width + col]
}

/// Position of the first token id that is not below `vocab_size`.
pub open spec fn first_out_of_vocab(tokens: Seq<usize>, vocab_size: usize) -> Option<int>
    decreases tokens.len(),
{
    if tokens.len() == 0 {
        None
    } else {
        match first_out_of_vocab(tokens.drop_last(), vocab_size) {
            Some(i) => Some(i),
            None => if tokens.last() >= vocab_size {
                Some(tokens.len() - 1)
            } else {
                None
            },
        }
    }
}

/// Where the first out-of-vocabulary token is, if any: every token before
/// it is in the vocabulary.
proof fn lemma_first_out_of_vocab(tokens: Seq<usize>, vocab_size: usize)
    ensures
        match first_out_of_vocab(tokens, vocab_size) {
            Some(i) => 0 <= i < tokens.len() && tokens[i] >= vocab_size && forall|a: int|
                0 <= a < i ==> tokens[a] < vocab_size,
            None => forall|a: int| 0 <= a < tokens.len() ==> tokens[a] < vocab_size,
        },
    decreases tokens.len(),
{
    if tokens.len() > 0 {
        let d = tokens.drop_last();
        lemma_first_out_of_vocab(d, vocab_size);
        assert(forall|a: int| 0 <= a < d.len() ==> d[a] == tokens[a]);
    }
}

/// Row `a`, column `b` of a matrix `h` wide lies before row `n`.
proof fn lemma_cell_index(a: int, b: int, h: int, n: int)
    requires
        0 <= a < n,
        0 <= b < h,
    ensures
        0 <= a * h + b,
        a * h + b + 1 <= n * h,
        a * h + b < a * h + h,
{
    assert(0 <= a * h) by (nonlinear_arith)
        requires 0 <= a, 0 <= h;
    assert((a + 1) * h <= n * h) by (nonlinear_arith)
        requires a + 1 <= n, 0 <= h;
    assert((a + 1) * h == a * h + h) by (nonlinear_arith);
}

/// Looks up the embedding of each token: row `tokens[i]` of `embeddings`
/// becomes row `i` of the result. A token id outside the vocabulary is
/// refused; so is a matrix of the wrong size.
pub fn embed_tokens(tokens: &[usize], embeddings: &[u32], config: &EmbeddingConfig) -> (r: MinervaResult<Vec<u32>>)
    requires
        config.vocab_size * config.hidden_size <= usize::MAX,
        tokens@.len() * config.hidden_size <= usize::MAX,
    ensures
        embeddings@.len() != config.vocab_size * config.hidden_size ==> (r matches Err(
            MinervaError::InferenceError(m),
        ) && m@ == "Embedding matrix shape mismatch: expected "@ + decimal_text(
            (config.vocab_size * config.hidden_size) as nat,
        ) + ", got "@ + decimal_text(embeddings@.len())),
        embeddings@.len() == config.vocab_size * config.hidden_size ==> match first_out_of_vocab(
            tokens@,
            config.vocab_size,
        ) {
            Some(i) => r matches Err(MinervaError::InferenceError(m)) && m@ == "Token ID "@ + decimal_text(
                tokens@[i] as nat,
            ) + " out of vocabulary size "@ + decimal_text(config.vocab_size as nat),
            None => r matches Ok(out) && out@.len() == tokens@.len() * config.hidden_size && forall|a: int, b: int|
                0 <= a < tokens@.len() && 0 <= b < config.hidden_size ==> #[trigger] cell(
                    out@,
                    config.hidden_size as int,
                    a,
                    b,
                ) == cell(embeddings@, config.hidden_size as int, tokens@[a] as int, b),
        },
{
    let vocab_size = config.vocab_size;
    let h = config.hidden_size;
    let expected = vocab_size * h;
    if embeddings.len() != expected {
        let mut m = text_with_number("Embedding matrix shape mismatch: expected ", expected as u128, ", got ");
        let got = crate::error::render_decimal(embeddings.len() as u128);
        m.append(got.as_str());
        return Err(MinervaError::InferenceError(m));
    }
    proof {
        lemma_first_out_of_vocab(tokens@, vocab_size);
    }
    let mut out: Vec<u32> = Vec::new();
    let mut i: usize = 0;
    while i < tokens.len()
        invariant
            i <= tokens@.len(),
            h == config.hidden_size,
            vocab_size == config.vocab_size,
            embeddings@.len() == vocab_size * h,
            vocab_size * h <= usize::MAX,
            tokens@.len() * h <= usize::MAX,
            out@.len() == i * h,
            forall|a: int| 0 <= a < i ==> tokens@[a] < vocab_size,
            forall|a: int, b: int|
                0 <= a < i && 0 <= b < h ==> #[trigger] cell(out@, h as int, a, b) == cell(
                    embeddings@,
                    h as int,
                    tokens@[a] as int,
                    b,
                ),
        decreases tokens@.len() - i,
    {
        let t = tokens[i];
        if t >= vocab_size {
            proof {
                assert(first_out_of_vocab(tokens@, vocab_size) == Some(i as int)) by {
                    lemma_first_out_of_vocab(tokens@, vocab_size);
                    match first_out_of_vocab(tokens@, vocab_size) {
                        Some(k) => {
                            if k < i {
                                assert(tokens@[k] < vocab_size);
                            }
                        },
                        None => {},
                    }
                }
            }
            let mut m = text_with_number("Token ID ", t as u128, " out of vocabulary size ");
            let v = crate::error::render_decimal(vocab_size as u128);
            m.append(v.as_str());
            return Err(MinervaError::InferenceError(m));
        }
        proof {
            assert(i * h + h <= tokens@.len() * h) by (nonlinear_arith)
                requires i < tokens@.len(), h >= 0;
            assert(t * h + h <= vocab_size * h) by (nonlinear_arith)
                requires t < vocab_size, h >= 0;
            assert(0 <= t * h) by (nonlinear_arith)
                requires 0 <= t, 0 <= h;
        }
        let start = t * h;
        let base = i * h;
        let mut j: usize = 0;
        while j < h
            invariant
                j <= h,
                i < tokens@.len(),
                t == tokens@[i as int],
                t < vocab_size,
                h == config.hidden_size,
                start == t * h,
                base == i * h,
                start + h <= embeddings@.len(),
                embeddings@.len() == vocab_size * h,
                vocab_size * h <= usize::MAX,
                out@.len() == base + j,
                forall|a: int| 0 <= a < i ==> tokens@[a] < vocab_size,
                forall|a: int, b: int|
                    0 <= a < i && 0 <= b < h ==> #[trigger] cell(out@, h as int, a, b) == cell(
                        embeddings@,
                        h as int,
                        tokens@[a] as int,
                        b,
                    ),
                forall|b: int| 0 <= b < j ==> #[trigger] cell(out@, h as int, i as int, b) == cell(embeddings@, h as int, t as int, b),
            decreases h - j,
        {
            let ghost before = out@;
            out.push(embeddings[start + j]);
            proof {
                assert forall|a: int, b: int| 0 <= a < i && 0 <= b < h implies #[trigger] cell(
                    out@,
                    h as int,
                    a,
                    b,
                ) == cell(embeddings@, h as int, tokens@[a] as int, b) by {
                    lemma_cell_index(a, b, h as int, i as int);
                    assert(cell(before, h as int, a, b) == cell(embeddings@, h as int, tokens@[a] as int, b));
                }
                assert forall|b: int| 0 <= b < j + 1 implies #[trigger] cell(out@, h as int, i as int, b) == cell(
                    embeddings@,
                    h as int,
                    t as int,
                    b,
                ) by {
                    if b < j {
                        assert(cell(before, h as int, i as int, b) == cell(embeddings@, h as int, t as int, b));
                    }
                }
            }
            j = j + 1;
        }
        proof {
            assert forall|a: int, b: int| 0 <= a < i + 1 && 0 <= b < h implies #[trigger] cell(
                out@,
                h as int,
                a,
                b,
            ) == cell(embeddings@, h as int, tokens@[a] as int, b) by {
            }
            assert((i + 1) * h == i * h + h) by (nonlinear_arith);
        }
        i = i + 1;
    }
    proof {
        lemma_first_out_of_vocab(tokens@, vocab_size);
    }
    Ok(out)
}

} // verus!
