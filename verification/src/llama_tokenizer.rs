//! LLaMA tokenizer: vocabulary lookups, byte-pair merges and greedy
//! longest-match tokenization.
use vstd::prelude::*;
use vstd::utf8::encode_utf8;

use crate::error::{inference_err, text, text_with_number, MinervaError, MinervaResult};

verus! {

/// Special token IDs.
#[derive(Debug, Clone, Copy, PartialEq, Eq, Structural)]
pub struct SpecialTokens {
    /// Beginning of sequence
    pub bos: u32,
    /// End of sequence
    pub eos: u32,
    /// Unknown token
    pub unk: u32,
    /// Padding token
    pub pad: u32,
}

impl SpecialTokens {
    /// The LLaMA special tokens: `<s>` = 1, `</s>` = 2, `<unk>` = 0, padding = `<unk>`.
    pub fn llama() -> (r: Self)
        ensures
            r == (SpecialTokens { bos: 1, eos: 2, unk: 0, pad: 0 }),
    {
        SpecialTokens { bos: 1, eos: 2, unk: 0, pad: 0 }
    }
}

/// The vocabulary as character sequences.
pub open spec fn vocab_view(vocab: Seq<String>) -> Seq<Seq<char>> {
    vocab.map_values(|s: String| s@)
}

/// The highest ID whose token is `token` (a later duplicate wins).
pub open spec fn id_of(vocab: Seq<Seq<char>>, token: Seq<char>) -> Option<int>
    decreases vocab.len(),
{
    if vocab.len() == 0 {
        None
    } else if vocab.last() == token {
        Some(vocab.len() - 1)
    } else {
        id_of(vocab.drop_last(), token)
    }
}

/// The highest ID whose token's UTF-8 bytes are `bytes`.
pub open spec fn id_of_bytes(vocab: Seq<Seq<char>>, bytes: Seq<u8>) -> Option<int>
    decreases vocab.len(),
{
    if vocab.len() == 0 {
        None
    } else if encode_utf8(vocab.last()) == bytes {
        Some(vocab.len() - 1)
    } else {
        id_of_bytes(vocab.drop_last(), bytes)
    }
}

proof fn lemma_id_of_bytes_bound(vocab: Seq<Seq<char>>, bytes: Seq<u8>)
    ensures
        id_of_bytes(vocab, bytes) matches Some(k) ==> 0 <= k < vocab.len(),
    decreases vocab.len(),
{
    if vocab.len() > 0 {
        lemma_id_of_bytes_bound(vocab.drop_last(), bytes);
    }
}

/// An ID holds `token`, and no higher one does.
pub proof fn lemma_id_of(vocab: Seq<Seq<char>>, token: Seq<char>, k: int)
    requires
        0 <= k < vocab.len(),
        vocab[k] == token,
        forall|j: int| k < j < vocab.len() ==> vocab[j] != token,
    ensures
        id_of(vocab, token) == Some(k),
    decreases vocab.len(),
{
    if k < vocab.len() - 1 {
        assert(vocab.last() == vocab[vocab.len() - 1]);
        lemma_id_of(vocab.drop_last(), token, k);
    }
}

proof fn lemma_id_of_bytes(vocab: Seq<Seq<char>>, bytes: Seq<u8>, k: int)
    requires
        0 <= k < vocab.len(),
        encode_utf8(vocab[k]) == bytes,
        forall|j: int| k < j < vocab.len() ==> encode_utf8(vocab[j]) != bytes,
    ensures
        id_of_bytes(vocab, bytes) == Some(k),
    decreases vocab.len(),
{
    if k < vocab.len() - 1 {
        assert(vocab.last() == vocab[vocab.len() - 1]);
        lemma_id_of_bytes(vocab.drop_last(), bytes, k);
    }
}

/// No ID holds `token`.
proof fn lemma_id_of_none(vocab: Seq<Seq<char>>, token: Seq<char>)
    requires
        forall|j: int| 0 <= j < vocab.len() ==> vocab[j] != token,
    ensures
        id_of(vocab, token) is None,
    decreases vocab.len(),
{
    if vocab.len() > 0 {
        assert(vocab.last() == vocab[vocab.len() - 1]);
        lemma_id_of_none(vocab.drop_last(), token);
    }
}

/// No ID's bytes are `bytes`.
proof fn lemma_id_of_bytes_none(vocab: Seq<Seq<char>>, bytes: Seq<u8>)
    requires
        forall|j: int| 0 <= j < vocab.len() ==> encode_utf8(vocab[j]) != bytes,
    ensures
        id_of_bytes(vocab, bytes) is None,
    decreases vocab.len(),
{
    if vocab.len() > 0 {
        assert(vocab.last() == vocab[vocab.len() - 1]);
        lemma_id_of_bytes_none(vocab.drop_last(), bytes);
    }
}

/// The token ID that merging `first` then `second` produces.
pub open spec fn merged_id(first: u32, second: u32) -> u32 {
    ((((first as u64) * 31) as u64) ^ (second as u64)) as u32
}

/// One left-to-right pass of a merge rule: each adjacent `first, second`
/// pair becomes the merged ID.
pub open spec fn merge_pass(t: Seq<u32>, first: u32, second: u32) -> Seq<u32>
    decreases t.len(),
{
    if t.len() == 0 {
        Seq::empty()
    } else if t.len() >= 2 && t[0] == first && t[1] == second {
        seq![merged_id(first, second)] + merge_pass(t.skip(2), first, second)
    } else {
        seq![t[0]] + merge_pass(t.skip(1), first, second)
    }
}

/// All merge rules applied in order.
pub open spec fn apply_merges(t: Seq<u32>, merges: Seq<(u32, u32)>) -> Seq<u32>
    decreases merges.len(),
{
    if merges.len() == 0 {
        t
    } else {
        let prev = apply_merges(t, merges.drop_last());
        merge_pass(prev, merges.last().0, merges.last().1)
    }
}

/// Units narrowed to bytes.
pub open spec fn as_bytes(t: Seq<u32>) -> Seq<u8> {
    t.map_values(|x: u32| x as u8)
}

/// Longest prefix of `t`, no longer than `n`, whose bytes are a vocabulary
/// token: its length and the token's ID.
pub open spec fn best_match(t: Seq<u32>, vocab: Seq<Seq<char>>, n: nat) -> Option<(nat, int)>
    decreases n,
{
    if n == 0 {
        None
    } else {
        match id_of_bytes(vocab, as_bytes(t.take(n as int))) {
            Some(k) => Some((n, k)),
            None => best_match(t, vocab, (n - 1) as nat),
        }
    }
}

/// Greedy tokenization: at each position take the longest vocabulary match
/// of the remaining units, provided at most five remain; otherwise, or when
/// nothing matches, emit `unk` and move on by one unit.
pub open spec fn greedy_tokens(t: Seq<u32>, vocab: Seq<Seq<char>>, unk: u32) -> Seq<u32>
    decreases t.len(),
{
    if t.len() == 0 {
        Seq::empty()
    } else if t.len() > 5 {
        seq![unk] + greedy_tokens(t.skip(1), vocab, unk)
    } else {
        match best_match(t, vocab, t.len()) {
            Some((n, k)) => if 0 < n <= t.len() {
                seq![k as u32] + greedy_tokens(t.skip(n as int), vocab, unk)
            } else {
                Seq::empty()
            },
            None => seq![unk] + greedy_tokens(t.skip(1), vocab, unk),
        }
    }
}

/// The UTF-8 bytes of a text, each widened to a token unit.
pub open spec fn byte_units(text: Seq<char>) -> Seq<u32> {
    encode_utf8(text).map_values(|b: u8| b as u32)
}

/// Concatenation of the tokens named by `ids`.
pub open spec fn decoded_text(vocab: Seq<Seq<char>>, ids: Seq<u32>) -> Seq<char>
    decreases ids.len(),
{
    if ids.len() == 0 {
        Seq::empty()
    } else {
        decoded_text(vocab, ids.drop_last()) + vocab[ids.last() as int]
    }
}

/// Every ID names a vocabulary entry.
pub open spec fn all_known(vocab_len: nat, ids: Seq<u32>) -> bool {
    forall|i: int| 0 <= i < ids.len() ==> #[trigger] ids[i] < vocab_len
}

/// First ID that names no vocabulary entry.
pub open spec fn first_unknown(vocab_len: nat, ids: Seq<u32>) -> u32 {
    ids[choose|i: int| 0 <= i < ids.len() && ids[i] >= vocab_len && forall|j: int| 0 <= j < i ==> ids[j] < vocab_len]
}

/// Error text for an unknown token ID.
pub open spec fn unknown_token_message(id: u32) -> Seq<char> {
    "Unknown token ID: "@ + crate::error::decimal_text(id as nat)
}

/// LLaMA tokenizer.
#[derive(Debug)]
pub struct LLaMATokenizer {
    vocab: Vec<String>,
    bpe_merges: Vec<(u32, u32)>,
    special_tokens: SpecialTokens,
}

impl LLaMATokenizer {
    /// Vocabulary, by ID.
    pub closed spec fn spec_vocab(&self) -> Seq<Seq<char>> {
        vocab_view(self.vocab@)
    }

    /// Merge rules, in order of application.
    pub closed spec fn spec_merges(&self) -> Seq<(u32, u32)> {
        self.bpe_merges@
    }

    /// Special tokens.
    pub closed spec fn spec_special(&self) -> SpecialTokens {
        self.special_tokens
    }

    /// Well-formedness: the vocabulary is not empty and every ID fits a `u32`.
    pub open spec fn wf(&self) -> bool {
        0 < self.spec_vocab().len() <= u32::MAX
    }

    /// Tokenizer for `vocab`, with no merge rules and the LLaMA special tokens.
    pub fn new(vocab: Vec<String>) -> (r: MinervaResult<Self>)
        requires
            vocab@.len() <= u32::MAX,
        ensures
            vocab@.len() == 0 ==> inference_err(r, "Tokenizer vocabulary cannot be empty"@),
            vocab@.len() > 0 ==> (r matches Ok(t) && t.wf() && t.spec_vocab() == vocab_view(vocab@)
                && t.spec_merges().len() == 0 && t.spec_special() == (SpecialTokens { bos: 1, eos: 2, unk: 0, pad: 0 })),
    {
        if vocab.len() == 0 {
            return Err(MinervaError::InferenceError(text("Tokenizer vocabulary cannot be empty")));
        }
        Ok(LLaMATokenizer { vocab, bpe_merges: Vec::new(), special_tokens: SpecialTokens::llama() })
    }

    /// Replaces the merge rules.
    pub fn set_bpe_merges(&mut self, merges: Vec<(u32, u32)>)
        ensures
            final(self).spec_merges() == merges@,
            final(self).spec_vocab() == old(self).spec_vocab(),
            final(self).spec_special() == old(self).spec_special(),
    {
        self.bpe_merges = merges;
    }

    /// Number of merge rules.
    pub fn bpe_merge_count(&self) -> (r: usize)
        ensures
            r == self.spec_merges().len(),
    {
        self.bpe_merges.len()
    }

    /// Vocabulary size.
    pub fn vocab_size(&self) -> (r: usize)
        ensures
            r == self.spec_vocab().len(),
    {
        self.vocab.len()
    }

    /// The vocabulary, by ID.
    pub fn vocab(&self) -> (r: &Vec<String>)
        ensures
            vocab_view(r@) == self.spec_vocab(),
    {
        &self.vocab
    }

    /// The token with ID `id`.
    pub fn get_token(&self, id: u32) -> (r: Option<&str>)
        ensures
            match r {
                Some(s) => id < self.spec_vocab().len() && s@ == self.spec_vocab()[id as int],
                None => id >= self.spec_vocab().len(),
            },
    {
        if (id as usize) < self.vocab.len() {
            Some(self.vocab[id as usize].as_str())
        } else {
            None
        }
    }

    /// The ID of `token`; the highest one when the token occurs twice.
    pub fn get_id(&self, token: &str) -> (r: Option<u32>)
        requires
            self.wf(),
        ensures
            match id_of(self.spec_vocab(), token@) {
                Some(k) => r == Some(k as u32),
                None => r is None,
            },
    {
        let mut i: usize = self.vocab.len();
        while i > 0
            invariant
                i <= self.vocab@.len(),
                self.vocab@.len() <= u32::MAX,
                forall|j: int| i <= j < self.vocab@.len() ==> #[trigger] self.spec_vocab()[j] != token@,
            decreases i,
        {
            i = i - 1;
            if crate::util::str_eq(self.vocab[i].as_str(), token) {
                proof {
                    lemma_id_of(self.spec_vocab(), token@, i as int);
                }
                return Some(i as u32);
            }
        }
        proof {
            lemma_id_of_none(self.spec_vocab(), token@);
        }
        None
    }

    /// The highest ID whose token has exactly the bytes `units` (each unit
    /// narrowed to a byte).
    fn id_of_units(&self, units: &[u32], start: usize, end: usize) -> (r: Option<u32>)
        requires
            self.wf(),
            start <= end <= units@.len(),
        ensures
            match id_of_bytes(self.spec_vocab(), as_bytes(units@.subrange(start as int, end as int))) {
                Some(k) => r == Some(k as u32),
                None => r is None,
            },
    {
        let ghost want = as_bytes(units@.subrange(start as int, end as int));
        let mut k: usize = self.vocab.len();
        while k > 0
            invariant
                k <= self.vocab@.len(),
                self.vocab@.len() <= u32::MAX,
                start <= end <= units@.len(),
                want == as_bytes(units@.subrange(start as int, end as int)),
                forall|j: int| k <= j < self.vocab@.len() ==> #[trigger] encode_utf8(self.spec_vocab()[j]) != want,
            decreases k,
        {
            k = k - 1;
            let bytes = self.vocab[k].as_str().as_bytes();
            let mut same = bytes.len() == end - start;
            let mut p: usize = 0;
            while same && p < bytes.len()
                invariant
                    same ==> bytes@.len() == end - start,
                    p <= bytes@.len(),
                    start <= end <= units@.len(),
                    same ==> forall|q: int| 0 <= q < p ==> bytes@[q] == (units@[start + q] as u8),
                    !same ==> (bytes@.len() != end - start
                        || (p < bytes@.len() && bytes@.len() == end - start && bytes@[p as int] != (units@[start + p] as u8))),
                decreases bytes@.len() - p + (if same { 1int } else { 0int }),
            {
                if bytes[p] != (units[start + p] as u8) {
                    same = false;
                } else {
                    p = p + 1;
                }
            }
            proof {
                assert(bytes@ == encode_utf8(self.vocab@[k as int]@));
                assert(self.spec_vocab()[k as int] == self.vocab@[k as int]@);
                if same {
                    assert(bytes@ =~= want);
                } else if bytes@.len() == want.len() {
                    assert(want[p as int] == (units@[start + p] as u8));
                    assert(bytes@[p as int] != want[p as int]);
                }
            }
            if same {
                proof {
                    lemma_id_of_bytes(self.spec_vocab(), want, k as int);
                }
                return Some(k as u32);
            }
        }
        proof {
            lemma_id_of_bytes_none(self.spec_vocab(), want);
        }
        None
    }

    /// Encodes a text: its UTF-8 bytes, rewritten by the merge rules, then
    /// tokenized greedily against the vocabulary.
    pub fn encode(&self, text: &str) -> (r: MinervaResult<Vec<u32>>)
        requires
            self.wf(),
        ensures
            r matches Ok(t) && t@ == greedy_tokens(
                apply_merges(byte_units(text@), self.spec_merges()),
                self.spec_vocab(),
                self.spec_special().unk,
            ),
    {
        let raw = text.as_bytes();
        let mut units: Vec<u32> = Vec::new();
        let mut i: usize = 0;
        while i < raw.len()
            invariant
                i <= raw@.len(),
                raw@ == encode_utf8(text@),
                units@ == raw@.subrange(0, i as int).map_values(|b: u8| b as u32),
            decreases raw@.len() - i,
        {
            units.push(raw[i] as u32);
            i = i + 1;
            proof {
                assert(units@ =~= raw@.subrange(0, i as int).map_values(|b: u8| b as u32));
            }
        }
        proof {
            assert(raw@.subrange(0, i as int) =~= raw@);
        }
        if units.len() == 0 {
            proof {
                assert(units@ =~= Seq::<u32>::empty());
                assert(apply_merges(units@, self.spec_merges()) =~= Seq::<u32>::empty()) by {
                    lemma_merges_of_empty(self.spec_merges());
                }
            }
            return Ok(Vec::new());
        }
        let merged = self.apply_bpe_merges(&units);
        let tokens = self.bytes_to_tokens(&merged);
        tokens
    }

    /// Encodes each text.
    pub fn encode_batch(&self, texts: &[&str]) -> (r: MinervaResult<Vec<Vec<u32>>>)
        requires
            self.wf(),
        ensures
            r matches Ok(all) && all@.len() == texts@.len() && forall|i: int| 0 <= i < texts@.len()
                ==> (#[trigger] all@[i])@ == greedy_tokens(
                    apply_merges(byte_units(texts@[i]@), self.spec_merges()),
                    self.spec_vocab(),
                    self.spec_special().unk,
                ),
    {
        let mut out: Vec<Vec<u32>> = Vec::new();
        let mut i: usize = 0;
        while i < texts.len()
            invariant
                self.wf(),
                i <= texts@.len(),
                out@.len() == i,
                forall|j: int| 0 <= j < i ==> (#[trigger] out@[j])@ == greedy_tokens(
                    apply_merges(byte_units(texts@[j]@), self.spec_merges()),
                    self.spec_vocab(),
                    self.spec_special().unk,
                ),
            decreases texts@.len() - i,
        {
            let tokens = self.encode(texts[i])?;
            out.push(tokens);
            i = i + 1;
        }
        Ok(out)
    }

    /// Decodes IDs to the concatenation of their tokens.
    pub fn decode(&self, tokens: &[u32]) -> (r: MinervaResult<String>)
        ensures
            all_known(self.spec_vocab().len(), tokens@) ==> (r matches Ok(s)
                && s@ == decoded_text(self.spec_vocab(), tokens@)),
            !all_known(self.spec_vocab().len(), tokens@) ==> inference_err(
                r,
                unknown_token_message(first_unknown(self.spec_vocab().len(), tokens@)),
            ),
    {
        let mut out = String::new();
        let mut i: usize = 0;
        while i < tokens.len()
            invariant
                i <= tokens@.len(),
                all_known(self.spec_vocab().len(), tokens@.subrange(0, i as int)),
                out@ == decoded_text(self.spec_vocab(), tokens@.subrange(0, i as int)),
            decreases tokens@.len() - i,
        {
            let id = tokens[i];
            if (id as usize) >= self.vocab.len() {
                proof {
                    let ii = i as int;
                    assert(0 <= ii < tokens@.len() && tokens@[ii] >= self.spec_vocab().len()
                        && forall|j: int| 0 <= j < ii ==> tokens@[j] < self.spec_vocab().len()) by {
                        assert forall|j: int| 0 <= j < ii implies tokens@[j] < self.spec_vocab().len() by {
                            assert(tokens@.subrange(0, ii)[j] == tokens@[j]);
                        }
                    }
                    let c = choose|c: int| 0 <= c < tokens@.len() && tokens@[c] >= self.spec_vocab().len()
                        && forall|j: int| 0 <= j < c ==> tokens@[j] < self.spec_vocab().len();
                    if c < ii {
                        assert(tokens@.subrange(0, ii)[c] == tokens@[c]);
                    } else if ii < c {
                        assert(tokens@[ii] < self.spec_vocab().len());
                    }
                }
                return Err(MinervaError::InferenceError(crate::error::text_then_number("Unknown token ID: ", id as u128)));
            }
            out.append(self.vocab[id as usize].as_str());
            proof {
                let pre = tokens@.subrange(0, i as int);
                let post = tokens@.subrange(0, i + 1);
                assert(post.drop_last() =~= pre);
                assert(self.spec_vocab()[id as int] == self.vocab@[id as int]@);
                assert forall|j: int| 0 <= j < post.len() implies #[trigger] post[j] < self.spec_vocab().len() by {
                    if j < pre.len() {
                        assert(post[j] == pre[j]);
                    }
                }
            }
            i = i + 1;
        }
        proof {
            assert(tokens@.subrange(0, i as int) =~= tokens@);
        }
        Ok(out)
    }

    /// Decodes each ID list; stops at the first list that names an unknown ID.
    pub fn decode_batch(&self, batch: &[Vec<u32>]) -> (r: MinervaResult<Vec<String>>)
        ensures
            (forall|i: int| 0 <= i < batch@.len() ==> all_known(self.spec_vocab().len(), (#[trigger] batch@[i])@))
                ==> (r matches Ok(all) && all@.len() == batch@.len() && forall|i: int| 0 <= i < batch@.len()
                    ==> (#[trigger] all@[i])@ == decoded_text(self.spec_vocab(), batch@[i]@)),
            !(forall|i: int| 0 <= i < batch@.len() ==> all_known(self.spec_vocab().len(), (#[trigger] batch@[i])@))
                ==> r is Err,
    {
        let mut out: Vec<String> = Vec::new();
        let mut i: usize = 0;
        while i < batch.len()
            invariant
                i <= batch@.len(),
                out@.len() == i,
                forall|j: int| 0 <= j < i ==> all_known(self.spec_vocab().len(), (#[trigger] batch@[j])@),
                forall|j: int| 0 <= j < i ==> (#[trigger] out@[j])@ == decoded_text(self.spec_vocab(), batch@[j]@),
            decreases batch@.len() - i,
        {
            let s = self.decode(batch[i].as_slice())?;
            out.push(s);
            i = i + 1;
        }
        Ok(out)
    }

    /// Applies every merge rule, in order.
    fn apply_bpe_merges(&self, tokens: &Vec<u32>) -> (r: Vec<u32>)
        ensures
            r@ == apply_merges(tokens@, self.spec_merges()),
    {
        let mut result: Vec<u32> = tokens.clone();
        proof {
            assert(result@ =~= tokens@);
        }
        let mut m: usize = 0;
        while m < self.bpe_merges.len()
            invariant
                m <= self.bpe_merges@.len(),
                result@ == apply_merges(tokens@, self.bpe_merges@.subrange(0, m as int)),
            decreases self.bpe_merges@.len() - m,
        {
            let (first, second) = self.bpe_merges[m];
            let next = merge_once(&result, first, second);
            proof {
                let s = self.bpe_merges@.subrange(0, m + 1);
                assert(s.drop_last() =~= self.bpe_merges@.subrange(0, m as int));
            }
            result = next;
            m = m + 1;
        }
        proof {
            assert(self.bpe_merges@.subrange(0, m as int) =~= self.bpe_merges@);
        }
        result
    }

    /// Greedy longest-match tokenization of merged units.
    fn bytes_to_tokens(&self, units: &Vec<u32>) -> (r: MinervaResult<Vec<u32>>)
        requires
            self.wf(),
        ensures
            r matches Ok(t) && t@ == greedy_tokens(units@, self.spec_vocab(), self.spec_special().unk),
    {
        let mut tokens: Vec<u32> = Vec::new();
        let mut i: usize = 0;
        let n = units.len();
        proof {
            assert(units@.skip(0) =~= units@);
            assert(tokens@ + greedy_tokens(units@, self.spec_vocab(), self.spec_special().unk)
                =~= greedy_tokens(units@, self.spec_vocab(), self.spec_special().unk));
        }
        while i < n
            invariant
                self.wf(),
                n == units@.len(),
                i <= n,
                tokens@ + greedy_tokens(units@.skip(i as int), self.spec_vocab(), self.spec_special().unk)
                    == greedy_tokens(units@, self.spec_vocab(), self.spec_special().unk),
            decreases n - i,
        {
            let ghost rest = units@.skip(i as int);
            let ghost unk = self.spec_special().unk;
            if n - i > 5 {
                proof {
                    assert(rest.skip(1) =~= units@.skip(i + 1));
                    assert(tokens@.push(unk) + greedy_tokens(rest.skip(1), self.spec_vocab(), unk)
                        =~= tokens@ + greedy_tokens(rest, self.spec_vocab(), unk));
                }
                tokens.push(self.special_tokens.unk);
                i = i + 1;
            } else {
                let mut j: usize = n;
                let mut found: Option<(usize, u32)> = None;
                while j > i
                    invariant_except_break
                        found is None,
                    invariant
                        self.wf(),
                        i < j <= n || j == i,
                        n == units@.len(),
                        i < n,
                        rest == units@.skip(i as int),
                        best_match(rest, self.spec_vocab(), (n - i) as nat)
                            == best_match(rest, self.spec_vocab(), (j - i) as nat),
                    ensures
                        found is None ==> best_match(rest, self.spec_vocab(), (n - i) as nat) is None,
                        found matches Some((len, id)) ==> 0 < len <= n - i
                            && best_match(rest, self.spec_vocab(), (n - i) as nat) == Some((len as nat, id as int)),
                    decreases j - i,
                {
                    let ghost len = (j - i) as nat;
                    let got = self.id_of_units(units.as_slice(), i, j);
                    proof {
                        assert(rest.take(len as int) =~= units@.subrange(i as int, j as int));
                        lemma_id_of_bytes_bound(self.spec_vocab(), as_bytes(rest.take(len as int)));
                    }
                    match got {
                        Some(id) => {
                            found = Some((j - i, id));
                            break;
                        },
                        None => {
                            j = j - 1;
                        },
                    }
                }
                match found {
                    Some((len, id)) => {
                        proof {
                            assert(rest.skip(len as int) =~= units@.skip(i + len));
                            assert(greedy_tokens(rest, self.spec_vocab(), unk)
                                == seq![id] + greedy_tokens(rest.skip(len as int), self.spec_vocab(), unk));
                            assert(tokens@.push(id) + greedy_tokens(rest.skip(len as int), self.spec_vocab(), unk)
                                =~= tokens@ + greedy_tokens(rest, self.spec_vocab(), unk));
                        }
                        tokens.push(id);
                        i = i + len;
                    },
                    None => {
                        proof {
                            assert(best_match(rest, self.spec_vocab(), 0) is None);
                            assert(rest.skip(1) =~= units@.skip(i + 1));
                            assert(tokens@.push(unk) + greedy_tokens(rest.skip(1), self.spec_vocab(), unk)
                                =~= tokens@ + greedy_tokens(rest, self.spec_vocab(), unk));
                        }
                        tokens.push(self.special_tokens.unk);
                        i = i + 1;
                    },
                }
            }
        }
        proof {
            assert(units@.skip(i as int) =~= Seq::<u32>::empty());
            assert(tokens@ + Seq::<u32>::empty() =~= tokens@);
        }
        Ok(tokens)
    }
}

/// Every merge pass keeps an empty sequence empty.
proof fn lemma_merges_of_empty(merges: Seq<(u32, u32)>)
    ensures
        apply_merges(Seq::<u32>::empty(), merges) == Seq::<u32>::empty(),
    decreases merges.len(),
{
    if merges.len() > 0 {
        lemma_merges_of_empty(merges.drop_last());
    }
}

/// ID of a merged pair.
fn merge_token_ids(first: u32, second: u32) -> (r: u32)
    ensures
        r == merged_id(first, second),
{
    assert((first as u64) * 31 <= u64::MAX) by (nonlinear_arith)
        requires first <= u32::MAX;
    (((first as u64) * 31) ^ (second as u64)) as u32
}

/// One pass of the merge rule `first, second` over `tokens`.
fn merge_once(tokens: &Vec<u32>, first: u32, second: u32) -> (r: Vec<u32>)
    ensures
        r@ == merge_pass(tokens@, first, second),
{
    let mut out: Vec<u32> = Vec::new();
    let mut i: usize = 0;
    let n = tokens.len();
    proof {
        assert(tokens@.skip(0) =~= tokens@);
        assert(out@ + merge_pass(tokens@, first, second) =~= merge_pass(tokens@, first, second));
    }
    while i < n
        invariant
            n == tokens@.len(),
            i <= n,
            out@ + merge_pass(tokens@.skip(i as int), first, second) == merge_pass(tokens@, first, second),
        decreases n - i,
    {
        let ghost rest = tokens@.skip(i as int);
        if i + 1 < n && tokens[i] == first && tokens[i + 1] == second {
            let merged = merge_token_ids(first, second);
            proof {
                assert(rest[0] == tokens@[i as int] && rest[1] == tokens@[i + 1]);
                assert(rest.skip(2) =~= tokens@.skip(i + 2));
                assert(out@.push(merged) + merge_pass(rest.skip(2), first, second)
                    =~= out@ + merge_pass(rest, first, second));
            }
            out.push(merged);
            i = i + 2;
        } else {
            proof {
                assert(rest[0] == tokens@[i as int]);
                if rest.len() >= 2 {
                    assert(rest[1] == tokens@[i + 1]);
                }
                assert(rest.skip(1) =~= tokens@.skip(i + 1));
                assert(out@.push(tokens@[i as int]) + merge_pass(rest.skip(1), first, second)
                    =~= out@ + merge_pass(rest, first, second));
            }
            out.push(tokens[i]);
            i = i + 1;
        }
    }
    proof {
        assert(tokens@.skip(i as int) =~= Seq::<u32>::empty());
        assert(out@ + Seq::<u32>::empty() =~= out@);
    }
    out
}

/// Looking up the token of an ID gives back that ID whenever the token occurs
/// only once in the vocabulary.
pub proof fn lemma_token_id_roundtrip(vocab: Seq<Seq<char>>, id: int)
    requires
        0 <= id < vocab.len(),
        forall|j: int| 0 <= j < vocab.len() && j != id ==> vocab[j] != vocab[id],
    ensures
        id_of(vocab, vocab[id]) == Some(id),
{
    lemma_id_of(vocab, vocab[id], id);
}

/// Merge rules never lengthen a sequence.
pub proof fn lemma_merges_shrink(t: Seq<u32>, merges: Seq<(u32, u32)>)
    ensures
        apply_merges(t, merges).len() <= t.len(),
    decreases merges.len(),
{
    if merges.len() > 0 {
        lemma_merges_shrink(t, merges.drop_last());
        lemma_merge_pass_shrinks(apply_merges(t, merges.drop_last()), merges.last().0, merges.last().1);
    }
}

/// One merge pass never lengthens a sequence.
pub proof fn lemma_merge_pass_shrinks(t: Seq<u32>, first: u32, second: u32)
    ensures
        merge_pass(t, first, second).len() <= t.len(),
    decreases t.len(),
{
    if t.len() >= 2 && t[0] == first && t[1] == second {
        lemma_merge_pass_shrinks(t.skip(2), first, second);
    } else if t.len() > 0 {
        lemma_merge_pass_shrinks(t.skip(1), first, second);
    }
}

/// Where the vocabulary holds a token with the given UTF-8 bytes, the ID
/// found is the last such token; otherwise none is found.
pub proof fn lemma_id_of_bytes_finds_last(vocab: Seq<Seq<char>>, bytes: Seq<u8>)
    ensures
        id_of_bytes(vocab, bytes) matches Some(k) ==> 0 <= k < vocab.len() && encode_utf8(vocab[k]) == bytes
            && forall|j: int| k < j < vocab.len() ==> encode_utf8(#[trigger] vocab[j]) != bytes,
        id_of_bytes(vocab, bytes) is None ==> forall|j: int| 0 <= j < vocab.len() ==> encode_utf8(#[trigger] vocab[j]) != bytes,
    decreases vocab.len(),
{
    if vocab.len() > 0 {
        let init = vocab.drop_last();
        lemma_id_of_bytes_finds_last(init, bytes);
        assert forall|j: int| 0 <= j < init.len() implies init[j] == vocab[j] by {}
    }
}

/// The longest-prefix search: a match it reports is a vocabulary token of
/// that many units with no longer prefix (up to `n`) in the vocabulary, and
/// when it reports none, no prefix up to `n` is.
proof fn lemma_best_match_longest(t: Seq<u32>, vocab: Seq<Seq<char>>, n: nat)
    ensures
        best_match(t, vocab, n) matches Some((l, k)) ==> 0 < l <= n
            && id_of_bytes(vocab, as_bytes(t.take(l as int))) == Some(k)
            && forall|m: int| l < m <= n ==> #[trigger] id_of_bytes(vocab, as_bytes(t.take(m))) is None,
        best_match(t, vocab, n) is None ==> forall|m: int| 0 < m <= n ==> #[trigger] id_of_bytes(vocab, as_bytes(t.take(m))) is None,
    decreases n,
{
    if n > 0 {
        lemma_best_match_longest(t, vocab, (n - 1) as nat);
    }
}

/// Greedy tokenization takes the longest match: when at most five units
/// remain and the vocabulary token `k` spells the first `len` of them, with
/// no later token spelling the same bytes and no token spelling a longer
/// prefix, the output starts with `k` and goes on from `len` units further.
pub proof fn lemma_greedy_takes_longest_match(t: Seq<u32>, vocab: Seq<Seq<char>>, unk: u32, len: int, k: int)
    requires
        0 < len <= t.len() <= 5,
        0 <= k < vocab.len(),
        k <= u32::MAX,
        encode_utf8(vocab[k]) == as_bytes(t.take(len)),
        forall|j: int| k < j < vocab.len() ==> encode_utf8(#[trigger] vocab[j]) != as_bytes(t.take(len)),
        forall|m: int, j: int| len < m <= t.len() && 0 <= j < vocab.len()
            ==> encode_utf8(#[trigger] vocab[j]) != #[trigger] as_bytes(t.take(m)),
    ensures
        greedy_tokens(t, vocab, unk) == seq![k as u32] + greedy_tokens(t.skip(len), vocab, unk),
{
    let b = as_bytes(t.take(len));
    lemma_id_of_bytes_finds_last(vocab, b);
    if id_of_bytes(vocab, b) is None {
        assert(encode_utf8(vocab[k]) != b);
    }
    let found = id_of_bytes(vocab, b).unwrap();
    if found < k {
        assert(encode_utf8(vocab[k]) != b);
    }
    if found > k {
        assert(encode_utf8(vocab[found]) != b);
    }
    assert(found == k);
    assert forall|m: int| len < m <= t.len() implies #[trigger] id_of_bytes(vocab, as_bytes(t.take(m))) is None by {
        lemma_id_of_bytes_finds_last(vocab, as_bytes(t.take(m)));
        if let Some(j) = id_of_bytes(vocab, as_bytes(t.take(m))) {
            assert(encode_utf8(vocab[j]) != as_bytes(t.take(m)));
        }
    }
    lemma_best_match_longest(t, vocab, t.len());
    match best_match(t, vocab, t.len()) {
        Some((l, kk)) => {
            if l < len {
                assert(id_of_bytes(vocab, as_bytes(t.take(len))) is None);
            }
            if l > len {
                assert(id_of_bytes(vocab, as_bytes(t.take(l as int))) is None);
            }
            assert(l == len && kk == k);
        },
        None => {
            assert(id_of_bytes(vocab, as_bytes(t.take(len))) is None);
        },
    }
}

/// Greedy tokenization gives the unknown token and moves on by one unit when
/// more than five units remain or no vocabulary token spells a prefix of
/// them.
pub proof fn lemma_greedy_unknown_without_match(t: Seq<u32>, vocab: Seq<Seq<char>>, unk: u32)
    requires
        t.len() > 0,
        t.len() > 5 || forall|m: int, j: int| 0 < m <= t.len() && 0 <= j < vocab.len()
            ==> encode_utf8(#[trigger] vocab[j]) != #[trigger] as_bytes(t.take(m)),
    ensures
        greedy_tokens(t, vocab, unk) == seq![unk] + greedy_tokens(t.skip(1), vocab, unk),
{
    if t.len() <= 5 {
        lemma_best_match_longest(t, vocab, t.len());
        if let Some((l, kk)) = best_match(t, vocab, t.len()) {
            lemma_id_of_bytes_finds_last(vocab, as_bytes(t.take(l as int)));
            assert(encode_utf8(vocab[kk]) != as_bytes(t.take(l as int)));
        }
    }
}

/// A merge rule whose pair never occurs next to each other leaves the units
/// as they are, and a pair `first, second` at the front becomes the merged
/// ID in front of the merged rest.
pub proof fn lemma_merge_pass_only_merges_pairs(t: Seq<u32>, first: u32, second: u32)
    ensures
        (forall|i: int| 0 <= i < t.len() - 1 ==> !(#[trigger] t[i] == first && t[i + 1] == second))
            ==> merge_pass(t, first, second) == t,
        t.len() >= 2 && t[0] == first && t[1] == second ==> merge_pass(t, first, second)
            == seq![((((first as u64) * 31) as u64) ^ (second as u64)) as u32] + merge_pass(t.skip(2), first, second),
    decreases t.len(),
{
    if t.len() > 0 {
        lemma_merge_pass_only_merges_pairs(t.skip(1), first, second);
        if forall|i: int| 0 <= i < t.len() - 1 ==> !(#[trigger] t[i] == first && t[i + 1] == second) {
            assert forall|i: int| 0 <= i < t.skip(1).len() - 1 implies !(#[trigger] t.skip(1)[i] == first
                && t.skip(1)[i + 1] == second) by {
                assert(t.skip(1)[i] == t[i + 1] && t.skip(1)[i + 1] == t[i + 2]);
            }
            assert(!(t[0] == first && t[1] == second) || t.len() < 2);
            assert(seq![t[0]] + t.skip(1) =~= t);
        }
    }
}

} // verus!
