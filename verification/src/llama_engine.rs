//! A llama-style engine: a model context that is loaded and unloaded, and a
//! generator whose replies depend on the words of the prompt.
use vstd::prelude::*;

use crate::error::{text, MinervaError, MinervaResult};
use crate::util::{chars_of, string_from_chars};

verus! {

/// Whether `c` has Unicode's `White_Space` property, the test that std's
/// `char::is_whitespace` makes.
pub open spec fn is_white_space(c: char) -> bool {
    ||| ('\u{9}' <= c && c <= '\u{d}')
    ||| c == ' '
    ||| c == '\u{85}'
    ||| c == '\u{a0}'
    ||| c == '\u{1680}'
    ||| ('\u{2000}' <= c && c <= '\u{200a}')
    ||| c == '\u{2028}'
    ||| c == '\u{2029}'
    ||| c == '\u{202f}'
    ||| c == '\u{205f}'
    ||| c == '\u{3000}'
}

/// Whether `c` is white space.
pub fn white_space(c: char) -> (r: bool)
    ensures
        r == is_white_space(c),
{
    ('\u{9}' <= c && c <= '\u{d}') || c == ' ' || c == '\u{85}' || c == '\u{a0}' || c == '\u{1680}'
        || ('\u{2000}' <= c && c <= '\u{200a}') || c == '\u{2028}' || c == '\u{2029}' || c
        == '\u{202f}' || c == '\u{205f}' || c == '\u{3000}'
}

/// The words of `s`: its maximal runs of characters that are not white
/// space, in order.
pub open spec fn words(s: Seq<char>) -> Seq<Seq<char>>
    decreases s.len(),
{
    if s.len() == 0 {
        Seq::empty()
    } else {
        let w = words(s.drop_last());
        let c = s.last();
        if is_white_space(c) {
            w
        } else if s.len() > 1 && !is_white_space(s[s.len() - 2]) {
            w.update(w.len() - 1, w.last().push(c))
        } else {
            w.push(seq![c])
        }
    }
}

/// A string ending in a character that is not white space has a word.
proof fn lemma_words_nonempty(s: Seq<char>)
    requires
        s.len() > 0,
        !is_white_space(s.last()),
    ensures
        words(s).len() > 0,
    decreases s.len(),
{
    if s.len() > 1 && !is_white_space(s[s.len() - 2]) {
        lemma_words_nonempty(s.drop_last());
    }
}

/// Every word is a nonempty run of characters that are not white space.
pub open spec fn proper_words(ws: Seq<Seq<char>>) -> bool {
    forall|k: int| 0 <= k < ws.len() ==> (#[trigger] ws[k]).len() > 0 && forall|j: int| 0 <= j < ws[k].len() ==> !is_white_space(#[trigger] ws[k][j])
}

/// The words of a string are proper words.
proof fn lemma_words_proper(s: Seq<char>)
    ensures
        proper_words(words(s)),
    decreases s.len(),
{
    if s.len() > 0 {
        lemma_words_proper(s.drop_last());
        let w = words(s.drop_last());
        let c = s.last();
        if !is_white_space(c) {
            if s.len() > 1 && !is_white_space(s[s.len() - 2]) {
                lemma_words_nonempty(s.drop_last());
                let u = w.update(w.len() - 1, w.last().push(c));
                assert forall|k: int| 0 <= k < u.len() implies (#[trigger] u[k]).len() > 0 && forall|j: int| 0 <= j < u[k].len() ==> !is_white_space(#[trigger] u[k][j]) by {
                    if k == w.len() - 1 {
                        assert forall|j: int| 0 <= j < u[k].len() implies !is_white_space(#[trigger] u[k][j]) by {
                            if j < w.last().len() {
                                assert(u[k][j] == w[k][j]);
                            }
                        }
                    }
                }
            } else {
                let u = w.push(seq![c]);
                assert forall|k: int| 0 <= k < u.len() implies (#[trigger] u[k]).len() > 0 && forall|j: int| 0 <= j < u[k].len() ==> !is_white_space(#[trigger] u[k][j]) by {
                    if k < w.len() {
                        assert(u[k] == w[k]);
                    }
                }
            }
        }
    }
}

/// After a string that is empty or ends in white space, a proper word adds
/// itself as the last word.
proof fn lemma_words_append_word(p: Seq<char>, w: Seq<char>)
    requires
        p.len() == 0 || is_white_space(p.last()),
        w.len() > 0,
        forall|j: int| 0 <= j < w.len() ==> !is_white_space(#[trigger] w[j]),
    ensures
        words(p + w) == words(p).push(w),
    decreases w.len(),
{
    let c = w.last();
    let v = w.drop_last();
    assert((p + w).drop_last() =~= p + v);
    assert((p + w).last() == c);
    assert(!is_white_space(w[w.len() - 1]));
    if v.len() == 0 {
        assert(p + v =~= p);
        if p.len() > 0 {
            assert((p + w)[(p + w).len() - 2] == p.last());
        }
        assert(seq![c] =~= w);
    } else {
        assert forall|j: int| 0 <= j < v.len() implies !is_white_space(#[trigger] v[j]) by {
            assert(v[j] == w[j]);
        }
        lemma_words_append_word(p, v);
        assert((p + w)[(p + w).len() - 2] == v.last());
        assert(!is_white_space(w[v.len() - 1]));
        assert(v.push(c) =~= w);
        assert(words(p).push(v).update(words(p).len() as int, v.push(c)) =~= words(p).push(w));
    }
}

/// Joining proper words by single spaces and splitting the result into
/// words gives them back.
proof fn lemma_words_of_joined(ws: Seq<Seq<char>>)
    requires
        proper_words(ws),
    ensures
        words(joined(ws)) == ws,
    decreases ws.len(),
{
    if ws.len() == 0 {
        assert(words(Seq::<char>::empty()) =~= ws);
    } else if ws.len() == 1 {
        assert(ws[0].len() > 0);
        lemma_words_append_word(Seq::empty(), ws[0]);
        assert(Seq::<char>::empty() + ws[0] =~= ws[0]);
        assert(Seq::<Seq<char>>::empty().push(ws[0]) =~= ws);
    } else {
        let init = ws.drop_last();
        assert(proper_words(init)) by {
            assert forall|k: int| 0 <= k < init.len() implies (#[trigger] init[k]).len() > 0 && forall|j: int| 0 <= j < init[k].len() ==> !is_white_space(#[trigger] init[k][j]) by {
                assert(init[k] == ws[k]);
            }
        }
        lemma_words_of_joined(init);
        let spaced = joined(init) + seq![' '];
        assert(spaced.drop_last() =~= joined(init));
        assert(spaced.last() == ' ');
        assert(words(spaced) == words(joined(init)));
        assert(ws.last() == ws[ws.len() - 1]);
        lemma_words_append_word(spaced, ws.last());
        assert(joined(ws) =~= spaced + ws.last());
        assert(init.push(ws.last()) =~= ws);
    }
}

/// The reply to any prompt has at most `max_tokens` words.
pub proof fn lemma_reply_within_budget(prompt: Seq<char>, lower: Seq<char>, max_tokens: nat)
    ensures
        words(reply_text(prompt, lower, max_tokens)).len() <= max_tokens,
{
    let b = base_reply(prompt, lower);
    if words(b).len() > max_tokens {
        lemma_words_proper(b);
        let t = words(b).take(max_tokens as int);
        assert(proper_words(t)) by {
            assert forall|k: int| 0 <= k < t.len() implies (#[trigger] t[k]).len() > 0 && forall|j: int| 0 <= j < t[k].len() ==> !is_white_space(#[trigger] t[k][j]) by {
                assert(t[k] == words(b)[k]);
            }
        }
        lemma_words_of_joined(t);
    }
}

/// The words joined by single spaces.
pub open spec fn joined(ws: Seq<Seq<char>>) -> Seq<char>
    decreases ws.len(),
{
    if ws.len() == 0 {
        Seq::empty()
    } else if ws.len() == 1 {
        ws[0]
    } else {
        joined(ws.drop_last()) + seq![' '] + ws.last()
    }
}

/// Whether `needle` occurs in `hay`.
pub open spec fn has_infix(hay: Seq<char>, needle: Seq<char>) -> bool {
    exists|i: int| 0 <= i && i + needle.len() <= hay.len() && #[trigger] hay.subrange(i, i + needle.len()) == needle
}

/// Reply to a greeting.
pub open spec fn greeting_reply() -> Seq<char> {
    "Hello! I'm a language model. How can I help you today? "@
}

/// Reply to a `what` or `how` question.
pub open spec fn question_reply() -> Seq<char> {
    "That's an interesting question. Let me think about it. Based on the context provided, there are several important aspects to consider. First, we should examine the core principles involved. Then, we can analyze the practical implications. Finally, we can draw reasonable conclusions. "@
}

/// Reply to a `why` question.
pub open spec fn reason_reply() -> Seq<char> {
    "There are several reasons for this. The primary reason is that systems tend to follow natural principles and efficiency patterns. Additionally, historical precedent suggests this approach has proven effective. Furthermore, contemporary research supports this understanding. "@
}

/// Reply to a request for an explanation.
pub open spec fn explanation_reply() -> Seq<char> {
    "Let me provide a comprehensive explanation. The topic in question involves multiple interconnected components. To understand it fully, we must first establish the foundational concepts. Building on that foundation, we can explore more advanced aspects. This systematic approach enables deeper comprehension. "@
}

/// Start of the reply that quotes the prompt.
pub open spec fn echo_prefix() -> Seq<char> {
    "You asked: \""@
}

/// End of the reply that quotes the prompt.
pub open spec fn echo_suffix() -> Seq<char> {
    "\". This is an important question that relates to several interconnected concepts. A thorough analysis would require examining the underlying principles, the current state of knowledge, and the practical implications. Different perspectives exist on this topic, each with valid justifications. "@
}

/// The full reply to `prompt`, chosen by the words that its lower-cased
/// form `lower` contains.
pub open spec fn base_reply(prompt: Seq<char>, lower: Seq<char>) -> Seq<char> {
    if has_infix(lower, "hello"@) || has_infix(lower, "hi"@) {
        greeting_reply()
    } else if has_infix(lower, "what"@) || has_infix(lower, "how"@) {
        question_reply()
    } else if has_infix(lower, "why"@) {
        reason_reply()
    } else if has_infix(lower, "explain"@) || has_infix(lower, "describe"@) {
        explanation_reply()
    } else {
        echo_prefix() + prompt + echo_suffix()
    }
}

/// The reply, cut to its first `max_tokens` words (joined by single spaces)
/// when it has more.
pub open spec fn reply_text(prompt: Seq<char>, lower: Seq<char>, max_tokens: nat) -> Seq<char> {
    let b = base_reply(prompt, lower);
    if words(b).len() > max_tokens {
        joined(words(b).take(max_tokens as int))
    } else {
        b
    }
}

/// What std's `str::to_lowercase` returns for a string.
pub uninterp spec fn lowercase_text(s: Seq<char>) -> Seq<char>;

/// Lower-cases `s`.
///
/// Trusted: calls std's `str::to_lowercase`. Its Unicode case mapping is not
/// stated; the contract only names the result, a function of `s`.
#[verifier::external_body]
pub(crate) fn lowercase(s: &str) -> (r: String)
    ensures
        r@ == lowercase_text(s@),
{
    s.to_lowercase()
}

/// How many logical CPUs the process may use.
///
/// Trusted: calls `num_cpus::get`, whose documentation promises at least 1.
#[verifier::external_body]
pub(crate) fn cpu_count() -> (r: usize)
    ensures
        r >= 1,
{
    num_cpus::get()
}

/// Whether `hay` holds `needle` from position `at` on.
fn occurs_at(hay: &Vec<char>, needle: &Vec<char>, at: usize) -> (r: bool)
    requires
        at + needle@.len() <= hay@.len(),
    ensures
        r == (hay@.subrange(at as int, at + needle@.len()) == needle@),
{
    let _hay_len = hay.len();
    let mut k: usize = 0;
    while k < needle.len()
        invariant
            k <= needle@.len(),
            at + needle@.len() <= hay@.len(),
            hay@.len() <= usize::MAX,
            forall|j: int| 0 <= j < k ==> hay@[at + j] == needle@[j],
        decreases needle@.len() - k,
    {
        if hay[at + k] != needle[k] {
            proof {
                assert(hay@.subrange(at as int, at + needle@.len())[k as int] != needle@[k as int]);
            }
            return false;
        }
        k = k + 1;
    }
    proof {
        assert(hay@.subrange(at as int, at + needle@.len()) =~= needle@);
    }
    true
}

/// Whether `needle` occurs in `hay`.
pub fn contains_text(hay: &Vec<char>, needle: &str) -> (r: bool)
    ensures
        r == has_infix(hay@, needle@),
{
    let n = chars_of(needle);
    if n.len() > hay.len() {
        return false;
    }
    let last = hay.len() - n.len();
    let mut i: usize = 0;
    while i <= last
        invariant
            last + n@.len() == hay@.len(),
            n@ == needle@,
            forall|j: int| 0 <= j < i ==> #[trigger] hay@.subrange(j, j + n@.len()) != n@,
        decreases last + 1 - i,
    {
        if occurs_at(hay, &n, i) {
            return true;
        }
        if i == last {
            proof {
                assert forall|j: int| 0 <= j && j + n@.len() <= hay@.len() implies #[trigger] hay@.subrange(j, j + n@.len()) != n@ by {
                    assert(j <= i);
                }
            }
            return false;
        }
        i = i + 1;
    }
    false
}

/// The words of `s`.
pub fn split_words(s: &Vec<char>) -> (r: Vec<Vec<char>>)
    ensures
        r@.len() == words(s@).len(),
        forall|k: int| 0 <= k < r@.len() ==> (#[trigger] r@[k])@ == words(s@)[k],
{
    let mut out: Vec<Vec<char>> = Vec::new();
    let mut i: usize = 0;
    while i < s.len()
        invariant
            i <= s@.len(),
            out@.len() == words(s@.subrange(0, i as int)).len(),
            forall|k: int| 0 <= k < out@.len() ==> (#[trigger] out@[k])@ == words(s@.subrange(0, i as int))[k],
        decreases s@.len() - i,
    {
        let c = s[i];
        let ghost pre = s@.subrange(0, i as int);
        let ghost post = s@.subrange(0, i + 1);
        proof {
            assert(post.drop_last() =~= pre);
            assert(post.last() == c);
        }
        if white_space(c) {
        } else if i > 0 && !white_space(s[i - 1]) {
            proof {
                assert(post[post.len() - 2] == s@[i - 1]);
                assert(pre.last() == s@[i - 1]);
                lemma_words_nonempty(pre);
            }
            let mut w = out.pop().unwrap();
            w.push(c);
            out.push(w);
        } else {
            proof {
                if i > 0 {
                    assert(post[post.len() - 2] == s@[i - 1]);
                }
            }
            let mut w: Vec<char> = Vec::new();
            w.push(c);
            proof {
                assert(w@ =~= seq![c]);
            }
            out.push(w);
        }
        proof {
            let ws = words(post);
            assert forall|k: int| 0 <= k < out@.len() implies (#[trigger] out@[k])@ == ws[k] by {
            }
        }
        i = i + 1;
    }
    proof {
        assert(s@.subrange(0, s@.len() as int) =~= s@);
    }
    out
}

/// The first `count` words joined by single spaces.
pub fn join_words(ws: &Vec<Vec<char>>, count: usize) -> (r: String)
    requires
        count <= ws@.len(),
    ensures
        r@ == joined(ws@.map_values(|w: Vec<char>| w@).take(count as int)),
{
    let ghost views = ws@.map_values(|w: Vec<char>| w@);
    let mut out: Vec<char> = Vec::new();
    let mut k: usize = 0;
    while k < count
        invariant
            k <= count <= ws@.len(),
            views == ws@.map_values(|w: Vec<char>| w@),
            out@ == joined(views.take(k as int)),
        decreases count - k,
    {
        let ghost before = out@;
        if k > 0 {
            out.push(' ');
        }
        let w = &ws[k];
        let mut j: usize = 0;
        let ghost mid = out@;
        while j < w.len()
            invariant
                j <= w@.len(),
                out@ == mid + w@.subrange(0, j as int),
            decreases w@.len() - j,
        {
            out.push(w[j]);
            j = j + 1;
            proof {
                assert(out@ =~= mid + w@.subrange(0, j as int));
            }
        }
        proof {
            assert(w@.subrange(0, w@.len() as int) =~= w@);
            let t = views.take(k + 1);
            assert(t.drop_last() =~= views.take(k as int));
            assert(t.last() == w@);
            if k == 0 {
                assert(out@ =~= w@);
            } else {
                assert(out@ =~= before + seq![' '] + w@);
            }
        }
        k = k + 1;
    }
    string_from_chars(&out)
}

/// The reply to `prompt`, given its lower-cased form `prompt_lower`, cut to
/// `max_tokens` words.
pub fn reply_for(prompt: &str, prompt_lower: &str, max_tokens: usize) -> (r: String)
    ensures
        r@ == reply_text(prompt@, prompt_lower@, max_tokens as nat),
{
    let lower = chars_of(prompt_lower);
    let base = if contains_text(&lower, "hello") || contains_text(&lower, "hi") {
        text("Hello! I'm a language model. How can I help you today? ")
    } else if contains_text(&lower, "what") || contains_text(&lower, "how") {
        text("That's an interesting question. Let me think about it. Based on the context provided, there are several important aspects to consider. First, we should examine the core principles involved. Then, we can analyze the practical implications. Finally, we can draw reasonable conclusions. ")
    } else if contains_text(&lower, "why") {
        text("There are several reasons for this. The primary reason is that systems tend to follow natural principles and efficiency patterns. Additionally, historical precedent suggests this approach has proven effective. Furthermore, contemporary research supports this understanding. ")
    } else if contains_text(&lower, "explain") || contains_text(&lower, "describe") {
        text("Let me provide a comprehensive explanation. The topic in question involves multiple interconnected components. To understand it fully, we must first establish the foundational concepts. Building on that foundation, we can explore more advanced aspects. This systematic approach enables deeper comprehension. ")
    } else {
        let mut t = text("You asked: \"");
        t.append(prompt);
        t.append("\". This is an important question that relates to several interconnected concepts. A thorough analysis would require examining the underlying principles, the current state of knowledge, and the practical implications. Different perspectives exist on this topic, each with valid justifications. ");
        t
    };
    let base_chars = chars_of(base.as_str());
    let ws = split_words(&base_chars);
    if ws.len() > max_tokens {
        let r = join_words(&ws, max_tokens);
        proof {
            assert(ws@.map_values(|w: Vec<char>| w@) =~= words(base@));
        }
        r
    } else {
        base
    }
}

/// What the engine knows of a loaded model.
#[derive(Debug)]
struct InferenceContext {
    n_ctx: usize,
    n_threads: usize,
    is_mock: bool,
}

/// The size of a loaded context and the file it came from.
#[derive(Debug, Clone)]
pub struct ContextInfo {
    /// Context length in tokens
    pub context_size: usize,
    /// Worker threads
    pub thread_count: usize,
    /// Path of the model file
    pub model_path: String,
}

/// An engine bound to one model file, with its context once loaded.
#[derive(Debug)]
pub struct LlamaEngine {
    model_path: String,
    context: Option<InferenceContext>,
}

impl LlamaEngine {
    /// Path of the model file.
    pub closed spec fn path_of(&self) -> Seq<char> {
        self.model_path@
    }

    /// Context length and thread count of the loaded context, if any.
    pub closed spec fn loaded(&self) -> Option<(usize, usize)> {
        match self.context {
            Some(c) => Some((c.n_ctx, c.n_threads)),
            None => None,
        }
    }

    /// Engine for the model at `model_path`, not loaded.
    pub fn new(model_path: String) -> (r: Self)
        ensures
            r.path_of() == model_path@,
            r.loaded() is None,
    {
        LlamaEngine { model_path, context: None }
    }

    /// Loads a context of `n_ctx` tokens; `path_exists` tells whether the
    /// model file is there. A loaded engine stays as it is.
    pub fn load(&mut self, n_ctx: usize, path_exists: bool) -> (r: MinervaResult<()>)
        ensures
            final(self).path_of() == old(self).path_of(),
            !path_exists ==> final(self).loaded() == old(self).loaded() && (r matches Err(
                MinervaError::ModelNotFound(m),
            ) && m@ == "Model file not found: "@ + old(self).path_of()),
            path_exists ==> r is Ok,
            path_exists && old(self).loaded() is Some ==> final(self).loaded() == old(self).loaded(),
            path_exists && old(self).loaded() is None ==> (final(self).loaded() matches Some((c, t)) && c
                == n_ctx && t >= 1),
    {
        if !path_exists {
            let mut m = text("Model file not found: ");
            m.append(self.model_path.as_str());
            return Err(MinervaError::ModelNotFound(m));
        }
        if self.context.is_some() {
            return Ok(());
        }
        let n_threads = cpu_count();
        self.context = Some(InferenceContext { n_ctx, n_threads, is_mock: true });
        Ok(())
    }

    /// Drops the loaded context.
    pub fn unload(&mut self)
        ensures
            final(self).path_of() == old(self).path_of(),
            final(self).loaded() is None,
    {
        self.context = None;
    }

    /// Whether a context is loaded.
    pub fn is_loaded(&self) -> (r: bool)
        ensures
            r == self.loaded() is Some,
    {
        self.context.is_some()
    }

    /// Generates a reply of at most `max_tokens` words to `prompt`.
    pub fn generate(&self, prompt: &str, max_tokens: usize) -> (r: MinervaResult<String>)
        ensures
            self.loaded() is None ==> (r matches Err(MinervaError::InferenceError(m)) && m@
                == "Model not loaded"@),
            self.loaded() matches Some((c, _)) ==> (max_tokens > c ==> (r matches Err(
                MinervaError::ContextLimitExceeded { max, required },
            ) && max == c && required == max_tokens)),
            self.loaded() matches Some((c, _)) ==> (max_tokens <= c ==> (r matches Ok(s) && s@
                == reply_text(prompt@, lowercase_text(prompt@), max_tokens as nat))),
    {
        match &self.context {
            None => Err(MinervaError::InferenceError(text("Model not loaded"))),
            Some(context) => {
                if max_tokens > context.n_ctx {
                    return Err(
                        MinervaError::ContextLimitExceeded { max: context.n_ctx, required: max_tokens },
                    );
                }
                let lower = lowercase(prompt);
                Ok(reply_for(prompt, lower.as_str(), max_tokens))
            },
        }
    }

    /// Size, thread count and model path of the loaded context.
    pub fn get_context_info(&self) -> (r: MinervaResult<ContextInfo>)
        ensures
            self.loaded() is None ==> (r matches Err(MinervaError::InferenceError(m)) && m@
                == "Model not loaded"@),
            self.loaded() matches Some((c, t)) ==> (r matches Ok(info) && info.context_size == c
                && info.thread_count == t && info.model_path@ == self.path_of()),
    {
        match &self.context {
            None => Err(MinervaError::InferenceError(text("Model not loaded"))),
            Some(context) => Ok(
                ContextInfo {
                    context_size: context.n_ctx,
                    thread_count: context.n_threads,
                    model_path: self.model_path.clone(),
                },
            ),
        }
    }
}

} // verus!
