//! The llama.cpp backend's own decisions: which model files it takes and
//! what it answers for the others, whether a model is loaded, and how it
//! tokenizes with or without a tokenizer. Reading a model file and running
//! llama.cpp on it happen outside this module, which is told the outcome.
use vstd::prelude::*;

use crate::backend_selector::{extension_of, path_extension};
use crate::error::{decimal_text, inference_err, text, text_with_number, MinervaError, MinervaResult};
use crate::llama_engine::{cpu_count, lowercase, lowercase_text, split_words, words};
use crate::llama_tokenizer::{
    all_known, apply_merges, byte_units, decoded_text, first_unknown, greedy_tokens, unknown_token_message,
    vocab_view, LLaMATokenizer,
};
use crate::util::{chars_of, str_eq};

verus! {

/// Name of the format a lower-cased file extension stands for.
pub open spec fn format_name(ext: Seq<char>) -> Seq<char> {
    if ext == "gguf"@ {
        "gguf"@
    } else if ext == "safetensors"@ {
        "safetensors"@
    } else if ext == "bin"@ {
        "huggingface"@
    } else if ext == "pt"@ {
        "pytorch"@
    } else if ext == "pb"@ {
        "tensorflow"@
    } else {
        "unknown"@
    }
}

/// Format of the file at `path`, by its extension in lower case.
pub open spec fn path_format(path: Seq<char>) -> Seq<char> {
    format_name(lowercase_text(path_extension(path)))
}

/// Advice appended when a file of format `format` is refused.
pub open spec fn format_guidance(format: Seq<char>) -> Seq<char> {
    if format == "safetensors"@ || format == "huggingface"@ {
        " (HuggingFace format detected - use pure Rust backend or convert to GGUF)"@
    } else if format == "pytorch"@ || format == "tensorflow"@ {
        " (PyTorch/TensorFlow format detected - convert to GGUF first)"@
    } else {
        " (unsupported format - convert to GGUF)"@
    }
}

/// The words of `text`, numbered from zero.
pub open spec fn word_numbers(text: Seq<char>) -> Seq<i32> {
    Seq::new(words(text).len(), |i: int| i as i32)
}

/// Model files of the llama.cpp backend.
#[derive(Debug)]
pub struct LlamaCppBackend {
    tokenizer: Option<LLaMATokenizer>,
    loaded: bool,
    n_ctx: usize,
    n_threads: usize,
}

/// Format of the file at `path`: `gguf`, `safetensors`, `huggingface`
/// (`.bin`), `pytorch` (`.pt`), `tensorflow` (`.pb`) or `unknown`, by its
/// extension without regard to case.
pub fn detect_format(path: &str) -> (r: &'static str)
    ensures
        r@ == path_format(path@),
{
    let ext = extension_of(path);
    let lower = lowercase(ext.as_str());
    let l = lower.as_str();
    if str_eq(l, "gguf") {
        "gguf"
    } else if str_eq(l, "safetensors") {
        "safetensors"
    } else if str_eq(l, "bin") {
        "huggingface"
    } else if str_eq(l, "pt") {
        "pytorch"
    } else if str_eq(l, "pb") {
        "tensorflow"
    } else {
        "unknown"
    }
}

/// Whether the backend takes the file at `path`: GGUF files only.
pub fn can_handle(path: &str) -> (r: bool)
    ensures
        r == (path_format(path@) == "gguf"@),
{
    let f = detect_format(path);
    str_eq(f, "gguf")
}

impl LlamaCppBackend {
    /// The tokenizer, when one is set.
    pub closed spec fn spec_tokenizer(&self) -> Option<LLaMATokenizer> {
        self.tokenizer
    }

    /// Whether a model and its session are loaded.
    pub closed spec fn spec_loaded(&self) -> bool {
        self.loaded
    }

    /// Context size of the loaded model.
    pub closed spec fn spec_n_ctx(&self) -> usize {
        self.n_ctx
    }

    /// Threads the backend uses.
    pub closed spec fn spec_n_threads(&self) -> usize {
        self.n_threads
    }

    /// Well-formedness: a tokenizer, when set, is well formed.
    pub open spec fn wf(&self) -> bool {
        self.spec_tokenizer() matches Some(t) ==> t.wf()
    }

    /// A backend with nothing loaded, no tokenizer, and one thread per CPU.
    pub fn new() -> (r: Self)
        ensures
            r.wf(),
            r.spec_tokenizer() is None,
            !r.spec_loaded(),
            r.spec_n_ctx() == 0,
            r.spec_n_threads() >= 1,
    {
        LlamaCppBackend { tokenizer: None, loaded: false, n_ctx: 0, n_threads: cpu_count() }
    }

    /// Sets the tokenizer.
    pub fn set_tokenizer(&mut self, tokenizer: LLaMATokenizer)
        requires
            tokenizer.wf(),
        ensures
            final(self).wf(),
            final(self).spec_tokenizer() == Some(tokenizer),
            final(self).spec_loaded() == old(self).spec_loaded(),
            final(self).spec_n_ctx() == old(self).spec_n_ctx(),
            final(self).spec_n_threads() == old(self).spec_n_threads(),
    {
        self.tokenizer = Some(tokenizer);
    }

    /// The tokenizer used when no other is set: `<unk>`, `<s>`, `</s>` and
    /// a few common English words.
    pub fn create_fallback_tokenizer() -> (r: LLaMATokenizer)
        ensures
            r.wf(),
            r.spec_vocab() == seq![
                "<unk>"@,
                "<s>"@,
                "</s>"@,
                "the"@,
                "a"@,
                "and"@,
                "to"@,
                "of"@,
                "in"@,
                "is"@,
            ],
    {
        let vocab = vec![
            text("<unk>"),
            text("<s>"),
            text("</s>"),
            text("the"),
            text("a"),
            text("and"),
            text("to"),
            text("of"),
            text("in"),
            text("is"),
        ];
        let ghost v = vocab@;
        match LLaMATokenizer::new(vocab) {
            Ok(t) => {
                proof {
                    assert(vocab_view(v) =~= seq![
                        "<unk>"@,
                        "<s>"@,
                        "</s>"@,
                        "the"@,
                        "a"@,
                        "and"@,
                        "to"@,
                        "of"@,
                        "in"@,
                        "is"@,
                    ]);
                }
                t
            },
            Err(_) => {
                proof {
                    assert(false);
                }
                LLaMATokenizer::new(vec![text("<unk>"), text("text")]).unwrap()
            },
        }
    }

    /// Checks a model file before llama.cpp is asked to load it: the file
    /// must exist and be a GGUF file.
    pub fn check_model_file(path: &str, path_exists: bool) -> (r: MinervaResult<()>)
        ensures
            !path_exists ==> (r matches Err(MinervaError::ModelNotFound(m)) && m@ == "Model file not found: "@
                + path@),
            path_exists && path_format(path@) != "gguf"@ ==> (r matches Err(MinervaError::InvalidRequest(m))
                && m@ == "llama.cpp backend only supports GGUF format, got: "@ + path_format(path@)
                + format_guidance(path_format(path@))),
            path_exists && path_format(path@) == "gguf"@ ==> r is Ok,
    {
        if !path_exists {
            let mut m = text("Model file not found: ");
            m.append(path);
            return Err(MinervaError::ModelNotFound(m));
        }
        let format = detect_format(path);
        if !str_eq(format, "gguf") {
            let guidance = if str_eq(format, "safetensors") || str_eq(format, "huggingface") {
                " (HuggingFace format detected - use pure Rust backend or convert to GGUF)"
            } else if str_eq(format, "pytorch") || str_eq(format, "tensorflow") {
                " (PyTorch/TensorFlow format detected - convert to GGUF first)"
            } else {
                " (unsupported format - convert to GGUF)"
            };
            let mut m = text("llama.cpp backend only supports GGUF format, got: ");
            m.append(format);
            m.append(guidance);
            return Err(MinervaError::InvalidRequest(m));
        }
        Ok(())
    }

    /// Records that llama.cpp loaded a model and created its session with
    /// a context of `n_ctx` tokens.
    pub fn record_loaded(&mut self, n_ctx: usize)
        ensures
            final(self).spec_loaded(),
            final(self).spec_n_ctx() == n_ctx,
            final(self).spec_tokenizer() == old(self).spec_tokenizer(),
            final(self).spec_n_threads() == old(self).spec_n_threads(),
    {
        self.loaded = true;
        self.n_ctx = n_ctx;
    }

    /// Drops the model, its session and the tokenizer.
    pub fn unload_model(&mut self)
        ensures
            final(self).wf(),
            !final(self).spec_loaded(),
            final(self).spec_tokenizer() is None,
            final(self).spec_n_ctx() == old(self).spec_n_ctx(),
            final(self).spec_n_threads() == old(self).spec_n_threads(),
    {
        self.loaded = false;
        self.tokenizer = None;
    }

    /// Checks that a model is loaded before generating.
    pub fn check_generate(&self) -> (r: MinervaResult<()>)
        ensures
            !self.spec_loaded() ==> inference_err(r, "Model not loaded"@),
            self.spec_loaded() ==> r is Ok,
    {
        if !self.loaded {
            return Err(MinervaError::InferenceError(text("Model not loaded")));
        }
        Ok(())
    }

    /// Token IDs of `text`: the tokenizer's, each as an `i32`, or without
    /// a tokenizer the numbers of the whitespace-separated words.
    pub fn tokenize(&self, text: &str) -> (r: MinervaResult<Vec<i32>>)
        requires
            self.wf(),
        ensures
            match self.spec_tokenizer() {
                Some(t) => r matches Ok(ids) && ids@ == greedy_tokens(
                    apply_merges(byte_units(text@), t.spec_merges()),
                    t.spec_vocab(),
                    t.spec_special().unk,
                ).map_values(|x: u32| x as i32),
                None => r matches Ok(ids) && ids@ == word_numbers(text@),
            },
    {
        match &self.tokenizer {
            Some(t) => {
                let tokens = t.encode(text)?;
                let mut out: Vec<i32> = Vec::new();
                let mut i: usize = 0;
                while i < tokens.len()
                    invariant
                        i <= tokens@.len(),
                        out@ == tokens@.take(i as int).map_values(|x: u32| x as i32),
                    decreases tokens@.len() - i,
                {
                    out.push(tokens[i] as i32);
                    i = i + 1;
                    proof {
                        assert(out@ =~= tokens@.take(i as int).map_values(|x: u32| x as i32));
                    }
                }
                proof {
                    assert(tokens@.take(i as int) =~= tokens@);
                }
                Ok(out)
            },
            None => {
                let cs = chars_of(text);
                let ws = split_words(&cs);
                let mut out: Vec<i32> = Vec::new();
                let mut i: usize = 0;
                while i < ws.len()
                    invariant
                        i <= ws@.len(),
                        ws@.len() == words(text@).len(),
                        out@ == Seq::new(i as nat, |k: int| k as i32),
                    decreases ws@.len() - i,
                {
                    out.push(i as i32);
                    i = i + 1;
                    proof {
                        assert(out@ =~= Seq::new(i as nat, |k: int| k as i32));
                    }
                }
                Ok(out)
            },
        }
    }

    /// Text of token IDs: the tokenizer's decoding of each ID as a `u32`,
    /// or without a tokenizer `[n tokens]`.
    pub fn detokenize(&self, tokens: &[i32]) -> (r: MinervaResult<String>)
        ensures
            match self.spec_tokenizer() {
                Some(t) => {
                    let ids = tokens@.map_values(|x: i32| x as u32);
                    &&& all_known(t.spec_vocab().len(), ids) ==> (r matches Ok(s) && s@ == decoded_text(
                        t.spec_vocab(),
                        ids,
                    ))
                    &&& !all_known(t.spec_vocab().len(), ids) ==> inference_err(
                        r,
                        unknown_token_message(first_unknown(t.spec_vocab().len(), ids)),
                    )
                },
                None => r matches Ok(s) && s@ == "["@ + decimal_text(tokens@.len()) + " tokens]"@,
            },
    {
        match &self.tokenizer {
            Some(t) => {
                let mut ids: Vec<u32> = Vec::new();
                let mut i: usize = 0;
                while i < tokens.len()
                    invariant
                        i <= tokens@.len(),
                        ids@ == tokens@.take(i as int).map_values(|x: i32| x as u32),
                    decreases tokens@.len() - i,
                {
                    ids.push(tokens[i] as u32);
                    i = i + 1;
                    proof {
                        assert(ids@ =~= tokens@.take(i as int).map_values(|x: i32| x as u32));
                    }
                }
                proof {
                    assert(tokens@.take(i as int) =~= tokens@);
                }
                t.decode(ids.as_slice())
            },
            None => Ok(text_with_number("[", tokens.len() as u128, " tokens]")),
        }
    }

    /// Whether a model is loaded.
    pub fn is_loaded(&self) -> (r: bool)
        ensures
            r == self.spec_loaded(),
    {
        self.loaded
    }

    /// Context size of the loaded model.
    pub fn context_size(&self) -> (r: usize)
        ensures
            r == self.spec_n_ctx(),
    {
        self.n_ctx
    }

    /// Threads the backend uses.
    pub fn thread_count(&self) -> (r: usize)
        ensures
            r == self.spec_n_threads(),
    {
        self.n_threads
    }
}

impl Default for LlamaCppBackend {
    fn default() -> (r: Self)
        ensures
            r.wf(),
            r.spec_tokenizer() is None,
            !r.spec_loaded(),
            r.spec_n_ctx() == 0,
            r.spec_n_threads() >= 1,
    {
        Self::new()
    }
}

} // verus!
