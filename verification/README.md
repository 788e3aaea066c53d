# minerva

A local LLM inference library whose decisions are verified with Verus:
model-format detection and backend selection, GGUF and SafeTensors
parsing, the LLaMA tokenizer, key-value caches, GPU memory pools and batch
scheduling, cache sizing and garbage collection, the download cache, the
inference pipeline's token logic, and the shape checks of every numeric
kernel.

Layout:

- `src/` — the verified library. Its functions carry `requires` /
  `ensures` contracts over spec functions and views (constructors of
  field-less types and the raw clock read in `time.rs` state nothing);
  laws that relate several calls are public `proof fn`s (`lemma_*`).
  Calls into std and outside crates stand behind a few trusted wrappers,
  each with a doc comment that says what its contract claims; the system
  clock is read through one of them, as a span since the Unix epoch, and
  every decision that depends on time also has a `*_at` form that takes
  the instant as an argument. Floating-point values
  that the library only stores or copies are held as their IEEE-754 bit
  patterns (`u32`).
- `tests/` — tests of the library on concrete values.
- `app/` — what Verus does not check: file and environment access, timing
  of app-side work,
  threads and async tasks, floating-point arithmetic, `ndarray` and
  llama.cpp calls, and serde copies of the library's types.
