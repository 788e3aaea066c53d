//! Compact model descriptions: the `name|quant|size|tensors|layers|vocab`
//! summary string and its parsed form.
use vstd::prelude::*;

use crate::error::{decimal_text, digit_char};
use crate::util::{chars_of, string_from_chars};

verus! {

/// Summary of a model as tools see it.
#[derive(Debug, Clone)]
pub struct ModelInfo {
    /// Summary string `name|quant|size|tensors|layers|vocab`
    pub id: String,
    /// Time to read the summary in ms
    pub load_ms: u32,
    /// Whether the model can be loaded
    pub loadable: bool,
}

/// The fields of a summary string.
#[derive(Debug, Clone)]
pub struct ParsedModelInfo {
    /// Model name
    pub name: String,
    /// Quantization
    pub quant: String,
    /// Size in MB
    pub size_mb: u32,
    /// Number of tensors
    pub tensors: usize,
    /// Number of layers
    pub layers: usize,
    /// Vocabulary size
    pub vocab: usize,
}

impl Default for ParsedModelInfo {
    fn default() -> (r: Self)
        ensures
            r.name@.len() == 0,
            r.quant@.len() == 0,
            r.size_mb == 0,
            r.tensors == 0,
            r.layers == 0,
            r.vocab == 0,
    {
        ParsedModelInfo { name: String::new(), quant: String::new(), size_mb: 0, tensors: 0, layers: 0, vocab: 0 }
    }
}

/// The pieces of `s` between `sep` characters (one more piece than there are
/// separators).
pub open spec fn split_on(s: Seq<char>, sep: char) -> Seq<Seq<char>>
    decreases s.len(),
{
    if s.len() == 0 {
        seq![Seq::empty()]
    } else {
        let rest = split_on(s.drop_last(), sep);
        if s.last() == sep {
            rest.push(Seq::empty())
        } else {
            rest.update(rest.len() - 1, rest.last().push(s.last()))
        }
    }
}

proof fn lemma_split_on_nonempty(s: Seq<char>, sep: char)
    ensures
        split_on(s, sep).len() >= 1,
    decreases s.len(),
{
    if s.len() > 0 {
        lemma_split_on_nonempty(s.drop_last(), sep);
    }
}

/// Whether `c` is an ASCII digit.
pub open spec fn is_digit(c: char) -> bool {
    '0' <= c && c <= '9'
}

/// Value of a string of decimal digits.
pub open spec fn digits_value(s: Seq<char>) -> nat
    decreases s.len(),
{
    if s.len() == 0 {
        0
    } else {
        digits_value(s.drop_last()) * 10 + ((s.last() as u32) - ('0' as u32)) as nat
    }
}

/// `s` without a leading `+`, if it has one.
pub open spec fn unsigned_body(s: Seq<char>) -> Seq<char> {
    if s.len() > 0 && s[0] == '+' { s.skip(1) } else { s }
}

/// Whether every character of `d` is an ASCII digit.
pub open spec fn all_digits(d: Seq<char>) -> bool {
    forall|i: int| 0 <= i < d.len() ==> is_digit(#[trigger] d[i])
}

/// The digits of an unsigned decimal literal as std's `from_str` reads one:
/// an optional `+`, then at least one digit and nothing else.
pub open spec fn literal_digits(s: Seq<char>) -> Option<Seq<char>> {
    let d = unsigned_body(s);
    if d.len() > 0 && all_digits(d) {
        Some(d)
    } else {
        None
    }
}

/// The value std's `from_str` reads from `s` for an unsigned type whose
/// largest value is `max`, or zero when it reports an error.
pub open spec fn parse_or_zero(s: Seq<char>, max: nat) -> nat {
    match literal_digits(s) {
        Some(d) => if digits_value(d) <= max { digits_value(d) } else { 0 },
        None => 0,
    }
}

/// Reads an unsigned decimal literal no larger than `max`; zero on error.
fn parse_unsigned(s: &Vec<char>, max: u64) -> (r: u64)
    ensures
        r == parse_or_zero(s@, max as nat),
{
    let mut start: usize = 0;
    if s.len() > 0 && s[0] == '+' {
        start = 1;
    }
    let ghost d = unsigned_body(s@);
    proof {
        assert(d =~= s@.skip(start as int));
    }
    if start >= s.len() {
        return 0;
    }
    let mut j: usize = start;
    while j < s.len()
        invariant
            start <= j <= s@.len(),
            d == s@.skip(start as int),
            d == unsigned_body(s@),
            forall|k: int| 0 <= k < j - start ==> is_digit(#[trigger] d[k]),
        decreases s@.len() - j,
    {
        let c = s[j];
        proof {
            assert(d[j - start] == c);
        }
        if !('0' <= c && c <= '9') {
            proof {
                assert(!is_digit(d[j - start]));
            }
            return 0;
        }
        j = j + 1;
    }
    let mut value: u64 = 0;
    let mut i: usize = start;
    while i < s.len()
        invariant
            start <= i <= s@.len(),
            d == s@.skip(start as int),
            d == unsigned_body(s@),
            d.len() > 0,
            value <= max,
            value == digits_value(d.take(i - start)),
            forall|k: int| 0 <= k < d.len() ==> is_digit(#[trigger] d[k]),
        decreases s@.len() - i,
    {
        let c = s[i];
        proof {
            assert(d[i - start] == c);
            assert(d.take(i - start + 1).drop_last() =~= d.take(i - start));
        }
        let digit = (c as u64) - ('0' as u64);
        let next: u128 = (value as u128) * 10 + (digit as u128);
        if next > max as u128 {
            proof {
                let t = d.take(i - start + 1);
                assert(t.last() == c);
                assert(digits_value(t) == value * 10 + digit);
                lemma_digits_value_prefix_le(d, i - start + 1);
                assert(literal_digits(s@) == Some(d));
            }
            return 0;
        }
        proof {
            let t = d.take(i - start + 1);
            assert(t.last() == c);
            assert(digits_value(t) == value * 10 + digit);
        }
        value = next as u64;
        i = i + 1;
    }
    proof {
        assert(d.take(i - start) =~= d);
        assert(literal_digits(s@) == Some(d));
    }
    value
}

/// A prefix of a string of digits never reads as a larger number.
proof fn lemma_digits_value_prefix_le(d: Seq<char>, n: int)
    requires
        0 <= n <= d.len(),
        forall|k: int| 0 <= k < d.len() ==> is_digit(#[trigger] d[k]),
    ensures
        digits_value(d.take(n)) <= digits_value(d),
    decreases d.len() - n,
{
    if n < d.len() {
        lemma_digits_value_prefix_le(d, n + 1);
        assert(d.take(n + 1).drop_last() =~= d.take(n));
        assert(is_digit(d[n]));
    } else {
        assert(d.take(n) =~= d);
    }
}

/// The fields a summary string holds: six `|`-separated pieces, the last four
/// numbers (zero where a piece is not one); anything else gives empty fields.
pub open spec fn parsed_fields(id: Seq<char>) -> (Seq<char>, Seq<char>, nat, nat, nat, nat) {
    let parts = split_on(id, '|');
    if parts.len() == 6 {
        (
            parts[0],
            parts[1],
            parse_or_zero(parts[2], u32::MAX as nat),
            parse_or_zero(parts[3], usize::MAX as nat),
            parse_or_zero(parts[4], usize::MAX as nat),
            parse_or_zero(parts[5], usize::MAX as nat),
        )
    } else {
        (Seq::empty(), Seq::empty(), 0, 0, 0, 0)
    }
}

/// Splits `s` at every `sep`.
fn split_chars(s: &Vec<char>, sep: char) -> (r: Vec<Vec<char>>)
    ensures
        r@.len() == split_on(s@, sep).len(),
        forall|i: int| 0 <= i < r@.len() ==> (#[trigger] r@[i])@ == split_on(s@, sep)[i],
{
    let mut parts: Vec<Vec<char>> = Vec::new();
    let mut current: Vec<char> = Vec::new();
    let mut i: usize = 0;
    proof {
        assert(s@.subrange(0, 0) =~= Seq::<char>::empty());
    }
    while i < s.len()
        invariant
            i <= s@.len(),
            parts@.len() + 1 == split_on(s@.subrange(0, i as int), sep).len(),
            forall|k: int| 0 <= k < parts@.len() ==> (#[trigger] parts@[k])@ == split_on(s@.subrange(0, i as int), sep)[k],
            current@ == split_on(s@.subrange(0, i as int), sep).last(),
        decreases s@.len() - i,
    {
        let c = s[i];
        proof {
            let pre = s@.subrange(0, i as int);
            let post = s@.subrange(0, i + 1);
            assert(post.drop_last() =~= pre);
            assert(post.last() == c);
            lemma_split_on_nonempty(pre, sep);
        }
        if c == sep {
            parts.push(current);
            current = Vec::new();
            proof {
                assert(current@ =~= Seq::<char>::empty());
            }
        } else {
            current.push(c);
        }
        i = i + 1;
    }
    proof {
        assert(s@.subrange(0, i as int) =~= s@);
    }
    parts.push(current);
    proof {
        lemma_split_on_nonempty(s@, sep);
    }
    parts
}

impl ModelInfo {
    /// The fields of the summary string.
    pub fn parse(&self) -> (r: ParsedModelInfo)
        ensures
            ({
                let f = parsed_fields(self.id@);
                &&& r.name@ == f.0
                &&& r.quant@ == f.1
                &&& r.size_mb == f.2
                &&& r.tensors == f.3
                &&& r.layers == f.4
                &&& r.vocab == f.5
            }),
    {
        let cs = chars_of(self.id.as_str());
        let parts = split_chars(&cs, '|');
        if parts.len() == 6 {
            let size = parse_unsigned(&parts[2], 0xffff_ffff);
            let tensors = parse_unsigned(&parts[3], usize::MAX as u64);
            let layers = parse_unsigned(&parts[4], usize::MAX as u64);
            let vocab = parse_unsigned(&parts[5], usize::MAX as u64);
            ParsedModelInfo {
                name: string_from_chars(&parts[0]),
                quant: string_from_chars(&parts[1]),
                size_mb: size as u32,
                tensors: tensors as usize,
                layers: layers as usize,
                vocab: vocab as usize,
            }
        } else {
            ParsedModelInfo::default()
        }
    }
}

/// The pieces joined with `sep` between them.
pub open spec fn join_on(parts: Seq<Seq<char>>, sep: char) -> Seq<char>
    decreases parts.len(),
{
    if parts.len() == 0 {
        Seq::empty()
    } else if parts.len() == 1 {
        parts[0]
    } else {
        join_on(parts.drop_last(), sep).push(sep) + parts.last()
    }
}

/// A summary string: the name, the quantization and the four numbers in
/// decimal, separated by `|`.
pub open spec fn summary_text(name: Seq<char>, quant: Seq<char>, size_mb: u32, tensors: usize, layers: usize, vocab: usize) -> Seq<char> {
    join_on(
        seq![
            name,
            quant,
            decimal_text(size_mb as nat),
            decimal_text(tensors as nat),
            decimal_text(layers as nat),
            decimal_text(vocab as nat),
        ],
        '|',
    )
}

/// Text without a `sep` character extends the last piece.
proof fn lemma_split_on_extend(p: Seq<char>, t: Seq<char>, sep: char)
    requires
        forall|i: int| 0 <= i < t.len() ==> t[i] != sep,
    ensures
        split_on(p + t, sep) == split_on(p, sep).update(
            split_on(p, sep).len() - 1,
            split_on(p, sep).last() + t,
        ),
    decreases t.len(),
{
    lemma_split_on_nonempty(p, sep);
    if t.len() == 0 {
        assert(p + t =~= p);
        assert(split_on(p, sep).last() + t =~= split_on(p, sep).last());
        assert(split_on(p, sep).update(split_on(p, sep).len() - 1, split_on(p, sep).last()) =~= split_on(p, sep));
    } else {
        let u = t.drop_last();
        assert forall|i: int| 0 <= i < u.len() implies u[i] != sep by {
            assert(u[i] == t[i]);
        }
        lemma_split_on_extend(p, u, sep);
        assert((p + t).drop_last() =~= p + u);
        assert((p + t).last() == t.last());
        assert(t.last() == t[t.len() - 1]);
        let w = split_on(p, sep);
        let rest = split_on(p + u, sep);
        assert(rest == w.update(w.len() - 1, w.last() + u));
        assert(split_on(p + t, sep) == rest.update(rest.len() - 1, rest.last().push(t.last())));
        assert((w.last() + u).push(t.last()) =~= w.last() + t);
        assert(rest.len() == w.len());
        assert(rest.last() == w.last() + u);
        assert(rest.update(rest.len() - 1, rest.last().push(t.last())) =~= w.update(w.len() - 1, w.last() + t));
    }
}

/// Splitting pieces joined by `sep` gives them back when none holds `sep`.
proof fn lemma_split_join(parts: Seq<Seq<char>>, sep: char)
    requires
        parts.len() > 0,
        forall|k: int, i: int| 0 <= k < parts.len() && 0 <= i < parts[k].len() ==> #[trigger] parts[k][i] != sep,
    ensures
        split_on(join_on(parts, sep), sep) == parts,
    decreases parts.len(),
{
    if parts.len() == 1 {
        assert forall|i: int| 0 <= i < parts[0].len() implies parts[0][i] != sep by {
            assert(parts[0][i] != sep);
        }
        lemma_split_on_extend(Seq::empty(), parts[0], sep);
        assert(Seq::<char>::empty() + parts[0] =~= parts[0]);
        assert(split_on(Seq::<char>::empty(), sep) =~= seq![Seq::<char>::empty()]);
        assert(seq![Seq::<char>::empty()].update(0, Seq::<char>::empty() + parts[0]) =~= parts);
    } else {
        let init = parts.drop_last();
        assert forall|k: int, i: int| 0 <= k < init.len() && 0 <= i < init[k].len() implies #[trigger] init[k][i] != sep by {
            assert(init[k] == parts[k]);
        }
        lemma_split_join(init, sep);
        let pre = join_on(init, sep).push(sep);
        assert(pre.drop_last() =~= join_on(init, sep));
        assert(pre.last() == sep);
        assert(split_on(pre, sep) == init.push(Seq::empty()));
        let last = parts.last();
        assert forall|i: int| 0 <= i < last.len() implies last[i] != sep by {
            assert(parts[parts.len() - 1][i] != sep);
        }
        lemma_split_on_extend(pre, last, sep);
        assert(init.push(Seq::empty()).update(init.len() as int, Seq::<char>::empty() + last) =~= parts);
    }
}

/// A decimal rendering is all digits, never empty, and reads back as the
/// number.
proof fn lemma_decimal_digits(n: nat)
    ensures
        decimal_text(n).len() > 0,
        all_digits(decimal_text(n)),
        digits_value(decimal_text(n)) == n,
    decreases n,
{
    let k = n % 10;
    assert(digit_char(k) as u32 == 48 + k);
    if n < 10 {
        let t = decimal_text(n);
        assert(t.drop_last() =~= Seq::<char>::empty());
        assert(digits_value(t) == digits_value(t.drop_last()) * 10 + ((t.last() as u32) - ('0' as u32)) as nat);
    } else {
        lemma_decimal_digits(n / 10);
        let d = decimal_text(n / 10);
        let t = d.push(digit_char(n % 10));
        assert(t.drop_last() =~= d);
        assert(digits_value(t) == digits_value(d) * 10 + k);
        assert(n == (n / 10) * 10 + k);
        assert forall|i: int| 0 <= i < t.len() implies is_digit(#[trigger] t[i]) by {
            if i < d.len() {
                assert(t[i] == d[i]);
            }
        }
    }
}

/// Parsing a number's decimal rendering gives the number back when it fits.
proof fn lemma_parse_decimal(n: nat, max: nat)
    requires
        n <= max,
    ensures
        parse_or_zero(decimal_text(n), max) == n,
{
    lemma_decimal_digits(n);
    let d = decimal_text(n);
    assert(is_digit(d[0]));
    assert(unsigned_body(d) == d);
}

/// Parsing a summary gives back the fields it was made from, when the name
/// and quantization hold no `|`.
pub proof fn lemma_parse_recovers_fields(
    name: Seq<char>,
    quant: Seq<char>,
    size_mb: u32,
    tensors: usize,
    layers: usize,
    vocab: usize,
)
    requires
        forall|i: int| 0 <= i < name.len() ==> name[i] != '|',
        forall|i: int| 0 <= i < quant.len() ==> quant[i] != '|',
    ensures
        parsed_fields(summary_text(name, quant, size_mb, tensors, layers, vocab)) == (
            name,
            quant,
            size_mb as nat,
            tensors as nat,
            layers as nat,
            vocab as nat,
        ),
{
    let parts = seq![
        name,
        quant,
        decimal_text(size_mb as nat),
        decimal_text(tensors as nat),
        decimal_text(layers as nat),
        decimal_text(vocab as nat),
    ];
    lemma_decimal_digits(size_mb as nat);
    lemma_decimal_digits(tensors as nat);
    lemma_decimal_digits(layers as nat);
    lemma_decimal_digits(vocab as nat);
    assert forall|k: int, i: int| 0 <= k < parts.len() && 0 <= i < parts[k].len() implies #[trigger] parts[k][i] != '|' by {
        if k >= 2 {
            assert(is_digit(parts[k][i]));
        }
    }
    lemma_split_join(parts, '|');
    lemma_parse_decimal(size_mb as nat, u32::MAX as nat);
    lemma_parse_decimal(tensors as nat, usize::MAX as nat);
    lemma_parse_decimal(layers as nat, usize::MAX as nat);
    lemma_parse_decimal(vocab as nat, usize::MAX as nat);
}

/// Estimated generation speed of a model.
#[derive(Debug, Clone)]
pub struct EstimatedThroughput {
    /// Tokens per second for one request
    pub tokens_per_second_single: u32,
    /// Tokens per second for a batch of twenty
    pub tokens_per_second_batch_20: u32,
    /// Floating-point operations per token
    pub estimated_flops_per_token: u64,
    /// Notes on the estimate
    pub notes: String,
}

/// A model summary and whether the model loads.
#[derive(Debug, Clone)]
pub struct CompactModelSpec {
    /// Summary string
    pub spec: String,
    /// Whether the model loads
    pub ok: bool,
}

impl CompactModelSpec {
    /// New spec.
    pub fn new(spec: String, ok: bool) -> (r: Self)
        ensures
            r.spec == spec,
            r.ok == ok,
    {
        CompactModelSpec { spec, ok }
    }

    /// Spec of a model's summary.
    pub fn from_info(info: &ModelInfo) -> (r: Self)
        ensures
            r.spec@ == info.id@,
            r.ok == info.loadable,
    {
        CompactModelSpec { spec: info.id.clone(), ok: info.loadable }
    }
}

} // verus!
