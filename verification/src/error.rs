use vstd::prelude::*;

verus! {

/// Errors reported by the inference library.
#[derive(Debug)]
pub enum MinervaError {
    /// A failure while running inference or managing inference state.
    InferenceError(String),
    /// A model file could not be found.
    ModelNotFound(String),
    /// An allocation would exceed the available memory.
    OutOfMemory(String),
    /// A request was rejected before any work was done.
    InvalidRequest(String),
    /// A model file could not be loaded or parsed.
    ModelLoadingError(String),
    /// A configuration failed a consistency check.
    ValidationError(String),
    /// A request asked for more tokens than the context holds.
    ContextLimitExceeded { max: usize, required: usize },
}

/// Result type used throughout the library.
pub type MinervaResult<T> = Result<T, MinervaError>;

/// `r` failed with an `InferenceError` carrying `msg`.
pub open spec fn inference_err<T>(r: MinervaResult<T>, msg: Seq<char>) -> bool {
    r matches Err(MinervaError::InferenceError(m)) && m@ == msg
}

/// Builds an owned string with the same characters as a literal.
pub fn text(s: &str) -> (r: String)
    ensures
        r@ == s@,
{
    s.to_owned()
}

/// The ASCII digit for `d`, which is below ten.
pub open spec fn digit_char(d: nat) -> char {
    (('0' as u32) + d) as char
}

/// Decimal rendering of a number: its digits, most significant first, with
/// no leading zeros (a single `0` for zero).
pub open spec fn decimal_text(n: nat) -> Seq<char>
    decreases n,
{
    if n < 10 {
        seq![digit_char(n)]
    } else {
        decimal_text(n / 10).push(digit_char(n % 10))
    }
}

/// The digit character for `d`.
fn digit(d: u8) -> (r: char)
    requires
        d < 10,
    ensures
        r == digit_char(d as nat),
{
    match d {
        0 => '0',
        1 => '1',
        2 => '2',
        3 => '3',
        4 => '4',
        5 => '5',
        6 => '6',
        7 => '7',
        8 => '8',
        _ => '9',
    }
}

/// Appends the decimal digits of `n`.
fn push_digits(n: u128, out: &mut Vec<char>)
    ensures
        final(out)@ == old(out)@ + decimal_text(n as nat),
    decreases n,
{
    if n >= 10 {
        push_digits(n / 10, out);
    }
    out.push(digit((n % 10) as u8));
    proof {
        if n >= 10 {
            assert(decimal_text(n as nat) == decimal_text((n / 10) as nat).push(digit_char((n % 10) as nat)));
        }
        assert(final(out)@ =~= old(out)@ + decimal_text(n as nat));
    }
}

/// Renders `n` in decimal.
pub fn render_decimal(n: u128) -> (r: String)
    ensures
        r@ == decimal_text(n as nat),
{
    let mut digits: Vec<char> = Vec::new();
    push_digits(n, &mut digits);
    proof {
        assert(digits@ =~= decimal_text(n as nat));
    }
    crate::util::string_from_chars(&digits)
}

/// `prefix` followed by the decimal rendering of `n`.
pub fn text_then_number(prefix: &str, n: u128) -> (r: String)
    ensures
        r@ == prefix@ + decimal_text(n as nat),
{
    let mut out = text(prefix);
    let digits = render_decimal(n);
    out.append(digits.as_str());
    out
}

/// `prefix`, the decimal rendering of `n`, then `suffix`.
pub fn text_with_number(prefix: &str, n: u128, suffix: &str) -> (r: String)
    ensures
        r@ == prefix@ + decimal_text(n as nat) + suffix@,
{
    let mut out = text(prefix);
    let digits = render_decimal(n);
    out.append(digits.as_str());
    out.append(suffix);
    out
}

impl MinervaError {
    /// The human-readable message carried by the error.
    pub fn to_string(&self) -> (r: String)
        ensures
            match self {
                MinervaError::InferenceError(m) => r@ == m@,
                MinervaError::ModelNotFound(m) => r@ == m@,
                MinervaError::OutOfMemory(m) => r@ == m@,
                MinervaError::InvalidRequest(m) => r@ == m@,
                MinervaError::ModelLoadingError(m) => r@ == m@,
                MinervaError::ValidationError(m) => r@ == m@,
                MinervaError::ContextLimitExceeded { max, required } => r@ == "Context limit exceeded: max "@
                    + decimal_text(*max as nat) + ", required "@ + decimal_text(*required as nat),
            },
    {
        match self {
            MinervaError::InferenceError(m) => m.clone(),
            MinervaError::ModelNotFound(m) => m.clone(),
            MinervaError::OutOfMemory(m) => m.clone(),
            MinervaError::InvalidRequest(m) => m.clone(),
            MinervaError::ModelLoadingError(m) => m.clone(),
            MinervaError::ValidationError(m) => m.clone(),
            MinervaError::ContextLimitExceeded { max, required } => {
                let mut out = text_with_number("Context limit exceeded: max ", *max as u128, ", required ");
                let digits = render_decimal(*required as u128);
                out.append(digits.as_str());
                out
            },
        }
    }

    /// True for the `InferenceError` variant.
    pub fn is_inference_error(&self) -> (r: bool)
        ensures
            r == (self is InferenceError),
    {
        match self {
            MinervaError::InferenceError(_) => true,
            _ => false,
        }
    }
}

} // verus!
