//! Time spans and clock readings as plain integers.
use vstd::prelude::*;

verus! {

/// Nanoseconds in one second.
pub const NANOS_PER_SEC: u32 = 1_000_000_000;

/// A span of time: whole seconds plus a nanosecond part below one second.
#[derive(Clone, Copy, Debug, PartialEq, Eq, Structural)]
pub struct Duration {
    secs: u64,
    nanos: u32,
}

impl Duration {
    /// Whole seconds.
    pub closed spec fn spec_secs(self) -> u64 {
        self.secs
    }

    /// Nanoseconds beyond the whole seconds.
    pub closed spec fn spec_subsec_nanos(self) -> u32 {
        self.nanos
    }

    /// The span in nanoseconds.
    pub open spec fn total_nanos(self) -> int {
        self.spec_secs() * 1_000_000_000 + self.spec_subsec_nanos()
    }

    /// Well-formedness: the nanosecond part stays below one second.
    pub open spec fn wf(self) -> bool {
        self.spec_subsec_nanos() < 1_000_000_000
    }

    /// The longest representable span, in nanoseconds.
    pub open spec fn max_nanos() -> int {
        u64::MAX * 1_000_000_000 + 999_999_999
    }

    /// A span of exactly `n` nanoseconds.
    pub closed spec fn from_total(n: int) -> Duration {
        Duration { secs: (n / 1_000_000_000) as u64, nanos: (n % 1_000_000_000) as u32 }
    }

    proof fn lemma_from_total(n: int)
        requires
            0 <= n <= Self::max_nanos(),
        ensures
            Self::from_total(n).wf(),
            Self::from_total(n).total_nanos() == n,
    {
        assert(n / 1_000_000_000 <= u64::MAX) by (nonlinear_arith)
            requires 0 <= n <= u64::MAX * 1_000_000_000 + 999_999_999;
        assert(n == (n / 1_000_000_000) * 1_000_000_000 + n % 1_000_000_000) by (nonlinear_arith);
    }

    /// The empty span.
    pub fn zero() -> (r: Self)
        ensures
            r.wf(),
            r.total_nanos() == 0,
    {
        Duration { secs: 0, nanos: 0 }
    }

    /// A span of `secs` seconds.
    pub fn from_secs(secs: u64) -> (r: Self)
        ensures
            r.wf(),
            r.total_nanos() == secs * 1_000_000_000,
    {
        Duration { secs, nanos: 0 }
    }

    /// A span of `millis` milliseconds.
    pub fn from_millis(millis: u64) -> (r: Self)
        ensures
            r.wf(),
            r.total_nanos() == millis * 1_000_000,
    {
        let secs = millis / 1000;
        let rem = millis % 1000;
        let nanos: u32 = (rem as u32) * 1_000_000;
        proof {
            assert(millis == secs * 1000 + rem) by (nonlinear_arith)
                requires secs == millis / 1000, rem == millis % 1000;
            assert(secs * 1_000_000_000 + rem * 1_000_000 == millis * 1_000_000) by (nonlinear_arith)
                requires millis == secs * 1000 + rem;
        }
        Duration { secs, nanos }
    }

    /// A span of `n` nanoseconds.
    pub fn from_nanos(n: u64) -> (r: Self)
        ensures
            r.wf(),
            r.total_nanos() == n,
    {
        let secs = n / 1_000_000_000;
        let nanos = (n % 1_000_000_000) as u32;
        proof {
            assert(n == secs * 1_000_000_000 + n % 1_000_000_000) by (nonlinear_arith)
                requires secs == n / 1_000_000_000;
        }
        Duration { secs, nanos }
    }

    /// Whole seconds in the span.
    pub fn as_secs(&self) -> (r: u64)
        ensures
            r == self.spec_secs(),
    {
        self.secs
    }

    /// Nanoseconds beyond the whole seconds.
    pub fn subsec_nanos(&self) -> (r: u32)
        ensures
            r == self.spec_subsec_nanos(),
    {
        self.nanos
    }

    /// The span in whole milliseconds.
    pub fn as_millis(&self) -> (r: u128)
        requires
            self.wf(),
        ensures
            r == self.total_nanos() / 1_000_000,
    {
        let r = (self.secs as u128) * 1000 + (self.nanos as u128) / 1_000_000;
        proof {
            let s = self.secs as int;
            let n = self.nanos as int;
            assert((s * 1_000_000_000 + n) / 1_000_000 == s * 1000 + n / 1_000_000) by (nonlinear_arith)
                requires 0 <= n < 1_000_000_000, s >= 0;
        }
        r
    }

    /// The span in whole microseconds.
    pub fn as_micros(&self) -> (r: u128)
        requires
            self.wf(),
        ensures
            r == self.total_nanos() / 1000,
    {
        let r = (self.secs as u128) * 1_000_000 + (self.nanos as u128) / 1000;
        proof {
            let s = self.secs as int;
            let n = self.nanos as int;
            assert((s * 1_000_000_000 + n) / 1000 == s * 1_000_000 + n / 1000) by (nonlinear_arith)
                requires 0 <= n < 1_000_000_000, s >= 0;
        }
        r
    }

    /// The span in whole nanoseconds.
    pub fn as_nanos(&self) -> (r: u128)
        ensures
            r == self.total_nanos(),
    {
        (self.secs as u128) * 1_000_000_000 + (self.nanos as u128)
    }

    /// Sum of two spans; `None` when it does not fit.
    pub fn checked_add(&self, other: Duration) -> (r: Option<Duration>)
        requires
            self.wf(),
            other.wf(),
        ensures
            match r {
                Some(d) => d.wf() && d.total_nanos() == self.total_nanos() + other.total_nanos(),
                None => self.total_nanos() + other.total_nanos() > Self::max_nanos(),
            },
    {
        let total: u128 = self.as_nanos() + other.as_nanos();
        if total > (u64::MAX as u128) * 1_000_000_000 + 999_999_999 {
            None
        } else {
            Some(Self::from_u128_nanos(total))
        }
    }

    /// Difference of two spans, or zero when `other` is longer.
    pub fn saturating_sub(&self, other: Duration) -> (r: Duration)
        requires
            self.wf(),
            other.wf(),
        ensures
            r.wf(),
            r.total_nanos() == if self.total_nanos() >= other.total_nanos() {
                self.total_nanos() - other.total_nanos()
            } else {
                0
            },
    {
        let a = self.as_nanos();
        let b = other.as_nanos();
        if a >= b {
            Self::from_u128_nanos(a - b)
        } else {
            Self::zero()
        }
    }

    /// The components of a well-formed span follow from its length.
    pub proof fn lemma_components(self)
        requires
            self.wf(),
        ensures
            self.spec_secs() == self.total_nanos() / 1_000_000_000,
            self.spec_subsec_nanos() == self.total_nanos() % 1_000_000_000,
    {
        let s = self.spec_secs() as int;
        let n = self.spec_subsec_nanos() as int;
        assert((s * 1_000_000_000 + n) / 1_000_000_000 == s) by (nonlinear_arith)
            requires 0 <= n < 1_000_000_000, s >= 0;
        assert((s * 1_000_000_000 + n) % 1_000_000_000 == n) by (nonlinear_arith)
            requires 0 <= n < 1_000_000_000, s >= 0;
    }

    /// Divides a span by `rhs` as std does: seconds and nanoseconds are
    /// divided separately, and the seconds' remainder is carried into the
    /// nanoseconds.
    pub fn div_u32(&self, rhs: u32) -> (r: Duration)
        requires
            self.wf(),
            rhs != 0,
        ensures
            r.wf(),
            r.total_nanos() == div_total(self.total_nanos(), rhs as int),
    {
        proof {
            self.lemma_components();
        }
        let secs = self.secs / (rhs as u64);
        let carry = self.secs % (rhs as u64);
        let extra: u64 = carry * 1_000_000_000 / (rhs as u64);
        let nanos: u64 = (self.nanos / rhs) as u64 + extra;
        proof {
            assert(carry < rhs);
            assert((carry as int) * 1_000_000_000 / (rhs as int) < 1_000_000_000) by (nonlinear_arith)
                requires carry < rhs, rhs > 0;
            assert((self.nanos as int) / (rhs as int) <= self.nanos) by (nonlinear_arith)
                requires rhs > 0;
            let a = self.nanos as int;
            let b = (carry as int) * 1_000_000_000;
            let q = rhs as int;
            assert(a / q + b / q < 1_000_000_000) by (nonlinear_arith)
                requires 0 <= a < 1_000_000_000, b == (carry as int) * 1_000_000_000, 0 <= carry < q, q > 0,
            {
                assert(a / q * q <= a);
                assert(b / q * q <= b);
                assert((a / q + b / q) * q <= a + b);
                assert(a + b < q * 1_000_000_000);
            }
        }
        Duration { secs, nanos: nanos as u32 }
    }

    fn from_u128_nanos(n: u128) -> (r: Duration)
        requires
            n <= Self::max_nanos(),
        ensures
            r.wf(),
            r.total_nanos() == n,
    {
        proof {
            Self::lemma_from_total(n as int);
        }
        let secs = (n / 1_000_000_000) as u64;
        let nanos = (n % 1_000_000_000) as u32;
        Duration { secs, nanos }
    }
}

/// Length of a span of `total` nanoseconds divided by `n` as std's
/// `Duration / u32` does: whole seconds and nanoseconds are divided apart and
/// the seconds' remainder is carried into the nanoseconds.
pub open spec fn div_total(total: int, n: int) -> int {
    ((total / 1_000_000_000) / n) * 1_000_000_000 + (total % 1_000_000_000) / n
        + (((total / 1_000_000_000) % n) * 1_000_000_000) / n
}

/// A point in time, measured from the Unix epoch.
#[derive(Clone, Copy, Debug, PartialEq, Eq, Structural)]
pub struct Instant {
    since_epoch: Duration,
}

impl Instant {
    /// Time since the epoch.
    pub closed spec fn spec_since_epoch(self) -> Duration {
        self.since_epoch
    }

    /// Well-formedness of the underlying span.
    pub open spec fn wf(self) -> bool {
        self.spec_since_epoch().wf()
    }

    /// The point `since_epoch` after the epoch.
    pub fn from_epoch(since_epoch: Duration) -> (r: Self)
        ensures
            r.spec_since_epoch() == since_epoch,
    {
        Instant { since_epoch }
    }

    /// Time since the epoch.
    pub fn since_epoch(&self) -> (r: Duration)
        ensures
            r == self.spec_since_epoch(),
    {
        self.since_epoch
    }

    /// Whether `self` comes strictly before `other`.
    pub fn is_before(&self, other: &Instant) -> (r: bool)
        ensures
            r == (self.spec_since_epoch().total_nanos() < other.spec_since_epoch().total_nanos()),
    {
        self.since_epoch.as_nanos() < other.since_epoch.as_nanos()
    }

    /// The current time, read from the system clock.
    pub fn now() -> (r: Self)
        ensures
            r.wf(),
    {
        Instant { since_epoch: clock_since_epoch() }
    }

    /// Time from `earlier` to `self`, or zero when `earlier` is later.
    pub fn duration_since(&self, earlier: Instant) -> (r: Duration)
        requires
            self.wf(),
            earlier.wf(),
        ensures
            r.wf(),
            r.total_nanos() == if self.spec_since_epoch().total_nanos() >= earlier.spec_since_epoch().total_nanos() {
                self.spec_since_epoch().total_nanos() - earlier.spec_since_epoch().total_nanos()
            } else {
                0
            },
    {
        self.since_epoch.saturating_sub(earlier.since_epoch)
    }

    /// The point `d` after `self`; `None` when it does not fit.
    pub fn checked_add(&self, d: Duration) -> (r: Option<Instant>)
        requires
            self.wf(),
            d.wf(),
        ensures
            match r {
                Some(i) => i.wf() && i.spec_since_epoch().total_nanos()
                    == self.spec_since_epoch().total_nanos() + d.total_nanos(),
                None => self.spec_since_epoch().total_nanos() + d.total_nanos() > Duration::max_nanos(),
            },
    {
        match self.since_epoch.checked_add(d) {
            Some(s) => Some(Instant { since_epoch: s }),
            None => None,
        }
    }
}

/// Whole seconds since the Unix epoch on the system clock (zero when the
/// clock reads earlier than the epoch).
pub fn current_timestamp() -> (r: u64) {
    clock_since_epoch().as_secs()
}

/// Nanoseconds from `earlier` to `later`, or zero when `later` comes first.
pub open spec fn elapsed_nanos(earlier: Instant, later: Instant) -> int {
    if later.spec_since_epoch().total_nanos() >= earlier.spec_since_epoch().total_nanos() {
        later.spec_since_epoch().total_nanos() - earlier.spec_since_epoch().total_nanos()
    } else {
        0
    }
}

/// Reads the system clock.
///
/// Trusted: calls `std::time::SystemTime::now()` and measures it from the
/// Unix epoch (zero if the clock reads earlier than the epoch). Only the
/// shape of the result is stated; its value depends on the machine's clock.
#[verifier::external_body]
fn clock_since_epoch() -> (r: Duration)
    ensures
        r.wf(),
{
    let d = std::time::SystemTime::now().duration_since(std::time::UNIX_EPOCH).unwrap_or_default();
    Duration { secs: d.as_secs(), nanos: d.subsec_nanos() }
}

} // verus!
