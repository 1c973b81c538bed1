//! A span of time with nanosecond precision and the range of
//! `std::time::Duration`: from zero up to `u64::MAX` seconds plus
//! 999 999 999 nanoseconds.

use vstd::prelude::*;

verus! {

/// Nanoseconds in one second.
pub const NANOS_PER_SEC: u128 = 1_000_000_000;

/// The largest span: `u64::MAX` seconds and 999 999 999 nanoseconds.
pub const MAX_NANOS: u128 = 18_446_744_073_709_551_615_999_999_999;

/// A span of time, counted in nanoseconds.
///
/// Its view is the number of nanoseconds it spans.
#[derive(Clone, Copy, Debug, PartialEq, Eq, Structural, PartialOrd, Ord, Hash)]
pub struct Duration {
    nanos: u128,
}

/// The span that `a + b` nanoseconds give, capped at the largest span.
pub open spec fn saturated(n: nat) -> nat {
    if n > MAX_NANOS { MAX_NANOS as nat } else { n }
}

/// `a / b` rounded to the nearest whole number, halves rounded up.
pub open spec fn nearest_quotient(a: nat, b: nat) -> nat {
    ((2 * a + b) / (2 * b)) as nat
}

/// Saturation only bites past the largest span: a count that fits is
/// kept, and a larger one becomes the largest span.
pub proof fn lemma_saturated(n: nat)
    ensures
        n <= MAX_NANOS ==> saturated(n) == n,
        n > MAX_NANOS ==> saturated(n) == MAX_NANOS,
{
}

/// The nearest quotient is within half a unit of the exact quotient, with
/// halves going up: `a / b - 1/2 < q <= a / b + 1/2`.
pub proof fn lemma_nearest_quotient(a: nat, b: nat)
    requires
        b > 0,
    ensures
        2 * a < 2 * nearest_quotient(a, b) * b + b,
        2 * nearest_quotient(a, b) * b <= 2 * a + b,
{
    let q = nearest_quotient(a, b);
    let num = 2 * a + b;
    let den = 2 * b;
    assert(q == num / den);
    vstd::arithmetic::div_mod::lemma_fundamental_div_mod(num as int, den as int);
    assert(num == den * q + num % den);
    assert(0 <= num % den < den) by {
        vstd::arithmetic::div_mod::lemma_mod_bound(num as int, den as int);
    }
    assert(den * q == 2 * q * b) by (nonlinear_arith)
        requires
            den == 2 * b,
    ;
}

impl View for Duration {
    type V = nat;

    closed spec fn view(&self) -> nat {
        self.nanos as nat
    }
}

impl Duration {
    /// Every span lies between zero and the largest span; code that holds
    /// a span learns this with `use_type_invariant`.
    #[verifier::type_invariant]
    pub open spec fn in_range(self) -> bool {
        self@ <= MAX_NANOS
    }

    /// Two spans are the same value exactly when they span the same time.
    pub broadcast proof fn lemma_view_eq(a: Duration, b: Duration)
        ensures
            #![trigger a@, b@]
            a@ == b@ <==> a == b,
    {
    }

    /// The empty span.
    pub fn zero() -> (d: Duration)
        ensures
            d@ == 0,
    {
        Duration { nanos: 0 }
    }

    /// The largest span.
    pub fn max_value() -> (d: Duration)
        ensures
            d@ == MAX_NANOS,
    {
        Duration { nanos: MAX_NANOS }
    }

    /// `secs` whole seconds and `nanos` nanoseconds; nanoseconds past a
    /// second carry into the seconds.
    pub fn new(secs: u64, nanos: u32) -> (d: Duration)
        requires
            secs + (nanos as int) / (NANOS_PER_SEC as int) <= u64::MAX,
        ensures
            d@ == secs * NANOS_PER_SEC + nanos,
    {
        let total: u128 = secs as u128 * NANOS_PER_SEC + nanos as u128;
        Duration { nanos: total }
    }

    /// `secs` whole seconds.
    pub fn from_secs(secs: u64) -> (d: Duration)
        ensures
            d@ == secs * NANOS_PER_SEC,
    {
        Duration { nanos: secs as u128 * NANOS_PER_SEC }
    }

    /// `millis` milliseconds.
    pub fn from_millis(millis: u64) -> (d: Duration)
        ensures
            d@ == millis * 1_000_000,
    {
        Duration { nanos: millis as u128 * 1_000_000 }
    }

    /// `micros` microseconds.
    pub fn from_micros(micros: u64) -> (d: Duration)
        ensures
            d@ == micros * 1_000,
    {
        Duration { nanos: micros as u128 * 1_000 }
    }

    /// `nanos` nanoseconds.
    pub fn from_nanos(nanos: u64) -> (d: Duration)
        ensures
            d@ == nanos,
    {
        Duration { nanos: nanos as u128 }
    }

    /// `ticks` ticks of a clock that ticks `per_sec` times a second,
    /// rounded to the nearest whole nanosecond (halves round up).
    pub fn from_ticks(ticks: u64, per_sec: u64) -> (d: Duration)
        requires
            per_sec > 0,
        ensures
            d@ == nearest_quotient((ticks * NANOS_PER_SEC) as nat, per_sec as nat),
    {
        let scaled: u128 = ticks as u128 * NANOS_PER_SEC;
        let n: u128 = (2 * scaled + per_sec as u128) / (2 * per_sec as u128);
        assert(n <= scaled) by (nonlinear_arith)
            requires
                n == (2 * scaled + per_sec) / (2 * per_sec),
                per_sec > 0,
        ;
        Duration { nanos: n }
    }

    /// `ticks` ticks of a clock whose tick lasts `numer / denom`
    /// nanoseconds, rounded down to whole nanoseconds and capped at the
    /// largest span.
    pub fn from_scaled_ticks(ticks: u64, numer: u32, denom: u32) -> (d: Duration)
        requires
            denom > 0,
        ensures
            d@ == saturated(((ticks * numer) / (denom as int)) as nat),
    {
        assert(ticks * numer <= u64::MAX * u32::MAX) by (nonlinear_arith)
            requires
                ticks <= u64::MAX,
                numer <= u32::MAX,
        ;
        let scaled: u128 = ticks as u128 * numer as u128;
        let n: u128 = scaled / (denom as u128);
        if n > MAX_NANOS {
            Duration { nanos: MAX_NANOS }
        } else {
            Duration { nanos: n }
        }
    }

    /// The whole seconds of the span.
    pub fn as_secs(&self) -> (s: u64)
        ensures
            s == self@ / (NANOS_PER_SEC as nat),
    {
        proof {
            use_type_invariant(self);
        }
        (self.nanos / NANOS_PER_SEC) as u64
    }

    /// The nanoseconds past the whole seconds of the span.
    pub fn subsec_nanos(&self) -> (n: u32)
        ensures
            n == self@ % (NANOS_PER_SEC as nat),
    {
        (self.nanos % NANOS_PER_SEC) as u32
    }

    /// The whole span in nanoseconds.
    pub fn as_nanos(&self) -> (n: u128)
        ensures
            n == self@,
    {
        self.nanos
    }

    /// The sum of two spans, or the largest span where the sum would
    /// exceed it.
    pub fn saturating_add(self, rhs: Duration) -> (d: Duration)
        ensures
            d@ == saturated(self@ + rhs@),
    {
        proof {
            use_type_invariant(&self);
            use_type_invariant(&rhs);
        }
        let sum: u128 = self.nanos + rhs.nanos;
        if sum > MAX_NANOS {
            Duration { nanos: MAX_NANOS }
        } else {
            Duration { nanos: sum }
        }
    }
}

} // verus!
