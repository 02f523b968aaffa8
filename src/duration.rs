use vstd::prelude::*;

verus! {

/// Nanoseconds in one second.
pub const NANOS_PER_SEC: u128 = 1_000_000_000;

/// The longest span a `Duration` holds: `u64::MAX` seconds and 999_999_999 nanoseconds,
/// the same range as `std::time::Duration`.
pub const MAX_NANOS: u128 = 18_446_744_073_709_551_615_999_999_999;

/// A span of time with nanosecond resolution.
///
/// Its model (`d@`) is the number of nanoseconds it spans; that number never exceeds
/// `MAX_NANOS`, so every `Duration` converts into a `std::time::Duration`.
#[derive(Clone, Copy, Debug, PartialEq, Eq, Structural, PartialOrd, Ord, Hash)]
pub struct Duration {
    nanos: u128,
}

impl View for Duration {
    type V = nat;

    closed spec fn view(&self) -> nat {
        self.nanos as nat
    }
}

/// The duration spanning `n` nanoseconds, or the longest one where `n` exceeds it.
pub open spec fn saturated(n: nat) -> nat {
    if n <= MAX_NANOS {
        n
    } else {
        MAX_NANOS as nat
    }
}

impl Duration {
    #[verifier::type_invariant]
    spec fn in_range(self) -> bool {
        self.nanos <= MAX_NANOS
    }

    /// The duration of `n` nanoseconds, as a spec value.
    pub closed spec fn spec_of_nanos(n: nat) -> Duration
        recommends
            n <= MAX_NANOS,
    {
        Duration { nanos: n as u128 }
    }

    /// A duration is determined by its model.
    pub proof fn lemma_view(self)
        ensures
            Duration::spec_of_nanos(self@) == self,
    {
    }

    /// The spec constructor gives back the nanoseconds it was handed.
    pub proof fn lemma_of_nanos(n: nat)
        requires
            n <= MAX_NANOS,
        ensures
            Duration::spec_of_nanos(n)@ == n,
    {
    }

    /// The empty span.
    pub fn zero() -> (r: Duration)
        ensures
            r@ == 0,
    {
        Duration { nanos: 0 }
    }

    /// The longest span.
    pub fn max_value() -> (r: Duration)
        ensures
            r@ == MAX_NANOS,
    {
        Duration { nanos: MAX_NANOS }
    }

    pub fn from_nanos(n: u64) -> (r: Duration)
        ensures
            r@ == n,
    {
        Duration { nanos: n as u128 }
    }

    pub fn from_micros(n: u64) -> (r: Duration)
        ensures
            r@ == n * 1_000,
    {
        Duration { nanos: n as u128 * 1_000 }
    }

    pub fn from_millis(n: u64) -> (r: Duration)
        ensures
            r@ == n * 1_000_000,
    {
        Duration { nanos: n as u128 * 1_000_000 }
    }

    pub fn from_secs(n: u64) -> (r: Duration)
        ensures
            r@ == n * NANOS_PER_SEC,
    {
        Duration { nanos: n as u128 * NANOS_PER_SEC }
    }

    /// The whole span in nanoseconds.
    pub fn as_nanos(&self) -> (r: u128)
        ensures
            r == self@,
            r <= MAX_NANOS,
    {
        proof {
            use_type_invariant(self);
        }
        self.nanos
    }

    /// The number of whole seconds in the span.
    pub fn as_secs(&self) -> (r: u64)
        ensures
            r == self@ / (NANOS_PER_SEC as nat),
    {
        proof {
            use_type_invariant(self);
        }
        (self.nanos / NANOS_PER_SEC) as u64
    }

    /// The nanoseconds left over beyond the whole seconds.
    pub fn subsec_nanos(&self) -> (r: u32)
        ensures
            r == self@ % (NANOS_PER_SEC as nat),
    {
        (self.nanos % NANOS_PER_SEC) as u32
    }

    /// `self` multiplied by `k`, or the longest span where the product exceeds it.
    pub fn saturating_mul(self, k: u32) -> (r: Duration)
        ensures
            r@ == saturated(self@ * (k as nat)),
    {
        proof {
            use_type_invariant(self);
            assert(self.nanos * k <= MAX_NANOS * 0xffff_ffffu128) by (nonlinear_arith)
                requires
                    self.nanos <= MAX_NANOS,
                    k <= 0xffff_ffffu32,
            ;
        }
        let p: u128 = self.nanos * k as u128;
        if p <= MAX_NANOS {
            Duration { nanos: p }
        } else {
            Duration::max_value()
        }
    }

    /// The shorter of `self` and `other`.
    pub fn min(self, other: Duration) -> (r: Duration)
        ensures
            r@ == if self@ <= other@ {
                self@
            } else {
                other@
            },
            r == self || r == other,
    {
        if self.nanos <= other.nanos {
            self
        } else {
            other
        }
    }
}

/// Fluent construction of durations from integers (`50.millis()`).
pub trait IntoStdDuration {
    fn nanos(self) -> (r: Duration)
        ensures
            r@ == self.nanos_in_spec(),
    ;

    fn micros(self) -> (r: Duration)
        ensures
            r@ == self.nanos_in_spec() * 1_000,
    ;

    fn millis(self) -> (r: Duration)
        ensures
            r@ == self.nanos_in_spec() * 1_000_000,
    ;

    fn secs(self) -> (r: Duration)
        ensures
            r@ == self.nanos_in_spec() * NANOS_PER_SEC,
    ;

    /// The number that the methods scale, as a natural number.
    spec fn nanos_in_spec(self) -> nat;
}

impl IntoStdDuration for u64 {
    open spec fn nanos_in_spec(self) -> nat {
        self as nat
    }

    fn nanos(self) -> (r: Duration) {
        Duration::from_nanos(self)
    }

    fn micros(self) -> (r: Duration) {
        Duration::from_micros(self)
    }

    fn millis(self) -> (r: Duration) {
        Duration::from_millis(self)
    }

    fn secs(self) -> (r: Duration) {
        Duration::from_secs(self)
    }
}

} // verus!
