use crate::duration::{saturated, Duration, MAX_NANOS};
use crate::tracked_iterator::{elements, Finite, IntoTrackedIterator, Sequence, Take, TrackedIterator};
use vstd::arithmetic::power::lemma_pow0;
use vstd::arithmetic::power2::{lemma_pow2, lemma_pow2_strictly_increases, lemma_pow2_unfold, pow2};
use vstd::prelude::*;

verus! {

/// A delay that doubles before each further retry, starting from `initial_delay`.
#[derive(Debug, Clone, Copy, PartialEq, Eq, Structural)]
pub struct ExponentialBackoff {
    pub initial_delay: Duration,
}

/// The exponential backoff in progress, optionally capped at `max_delay`.
///
/// While `first` holds, the next delay is `initial_delay`; after that each delay is the
/// previous one (`last_delay`) doubled, and clamped to `max_delay` where it would exceed it.
#[derive(Debug, Clone, Copy, PartialEq, Eq, Structural)]
pub struct ExponentialBackoffWithCap {
    pub initial_delay: Duration,
    pub last_delay: Duration,
    pub max_delay: Option<Duration>,
    pub first: bool,
}

/// The delay that follows `prev` (in nanoseconds): twice as long, saturating at the longest
/// span, and clamped to the cap where there is one.
pub open spec fn backoff_step(prev: nat, cap: Option<nat>) -> nat {
    let doubled = saturated(2 * prev);
    match cap {
        Some(c) => if doubled > c {
            c
        } else {
            doubled
        },
        None => doubled,
    }
}

/// The `i`-th delay after `prev`, counting from 0.
pub open spec fn backoff_after(prev: nat, cap: Option<nat>, i: nat) -> nat
    decreases i,
{
    if i == 0 {
        backoff_step(prev, cap)
    } else {
        backoff_step(backoff_after(prev, cap, (i - 1) as nat), cap)
    }
}

/// The cap in nanoseconds, where there is one.
pub open spec fn cap_of(max_delay: Option<Duration>) -> Option<nat> {
    match max_delay {
        Some(c) => Some(c@),
        None => Option::None,
    }
}

impl ExponentialBackoff {
    pub fn of_initial_delay(initial_delay: Duration) -> (r: ExponentialBackoff)
        ensures
            r.initial_delay == initial_delay,
    {
        ExponentialBackoff { initial_delay }
    }

    /// The backoff without a ceiling.
    pub fn uncapped(self) -> (r: ExponentialBackoffWithCap)
        ensures
            r.initial_delay == self.initial_delay,
            r.last_delay@ == 0,
            r.max_delay is None,
            r.first,
    {
        ExponentialBackoffWithCap {
            initial_delay: self.initial_delay,
            last_delay: Duration::zero(),
            max_delay: Option::None,
            first: true,
        }
    }

    /// The backoff that never waits longer than `max_delay` once it has doubled.
    pub fn capped_at(self, max_delay: Duration) -> (r: ExponentialBackoffWithCap)
        ensures
            r.initial_delay == self.initial_delay,
            r.last_delay@ == 0,
            r.max_delay == Some(max_delay),
            r.first,
    {
        ExponentialBackoffWithCap {
            initial_delay: self.initial_delay,
            last_delay: Duration::zero(),
            max_delay: Some(max_delay),
            first: true,
        }
    }
}

impl ExponentialBackoffWithCap {
    /// The `i`-th delay still to come, in nanoseconds.
    pub open spec fn nth(self, i: nat) -> nat {
        if self.first {
            if i == 0 {
                self.initial_delay@
            } else {
                backoff_after(self.initial_delay@, cap_of(self.max_delay), (i - 1) as nat)
            }
        } else {
            backoff_after(self.last_delay@, cap_of(self.max_delay), i)
        }
    }

    /// The next `count` delays of the backoff.
    pub fn take(self, count: usize) -> (r: TrackedIterator<Take<ExponentialBackoffWithCap>, Finite>)
        ensures
            r.wf(),
            r.len() == Some(count as nat),
            elements(r) == Seq::new(count as nat, |i: int| Duration::spec_of_nanos(self.nth(i as nat))),
    {
        let r = self.into_tracked().take(count);
        assert(elements(r) =~= Seq::new(
            count as nat,
            |i: int| Duration::spec_of_nanos(self.nth(i as nat)),
        ));
        r
    }
}

/// Endless: the delays of the backoff, one after the other.
impl Sequence for ExponentialBackoffWithCap {
    type Item = Duration;

    open spec fn wf(&self) -> bool {
        true
    }

    open spec fn len(&self) -> Option<nat> {
        Option::None
    }

    open spec fn peek(&self, i: nat) -> Duration {
        Duration::spec_of_nanos(self.nth(i))
    }

    fn next(&mut self) -> (r: Option<Duration>) {
        if self.first {
            self.first = false;
            self.last_delay = self.initial_delay;
            proof {
                self.initial_delay.lemma_view();
                assert forall|i: nat| #[trigger] self.peek(i) == old(self).peek(i + 1) by {
                    assert(backoff_after(self.last_delay@, cap_of(self.max_delay), i) == old(self).nth(i + 1));
                }
            }
            return Some(self.initial_delay);
        }
        let mut next = self.last_delay.saturating_mul(2);
        match self.max_delay {
            Some(max_delay) => {
                if next.as_nanos() > max_delay.as_nanos() {
                    next = max_delay;
                }
            },
            Option::None => {},
        }
        self.last_delay = next;
        proof {
            assert(next@ == backoff_step(old(self).last_delay@, cap_of(self.max_delay)));
            next.lemma_view();
            assert forall|i: nat| #[trigger] self.peek(i) == old(self).peek(i + 1) by {
                lemma_backoff_shift(old(self).last_delay@, cap_of(self.max_delay), i);
            }
        }
        Some(next)
    }
}

/// Starting one step later shifts the delays by one position.
proof fn lemma_backoff_shift(prev: nat, cap: Option<nat>, i: nat)
    ensures
        backoff_after(backoff_step(prev, cap), cap, i) == backoff_after(prev, cap, i + 1),
    decreases i,
{
    assert(backoff_after(prev, cap, i + 1) == backoff_step(backoff_after(prev, cap, i), cap));
    if i > 0 {
        lemma_backoff_shift(prev, cap, (i - 1) as nat);
    } else {
        assert(backoff_after(prev, cap, 0) == backoff_step(prev, cap));
    }
}

/// Doubling zero times leaves a number as it is.
proof fn lemma_pow2_zero()
    ensures
        pow2(0) == 1,
{
    lemma_pow2(0);
    lemma_pow0(2);
}

/// Without a cap, the `m`-th delay after `d` is `d` doubled `m + 1` times, as long as that
/// stays within the longest span.
proof fn lemma_uncapped_after(d: nat, m: nat)
    requires
        d * pow2(m + 1) <= MAX_NANOS,
    ensures
        backoff_after(d, Option::None, m) == d * pow2(m + 1),
    decreases m,
{
    lemma_pow2_unfold(m + 1);
    assert(d * pow2(m + 1) == 2 * (d * pow2(m))) by (nonlinear_arith)
        requires
            pow2(m + 1) == 2 * pow2(m),
    ;
    if m > 0 {
        lemma_uncapped_after(d, (m - 1) as nat);
        assert(backoff_after(d, Option::None, m) == backoff_step(
            backoff_after(d, Option::None, (m - 1) as nat),
            Option::None,
        ));
        assert(backoff_after(d, Option::None, m) == saturated(2 * (d * pow2(m))));
    } else {
        lemma_pow2_zero();
        assert(d * pow2(0) == d) by (nonlinear_arith)
            requires
                pow2(0) == 1,
        ;
        assert(backoff_after(d, Option::None, 0) == saturated(2 * d));
    }
    assert(saturated(d * pow2(m + 1)) == d * pow2(m + 1));
}

/// With the cap `c`, the `m`-th delay after `d` is `d` doubled `m + 1` times, or `c` where
/// that exceeds `c`.
proof fn lemma_capped_after(d: nat, c: nat, m: nat)
    requires
        c <= MAX_NANOS,
    ensures
        backoff_after(d, Some(c), m) == if d * pow2(m + 1) <= c {
            d * pow2(m + 1)
        } else {
            c
        },
    decreases m,
{
    lemma_pow2_unfold(m + 1);
    assert(d * pow2(m + 1) == 2 * (d * pow2(m))) by (nonlinear_arith)
        requires
            pow2(m + 1) == 2 * pow2(m),
    ;
    if m > 0 {
        lemma_capped_after(d, c, (m - 1) as nat);
        assert(backoff_after(d, Some(c), m) == backoff_step(
            backoff_after(d, Some(c), (m - 1) as nat),
            Some(c),
        ));
    } else {
        lemma_pow2_zero();
        assert(d * pow2(0) == d) by (nonlinear_arith)
            requires
                pow2(0) == 1,
        ;
        assert(backoff_after(d, Some(c), 0) == backoff_step(d, Some(c)));
    }
}

/// Uncapped backoff from `d`: its `k` first delays are `d, 2d, 4d, ..., 2^(k-1) d`, where
/// the last of them is within the longest span (beyond it the doubling saturates).
pub proof fn lemma_uncapped_doubles(b: ExponentialBackoffWithCap, k: nat)
    requires
        b.first,
        b.max_delay is None,
        k > 0 ==> b.initial_delay@ * pow2((k - 1) as nat) <= MAX_NANOS,
    ensures
        forall|i: nat| i < k ==> #[trigger] b.nth(i) == b.initial_delay@ * pow2(i),
{
    let d = b.initial_delay@;
    assert forall|i: nat| i < k implies #[trigger] b.nth(i) == d * pow2(i) by {
        if i == 0 {
            lemma_pow2_zero();
        } else {
            if i < k - 1 {
                lemma_pow2_strictly_increases(i, (k - 1) as nat);
                assert(d * pow2(i) <= d * pow2((k - 1) as nat)) by (nonlinear_arith)
                    requires
                        pow2(i) < pow2((k - 1) as nat),
                ;
            }
            lemma_uncapped_after(d, (i - 1) as nat);
        }
    }
}

/// Capped backoff from `d` with the cap `c`: the first delay is `d`; each later one is `d`
/// doubled, until doubling would exceed `c`; from then on every delay is exactly `c`.
pub proof fn lemma_capped_doubles_then_stays(b: ExponentialBackoffWithCap, c: Duration)
    requires
        b.first,
        b.max_delay == Some(c),
        c@ <= MAX_NANOS,
    ensures
        b.nth(0) == b.initial_delay@,
        forall|i: nat|
            i >= 1 ==> #[trigger] b.nth(i) == if b.initial_delay@ * pow2(i) <= c@ {
                b.initial_delay@ * pow2(i)
            } else {
                c@
            },
        forall|i: nat, j: nat|
            1 <= i <= j && b.initial_delay@ * #[trigger] pow2(i) > c@ ==> #[trigger] b.nth(j) == c@,
{
    let d = b.initial_delay@;
    assert forall|i: nat| i >= 1 implies #[trigger] b.nth(i) == if d * pow2(i) <= c@ {
        d * pow2(i)
    } else {
        c@
    } by {
        lemma_capped_after(d, c@, (i - 1) as nat);
    }
    assert forall|i: nat, j: nat| 1 <= i <= j && d * #[trigger] pow2(i) > c@ implies #[trigger] b.nth(j)
        == c@ by {
        if i < j {
            lemma_pow2_strictly_increases(i, j);
            assert(d * pow2(i) <= d * pow2(j)) by (nonlinear_arith)
                requires
                    pow2(i) < pow2(j),
            ;
        }
        lemma_capped_after(d, c@, (j - 1) as nat);
    }
}

} // verus!
