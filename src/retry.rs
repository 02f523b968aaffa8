use crate::duration::Duration;
use crate::delay::{backoff_step, cap_of};
use vstd::prelude::*;

verus! {

/// Rules for a retry loop that counts its attempts: the first delay, each delay from the
/// one before it, and when to give up.
pub trait RetryStrategy<D> {
    spec fn spec_initial_delay(&self) -> D;

    spec fn spec_next_delay(&self, tries: nat, last_delay: D) -> D;

    spec fn spec_is_exhausted(&self, tries: nat) -> bool;

    fn initial_delay(&self) -> (r: D)
        ensures
            r == self.spec_initial_delay(),
    ;

    fn next_delay(&self, tries: usize, last_delay: D) -> (r: D)
        ensures
            r == self.spec_next_delay(tries as nat, last_delay),
    ;

    fn is_exhausted(&self, tries: usize) -> (r: bool)
        ensures
            r == self.spec_is_exhausted(tries as nat),
    ;
}

/// How the delay between attempts develops.
#[derive(Debug, Clone, Copy, PartialEq, Eq, Structural, PartialOrd, Ord, Hash)]
pub enum Delay {
    /// Always the same delay.
    Static { delay: Duration },
    /// Doubling from `initial_delay`, clamped to `max_delay` where there is one.
    ExponentialBackoff { initial_delay: Duration, max_delay: Option<Duration> },
}

/// A bound on the number of attempts, with an optional delay rule.
#[derive(Debug, Clone, Copy, PartialEq, Eq, Structural, PartialOrd, Ord, Hash)]
pub struct Retry {
    pub max_tries: usize,
    pub delay: Option<Delay>,
}

impl Retry {
    /// Up to `max_tries` attempts without any delay in between.
    pub fn max_tries(max_tries: usize) -> (r: Retry)
        ensures
            r.max_tries == max_tries,
            r.delay is None,
    {
        Retry { max_tries, delay: Option::None }
    }
}

impl RetryStrategy<Duration> for Retry {
    /// The configured delay, or the initial one of a backoff; empty without a delay rule.
    open spec fn spec_initial_delay(&self) -> Duration {
        match self.delay {
            Some(Delay::Static { delay }) => delay,
            Some(Delay::ExponentialBackoff { initial_delay, .. }) => initial_delay,
            Option::None => Duration::spec_of_nanos(0),
        }
    }

    /// The configured delay again; for a backoff the last one doubled (saturating) and
    /// clamped to the cap; without a delay rule the last one unchanged.
    open spec fn spec_next_delay(&self, tries: nat, last_delay: Duration) -> Duration {
        match self.delay {
            Some(Delay::Static { delay }) => delay,
            Some(Delay::ExponentialBackoff { max_delay, .. }) => Duration::spec_of_nanos(
                backoff_step(last_delay@, cap_of(max_delay)),
            ),
            Option::None => last_delay,
        }
    }

    /// Exhausted once `max_tries` attempts have been made.
    open spec fn spec_is_exhausted(&self, tries: nat) -> bool {
        tries >= self.max_tries
    }

    fn initial_delay(&self) -> (r: Duration) {
        match &self.delay {
            Some(Delay::Static { delay }) => *delay,
            Some(Delay::ExponentialBackoff { initial_delay, .. }) => *initial_delay,
            Option::None => {
                let z = Duration::zero();
                proof {
                    z.lemma_view();
                }
                z
            },
        }
    }

    fn next_delay(&self, _tries: usize, last_delay: Duration) -> (r: Duration) {
        match &self.delay {
            Some(Delay::Static { delay }) => *delay,
            Some(Delay::ExponentialBackoff { max_delay, .. }) => {
                let mut next = last_delay.saturating_mul(2);
                match max_delay {
                    Some(max_delay) => {
                        if next.as_nanos() > max_delay.as_nanos() {
                            next = *max_delay;
                        }
                    },
                    Option::None => {},
                }
                proof {
                    next.lemma_view();
                }
                next
            },
            Option::None => last_delay,
        }
    }

    fn is_exhausted(&self, tries: usize) -> (r: bool) {
        tries >= self.max_tries
    }
}

} // verus!
