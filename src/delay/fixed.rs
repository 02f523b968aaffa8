use crate::duration::Duration;
use crate::tracked_iterator::{elements, Finite, IntoTrackedIterator, Sequence, Take, TrackedIterator};
use vstd::prelude::*;

verus! {

/// The same delay before every retry.
#[derive(Debug, Clone, Copy, PartialEq, Eq, Structural)]
pub struct Fixed {
    pub delay: Duration,
}

impl Fixed {
    pub fn of(delay: Duration) -> (r: Fixed)
        ensures
            r.delay == delay,
    {
        Fixed { delay }
    }

    /// `count` delays, each the configured one.
    pub fn take(self, count: usize) -> (r: TrackedIterator<Take<Fixed>, Finite>)
        ensures
            r.wf(),
            r.len() == Some(count as nat),
            elements(r) == Seq::new(count as nat, |_i: int| self.delay),
    {
        let r = self.into_tracked().take(count);
        assert(elements(r) =~= Seq::new(count as nat, |_i: int| self.delay));
        r
    }
}

/// Endless: every element is the configured delay.
impl Sequence for Fixed {
    type Item = Duration;

    open spec fn wf(&self) -> bool {
        true
    }

    open spec fn len(&self) -> Option<nat> {
        Option::None
    }

    open spec fn peek(&self, i: nat) -> Duration {
        self.delay
    }

    fn next(&mut self) -> (r: Option<Duration>) {
        Some(self.delay)
    }
}

} // verus!
