use crate::duration::Duration;
use crate::tracked_iterator::{elements, Finite, IntoTrackedIterator, Sequence, Take, TrackedIterator};
use vstd::prelude::*;

verus! {

/// No wait at all between retries.
#[derive(Debug, Clone, Copy, PartialEq, Eq, Structural)]
pub struct NoDelay;

impl NoDelay {
    /// `count` delays, each empty.
    pub fn take(self, count: usize) -> (r: TrackedIterator<Take<NoDelay>, Finite>)
        ensures
            r.wf(),
            r.len() == Some(count as nat),
            elements(r) == Seq::new(count as nat, |_i: int| Duration::spec_of_nanos(0)),
    {
        let r = self.into_tracked().take(count);
        assert(elements(r) =~= Seq::new(count as nat, |_i: int| Duration::spec_of_nanos(0)));
        r
    }
}

/// Endless: every element is the empty span.
impl Sequence for NoDelay {
    type Item = Duration;

    open spec fn wf(&self) -> bool {
        true
    }

    open spec fn len(&self) -> Option<nat> {
        Option::None
    }

    open spec fn peek(&self, i: nat) -> Duration {
        Duration::spec_of_nanos(0)
    }

    fn next(&mut self) -> (r: Option<Duration>) {
        let z = Duration::zero();
        proof {
            z.lemma_view();
        }
        Some(z)
    }
}

} // verus!
