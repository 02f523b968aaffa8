use crate::tracked_iterator::{elements, Finite, Sequence, TrackedIterator};
use vstd::prelude::*;

verus! {

/// A source of delays that is known to run dry: the retry loop asks it for the wait
/// before each further attempt and stops retrying once it has none left.
pub trait DelayStrategy<Delay> {
    /// The state in which `next_delay` may be called.
    spec fn wf(&self) -> bool;

    /// The delays still to be handed out, in order.
    spec fn remaining(&self) -> Seq<Delay>;

    /// Hands out the next delay, or `None` once all have been handed out.
    fn next_delay(&mut self) -> (r: Option<Delay>)
        requires
            old(self).wf(),
        ensures
            final(self).wf(),
            old(self).remaining().len() == 0 ==> r is None && final(self).remaining()
                == old(self).remaining(),
            old(self).remaining().len() > 0 ==> r == Some(old(self).remaining()[0])
                && final(self).remaining() == old(self).remaining().drop_first(),
    ;
}

/// Every sequence tracked as finite is a delay strategy: it hands out its elements.
impl<Delay, I: Sequence<Item = Delay>> DelayStrategy<Delay> for TrackedIterator<I, Finite> {
    open spec fn wf(&self) -> bool {
        Sequence::wf(self) && Sequence::len(self) is Some
    }

    open spec fn remaining(&self) -> Seq<Delay> {
        elements(*self)
    }

    fn next_delay(&mut self) -> (r: Option<Delay>) {
        let r = self.next();
        proof {
            if Sequence::len(&*old(self)) != Some(0nat) {
                assert(elements(*self) =~= elements(*old(self)).drop_first());
            }
        }
        r
    }
}

} // verus!
