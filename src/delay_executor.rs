use vstd::prelude::*;

verus! {

/// Performs the wait between two attempts: given a delay, it returns once that much time
/// has passed. Implementations block the thread, or hand the wait to a runtime's timer.
pub trait DelayExecutor<Delay> {
    fn delay_by(&self, by: Delay);
}

} // verus!
