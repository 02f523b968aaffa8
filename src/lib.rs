pub mod delay;
pub mod delay_executor;
pub mod delay_strategy;
pub mod duration;
pub mod fallible;
pub mod retry;
pub mod session;
pub mod tracked_iterator;

pub use duration::Duration;
pub use duration::IntoStdDuration;
pub use fallible::NeedsRetry;

use crate::delay_executor::DelayExecutor;
use crate::delay_strategy::DelayStrategy;
use crate::session::{is_session, produced_by, RetrySession, Step};
use std::marker::PhantomData;
use vstd::prelude::*;

verus! {

/// The delay strategy and the executor that performs its waits.
#[derive(Debug)]
pub struct RetryOptions<Delay, DelayStrat, DelayExec> {
    pub delay_strategy: DelayStrat,
    pub delay_executor: DelayExec,
    pub _marker: PhantomData<Delay>,
}

impl<Delay, DelayStrat, DelayExec> RetryOptions<Delay, DelayStrat, DelayExec> {
    /// The strategy and the executor, taken apart.
    pub fn into_parts(self) -> (r: (DelayStrat, DelayExec))
        ensures
            r.0 == self.delay_strategy,
            r.1 == self.delay_executor,
    {
        (self.delay_strategy, self.delay_executor)
    }
}

/// Calls `operation` until its outcome needs no retry or the delay strategy runs dry,
/// waiting through `options.delay_executor` for the next delay before each retry.
///
/// The result is the outcome of the last attempt: on exhaustion, the last failing one.
pub fn retry_with_options<Delay, DelayStrat, DelayExec, Out, Op>(
    operation: Op,
    options: RetryOptions<Delay, DelayStrat, DelayExec>,
) -> (out: Out) where
    DelayStrat: DelayStrategy<Delay>,
    DelayExec: DelayExecutor<Delay>,
    Out: NeedsRetry,
    Op: Fn() -> Out,

    requires
        options.delay_strategy.wf(),
        operation.requires(()),
    ensures
        exists|outcomes: Seq<Out>|
            {
                &&& #[trigger] is_session(outcomes, options.delay_strategy.remaining())
                &&& outcomes.last() == out
                &&& produced_by(operation, outcomes)
            },
{
    let ghost delays = options.delay_strategy.remaining();
    let (delay_strategy, delay_executor) = options.into_parts();
    let mut session = RetrySession::new(delay_strategy);
    let ghost mut outcomes: Seq<Out> = Seq::empty();
    loop
        invariant
            session.wf(),
            delays == options.delay_strategy.remaining(),
            operation.requires(()),
            outcomes.len() <= delays.len(),
            session.remaining() == delays.skip(outcomes.len() as int),
            forall|i: int| 0 <= i < outcomes.len() ==> (#[trigger] outcomes[i]).needs_retry_spec(),
            forall|i: int| 0 <= i < outcomes.len() ==> operation.ensures((), #[trigger] outcomes[i]),
        decreases session.remaining().len(),
    {
        let out = operation();
        let ghost before = outcomes;
        proof {
            outcomes = outcomes.push(out);
        }
        match session.on_outcome(&out) {
            Step::Finish => {
                proof {
                    assert(forall|i: int| 0 <= i < outcomes.len() - 1 ==> outcomes[i] == before[i]);
                    assert(is_session(outcomes, delays));
                    assert(forall|i: int|
                        0 <= i < outcomes.len() ==> operation.ensures((), #[trigger] outcomes[i]));
                }
                return out;
            },
            Step::Wait(delay) => {
                proof {
                    assert(delays.skip(outcomes.len() as int) =~= delays.skip(before.len() as int).drop_first());
                }
                delay_executor.delay_by(delay);
            },
        }
    }
}

} // verus!
