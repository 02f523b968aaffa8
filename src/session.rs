use crate::delay_strategy::DelayStrategy;
use crate::fallible::NeedsRetry;
use std::marker::PhantomData;
use vstd::prelude::*;

verus! {

/// What a retry session does after an attempt.
#[derive(Debug, PartialEq, Eq)]
pub enum Step<Delay> {
    /// The session is over: the attempt's outcome is its result.
    Finish,
    /// Wait for the delay, then make the next attempt.
    Wait(Delay),
}

/// `outcomes` are the outcomes of the attempts of one retry session whose delay strategy held
/// `delays`, in order: every attempt but the last asked for a retry and was followed by a wait
/// on the next delay, and the last attempt either needed no retry or came when the delays
/// were used up. So there are `outcomes.len()` attempts and `outcomes.len() - 1` waits.
pub open spec fn is_session<Out: NeedsRetry, Delay>(outcomes: Seq<Out>, delays: Seq<Delay>) -> bool {
    &&& 1 <= outcomes.len() <= delays.len() + 1
    &&& forall|i: int| 0 <= i < outcomes.len() - 1 ==> (#[trigger] outcomes[i]).needs_retry_spec()
    &&& outcomes.last().needs_retry_spec() ==> outcomes.len() == delays.len() + 1
}

/// Every one of `outcomes` is a possible outcome of calling `operation`.
pub open spec fn produced_by<Out, Op: Fn() -> Out>(operation: Op, outcomes: Seq<Out>) -> bool {
    forall|i: int| 0 <= i < outcomes.len() ==> operation.ensures((), #[trigger] outcomes[i])
}

/// An operation whose outcomes never need a retry is attempted exactly once, however many
/// delays the strategy holds.
pub proof fn lemma_success_attempted_once<Out: NeedsRetry, Delay, Op: Fn() -> Out>(
    operation: Op,
    outcomes: Seq<Out>,
    delays: Seq<Delay>,
)
    requires
        forall|o: Out| #[trigger] operation.ensures((), o) ==> !o.needs_retry_spec(),
        is_session(outcomes, delays),
        produced_by(operation, outcomes),
    ensures
        outcomes.len() == 1,
{
    if outcomes.len() > 1 {
        assert(outcomes[0].needs_retry_spec());
        assert(operation.ensures((), outcomes[0]));
    }
}

/// An operation whose outcomes always need a retry is attempted once more than there are
/// delays, and waits once for each delay.
pub proof fn lemma_failure_uses_every_delay<Out: NeedsRetry, Delay, Op: Fn() -> Out>(
    operation: Op,
    outcomes: Seq<Out>,
    delays: Seq<Delay>,
)
    requires
        forall|o: Out| #[trigger] operation.ensures((), o) ==> o.needs_retry_spec(),
        is_session(outcomes, delays),
        produced_by(operation, outcomes),
    ensures
        outcomes.len() == delays.len() + 1,
        outcomes.len() - 1 == delays.len(),
{
    assert(operation.ensures((), outcomes[outcomes.len() - 1]));
}

/// Without delays there is one attempt and no wait, whatever the outcome.
pub proof fn lemma_no_delays_single_attempt<Out: NeedsRetry, Delay>(
    outcomes: Seq<Out>,
    delays: Seq<Delay>,
)
    requires
        delays.len() == 0,
        is_session(outcomes, delays),
    ensures
        outcomes.len() == 1,
        outcomes.len() - 1 == 0,
{
}

/// A session that ends on an outcome needing a retry ran out of delays, and its result is
/// the outcome of the last attempt, the one after the last delay.
pub proof fn lemma_exhaustion_returns_last_outcome<Out: NeedsRetry, Delay>(
    outcomes: Seq<Out>,
    delays: Seq<Delay>,
)
    requires
        is_session(outcomes, delays),
        outcomes.last().needs_retry_spec(),
    ensures
        outcomes.len() == delays.len() + 1,
        outcomes.last() == outcomes[delays.len() as int],
{
}

/// Sessions of the same operation, which always gives the same outcome and needs no retry,
/// agree: each attempts it once and returns that outcome. No session leaves anything behind
/// that changes another.
pub proof fn lemma_sessions_agree<Out: NeedsRetry, Delay, Op: Fn() -> Out>(
    operation: Op,
    outcomes1: Seq<Out>,
    delays1: Seq<Delay>,
    outcomes2: Seq<Out>,
    delays2: Seq<Delay>,
)
    requires
        forall|o: Out| #[trigger] operation.ensures((), o) ==> !o.needs_retry_spec(),
        forall|o1: Out, o2: Out|
            #[trigger] operation.ensures((), o1) && #[trigger] operation.ensures((), o2) ==> o1
                == o2,
        is_session(outcomes1, delays1),
        produced_by(operation, outcomes1),
        is_session(outcomes2, delays2),
        produced_by(operation, outcomes2),
    ensures
        outcomes1.len() == outcomes2.len() == 1,
        outcomes1.last() == outcomes2.last(),
{
    lemma_success_attempted_once(operation, outcomes1, delays1);
    lemma_success_attempted_once(operation, outcomes2, delays2);
    assert(operation.ensures((), outcomes1[0]));
    assert(operation.ensures((), outcomes2[0]));
}

/// The decisions of one retry session: after each attempt, finish or wait for the next delay.
///
/// It owns the delay strategy and counts the attempts, starting at 1.
pub struct RetrySession<Delay, DelayStrat> {
    strategy: DelayStrat,
    attempts: usize,
    _marker: PhantomData<Delay>,
}

impl<Delay, DelayStrat: DelayStrategy<Delay>> RetrySession<Delay, DelayStrat> {
    pub closed spec fn wf(&self) -> bool {
        self.strategy.wf()
    }

    /// The delays the session can still wait for.
    pub closed spec fn remaining(&self) -> Seq<Delay> {
        self.strategy.remaining()
    }

    /// The number of the attempt now being made (saturating at `usize::MAX`).
    pub closed spec fn attempts_spec(&self) -> nat {
        self.attempts as nat
    }

    pub fn new(strategy: DelayStrat) -> (r: Self)
        requires
            strategy.wf(),
        ensures
            r.wf(),
            r.remaining() == strategy.remaining(),
            r.attempts_spec() == 1,
    {
        RetrySession { strategy, attempts: 1, _marker: PhantomData }
    }

    pub fn attempts(&self) -> (r: usize)
        ensures
            r == self.attempts_spec(),
    {
        self.attempts
    }

    /// Decides what follows an attempt with the given outcome. An outcome that needs no
    /// retry finishes the session; one that does takes the next delay, or finishes the
    /// session where none is left.
    pub fn on_outcome<Out: NeedsRetry>(&mut self, outcome: &Out) -> (r: Step<Delay>)
        requires
            old(self).wf(),
        ensures
            final(self).wf(),
            !outcome.needs_retry_spec() ==> r is Finish && final(self).remaining()
                == old(self).remaining() && final(self).attempts_spec()
                == old(self).attempts_spec(),
            outcome.needs_retry_spec() && old(self).remaining().len() == 0 ==> r is Finish
                && final(self).remaining() == old(self).remaining() && final(self).attempts_spec()
                == old(self).attempts_spec(),
            outcome.needs_retry_spec() && old(self).remaining().len() > 0 ==> r == Step::Wait(
                old(self).remaining()[0],
            ) && final(self).remaining() == old(self).remaining().drop_first()
                && final(self).attempts_spec() == if old(self).attempts_spec() < usize::MAX {
                old(self).attempts_spec() + 1
            } else {
                old(self).attempts_spec()
            },
    {
        if !outcome.needs_retry() {
            return Step::Finish;
        }
        match self.strategy.next_delay() {
            Some(delay) => {
                self.attempts = self.attempts.saturating_add(1);
                Step::Wait(delay)
            },
            None => Step::Finish,
        }
    }
}

} // verus!
