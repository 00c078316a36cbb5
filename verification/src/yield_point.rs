//! The yield primitive: a single-use suspension point through which a task
//! voluntarily hands control back to the scheduler for exactly one pass.

use vstd::prelude::*;

verus! {

/// The lifecycle of one invocation of the yield primitive.
#[derive(Clone, Copy, PartialEq, Eq, Structural, Debug)]
pub enum YieldState {
    /// The scheduler has not yet observed the suspension.
    NotStarted,
    /// The scheduler has observed the suspension once; the point has already
    /// re-armed itself, so no external event is needed before the next
    /// observation completes it.
    ObservedOnce,
    /// The suspension is over; the task has continued past it. Terminal.
    Complete,
}

/// What one observation (poll) of a yield point reports to the scheduler.
#[derive(Clone, Copy, PartialEq, Eq, Structural, Debug)]
pub enum PollStatus {
    /// The task is suspended but made progress and is immediately resumable.
    Pending,
    /// The suspension is finished; the task continues synchronously.
    Ready,
}

/// How one observation advances a yield point.
pub open spec fn yield_step(s: YieldState) -> YieldState {
    match s {
        YieldState::NotStarted => YieldState::ObservedOnce,
        YieldState::ObservedOnce => YieldState::Complete,
        YieldState::Complete => YieldState::Complete,
    }
}

/// What one observation of a yield point in state `s` reports.
pub open spec fn yield_observation(s: YieldState) -> PollStatus {
    match s {
        YieldState::NotStarted => PollStatus::Pending,
        YieldState::ObservedOnce => PollStatus::Ready,
        YieldState::Complete => PollStatus::Ready,
    }
}

/// One invocation of the yield primitive. It lives only for the duration of
/// one suspension: a task creates a fresh point each time it yields.
pub struct YieldPoint {
    /// How far through its two observations this suspension is.
    pub state: YieldState,
}

impl YieldPoint {
    /// A fresh suspension point, not yet observed by the scheduler.
    pub fn new() -> (y: YieldPoint)
        ensures
            y.state == YieldState::NotStarted,
    {
        YieldPoint { state: YieldState::NotStarted }
    }

    /// One observation by the scheduler. The first observation reports
    /// `Pending` and proactively re-arms the point for resumption (it never
    /// waits for an external event); every later observation reports `Ready`.
    pub fn poll(&mut self) -> (r: PollStatus)
        ensures
            final(self).state == yield_step(old(self).state),
            r == yield_observation(old(self).state),
    {
        match self.state {
            YieldState::NotStarted => {
                self.state = YieldState::ObservedOnce;
                PollStatus::Pending
            },
            YieldState::ObservedOnce => {
                self.state = YieldState::Complete;
                PollStatus::Ready
            },
            YieldState::Complete => PollStatus::Ready,
        }
    }
}

/// Law: yield determinism. One invocation of the yield primitive yields
/// exactly one `Pending` observation, on the first poll, and every poll after
/// the first reports `Ready`; no other sequence of observations is possible.
/// A yielding task is therefore paused for precisely one scheduling pass and
/// resumes without any external stimulus.
pub proof fn lemma_yield_determinism(s: YieldState)
    ensures
        yield_observation(YieldState::NotStarted) == PollStatus::Pending,
        yield_step(YieldState::NotStarted) == YieldState::ObservedOnce,
        yield_observation(yield_step(YieldState::NotStarted)) == PollStatus::Ready,
        yield_step(yield_step(YieldState::NotStarted)) == YieldState::Complete,
        s != YieldState::NotStarted ==> yield_observation(s) == PollStatus::Ready,
{
}

} // verus!
