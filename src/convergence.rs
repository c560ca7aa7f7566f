//! The convergence verifier: poll a node until a change shows up, the wait
//! budget runs out, or the caller cancels. The decisions are made here; the
//! caller performs each step (a query, a sleep) and reports what happened.
use vstd::prelude::*;
use crate::error::SyncError;

verus! {

/// How a verification ended. None of these is an error.
#[derive(Debug, Clone, Copy, PartialEq, Eq, Structural)]
pub enum Verdict {
    /// A poll saw the expected change.
    Converged,
    /// The budget ran out before any poll saw it.
    NotConverged,
    /// The caller stopped the verification.
    Cancelled,
}

/// Where a verification stands.
#[derive(Debug, Clone, Copy, PartialEq, Eq, Structural)]
pub enum Phase {
    Running,
    Done(Verdict),
    Failed,
}

/// What the caller does next.
#[derive(Debug, Clone, PartialEq, Eq)]
pub enum Step {
    /// Query the node once.
    Poll,
    /// Wait this many milliseconds, then report the wake-up.
    Sleep(u64),
    /// Stop: the verification ended with this verdict.
    Finish(Verdict),
    /// Stop: a poll failed in transport, and this failure is the result.
    Fail(SyncError),
    /// Nothing more to do: the verification ended in a failure earlier.
    Stopped,
}

/// Polls a node at a fixed interval within a total wait budget.
#[derive(Debug, Clone)]
pub struct ConvergenceVerifier {
    pub poll_interval_ms: u64,
    pub budget_ms: u64,
    pub polls: u64,
    pub phase: Phase,
}

/// Whether another poll fits: one more interval, counted from `elapsed_ms`,
/// ends before the budget does.
pub open spec fn retry_fits(elapsed_ms: u64, interval_ms: u64, budget_ms: u64) -> bool {
    elapsed_ms + interval_ms < budget_ms
}

/// What a finished verification answers to anything.
pub open spec fn settled(phase: Phase) -> Option<Step> {
    match phase {
        Phase::Done(v) => Some(Step::Finish(v)),
        Phase::Failed => Some(Step::Stopped),
        Phase::Running => None,
    }
}

impl ConvergenceVerifier {
    /// A verification that has not polled yet.
    pub fn new(poll_interval_ms: u64, budget_ms: u64) -> (r: ConvergenceVerifier)
        ensures
            r.poll_interval_ms == poll_interval_ms,
            r.budget_ms == budget_ms,
            r.polls == 0,
            r.phase == Phase::Running,
    {
        ConvergenceVerifier { poll_interval_ms, budget_ms, polls: 0, phase: Phase::Running }
    }

    /// The first step: poll at once.
    pub fn start(&self) -> (r: Step)
        ensures
            self.phase == Phase::Running ==> r == Step::Poll,
            self.phase != Phase::Running ==> settled(
                self.phase,
            ) == Some(r),
    {
        self.resume()
    }

    fn resume(&self) -> (r: Step)
        ensures
            self.phase == Phase::Running ==> r == Step::Poll,
            self.phase != Phase::Running ==> settled(
                self.phase,
            ) == Some(r),
    {
        match self.phase {
            Phase::Running => Step::Poll,
            Phase::Done(v) => Step::Finish(v),
            Phase::Failed => Step::Stopped,
        }
    }

    /// A poll answered: `satisfied` tells whether it saw the change, and
    /// `elapsed_ms` is the time since the verification started. A satisfied
    /// poll converges; otherwise another poll follows after the interval when
    /// it fits in the budget, and the verification ends unconverged when it
    /// does not. A finished verification stays as it is.
    pub fn on_poll(&mut self, satisfied: bool, elapsed_ms: u64) -> (r: Step)
        ensures
            final(self).poll_interval_ms == old(self).poll_interval_ms,
            final(self).budget_ms == old(self).budget_ms,
            old(self).phase != Phase::Running ==> *final(self) == *old(self),
            old(self).phase == Phase::Running ==> {
                &&& final(self).polls == if old(self).polls < u64::MAX {
                    old(self).polls + 1
                } else {
                    old(self).polls as int
                }
                &&& satisfied ==> r == Step::Finish(Verdict::Converged) && final(self).phase
                    == Phase::Done(Verdict::Converged)
                &&& !satisfied && retry_fits(elapsed_ms, old(self).poll_interval_ms, old(self).budget_ms)
                    ==> r == Step::Sleep(old(self).poll_interval_ms) && final(self).phase
                    == Phase::Running
                &&& !satisfied && !retry_fits(elapsed_ms, old(self).poll_interval_ms, old(self).budget_ms)
                    ==> r == Step::Finish(Verdict::NotConverged) && final(self).phase
                    == Phase::Done(Verdict::NotConverged)
            },
            old(self).phase != Phase::Running ==> settled(
                old(self).phase,
            ) == Some(r),
    {
        if self.phase != Phase::Running {
            return self.resume();
        }
        if self.polls < u64::MAX {
            self.polls = self.polls + 1;
        }
        if satisfied {
            self.phase = Phase::Done(Verdict::Converged);
            Step::Finish(Verdict::Converged)
        } else if elapsed_ms < self.budget_ms && self.budget_ms - elapsed_ms > self.poll_interval_ms {
            Step::Sleep(self.poll_interval_ms)
        } else {
            self.phase = Phase::Done(Verdict::NotConverged);
            Step::Finish(Verdict::NotConverged)
        }
    }

    /// The wait after a poll is over: poll again, unless the verification has
    /// finished meanwhile.
    pub fn on_wake(&self) -> (r: Step)
        ensures
            self.phase == Phase::Running ==> r == Step::Poll,
            self.phase != Phase::Running ==> settled(
                self.phase,
            ) == Some(r),
    {
        self.resume()
    }

    /// The caller stops the verification: no further poll happens. A
    /// verification that had already finished keeps its verdict.
    pub fn cancel(&mut self) -> (r: Step)
        ensures
            final(self).polls == old(self).polls,
            final(self).poll_interval_ms == old(self).poll_interval_ms,
            final(self).budget_ms == old(self).budget_ms,
            old(self).phase == Phase::Running ==> final(self).phase == Phase::Done(Verdict::Cancelled)
                && r == Step::Finish(Verdict::Cancelled),
            old(self).phase != Phase::Running ==> *final(self) == *old(self),
            old(self).phase != Phase::Failed ==> r matches Step::Finish(_),
    {
        if self.phase == Phase::Running {
            self.phase = Phase::Done(Verdict::Cancelled);
        }
        self.resume()
    }

    /// A poll failed in transport: the failure is the verification's result.
    pub fn on_poll_failed(&mut self, e: SyncError) -> (r: Step)
        ensures
            final(self).polls == old(self).polls,
            final(self).poll_interval_ms == old(self).poll_interval_ms,
            final(self).budget_ms == old(self).budget_ms,
            old(self).phase == Phase::Running ==> final(self).phase == Phase::Failed && r
                == Step::Fail(e),
            old(self).phase != Phase::Running ==> *final(self) == *old(self),
    {
        if self.phase == Phase::Running {
            self.phase = Phase::Failed;
            Step::Fail(e)
        } else {
            self.resume()
        }
    }
}

} // verus!
