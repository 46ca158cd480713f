//! Actuator retry policy: open (eject) and close commands are attempted a
//! bounded number of times, the first success wins, and a command that
//! cannot be launched at all ends the exchange at once with a launch error
//! instead of being retried.

use vstd::prelude::*;

verus! {

/// What one attempt at the external command came back with.
#[derive(Clone, Copy, Debug, PartialEq, Eq, Structural)]
pub enum AttemptOutcome {
    /// The command could not be started at all.
    LaunchFailed,
    /// The command ran; the flag is whether it reported success.
    Finished(bool),
}

/// What to do after one attempt.
#[derive(Clone, Copy, Debug, PartialEq, Eq, Structural)]
pub enum RetryDecision {
    /// The command reported success: stop, the actuation worked.
    Succeeded,
    /// The command could not be started: stop at once with a launch error.
    LaunchError,
    /// The command ran and failed, and attempts remain: try again.
    TryAgain,
    /// The command ran and failed on the last allowed attempt: report that
    /// the actuation never succeeded.
    GaveUp,
}

/// The bounded-attempt policy: a fixed budget of attempts, spent one per
/// failed run.
pub struct RetryPolicy {
    attempts_left: usize,
}

impl RetryPolicy {
    /// Attempts that may still be made.
    pub closed spec fn spec_attempts_left(&self) -> int {
        self.attempts_left as int
    }

    /// A fresh policy with a budget of `cap` attempts.
    pub fn new(cap: usize) -> (p: RetryPolicy)
        requires
            cap >= 1,
        ensures
            p.spec_attempts_left() == cap,
    {
        RetryPolicy { attempts_left: cap }
    }

    /// Consumes one attempt's outcome.  Success and launch failure stop the
    /// exchange at once; a failed run spends one attempt and retries while
    /// any budget is left.
    pub fn on_attempt(&mut self, outcome: AttemptOutcome) -> (d: RetryDecision)
        requires
            old(self).spec_attempts_left() >= 1,
        ensures
            d == (match outcome {
                AttemptOutcome::Finished(true) => RetryDecision::Succeeded,
                AttemptOutcome::LaunchFailed => RetryDecision::LaunchError,
                AttemptOutcome::Finished(false) => if old(self).spec_attempts_left() > 1 {
                    RetryDecision::TryAgain
                } else {
                    RetryDecision::GaveUp
                },
            }),
            final(self).spec_attempts_left() == (match outcome {
                AttemptOutcome::Finished(false) => old(self).spec_attempts_left() - 1,
                _ => old(self).spec_attempts_left(),
            }),
    {
        match outcome {
            AttemptOutcome::Finished(true) => RetryDecision::Succeeded,
            AttemptOutcome::LaunchFailed => RetryDecision::LaunchError,
            AttemptOutcome::Finished(false) => {
                self.attempts_left = self.attempts_left - 1;
                if self.attempts_left > 0 {
                    RetryDecision::TryAgain
                } else {
                    RetryDecision::GaveUp
                }
            },
        }
    }
}

} // verus!
