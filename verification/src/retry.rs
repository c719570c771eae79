//! Retry executor: bounded retries of a fallible external operation, with a
//! fixed pause between attempts.
//!
//! The tools that list disks and move mount designators fail now and then on
//! media that has just been attached or detached. `RetryState` holds the
//! decisions: after each attempt it says whether the work is done, whether
//! to pause and try again, or whether to give up. `run` drives it for an
//! operation that can be called directly; a caller that has to await the
//! operation or the pause drives it itself.

use vstd::prelude::*;
use crate::error::VaultError;
use crate::error::VaultErrorView;

verus! {

/// The pause between two attempts, in seconds.
pub const RETRY_DELAY_SECONDS: u64 = 1;

/// The number of attempts that discovery, reveal and conceal give each
/// external call.
pub const EXTERNAL_CALL_ATTEMPTS: u32 = 3;

/// What to do after an attempt.
#[derive(Debug)]
pub enum RetryDecision<T> {
    /// The attempt succeeded, with this value.
    Done(T),
    /// The attempt failed; pause for so many seconds and try again.
    Retry { delay_seconds: u64 },
    /// The attempt failed and none is left; the error to report.
    GiveUp(VaultError),
}

/// What to do after an attempt, as a mathematical value.
pub enum Decision<T> {
    Done(T),
    Retry,
    GiveUp(VaultErrorView),
}

/// The decision after an attempt with the outcome `outcome`, where
/// `made` attempts were made before it and `max_attempts` are allowed in
/// all. A success ends the run. A failure is tried again while attempts are
/// left, and otherwise ends the run with `ExternalToolFailure` and the
/// failure's message.
pub open spec fn decide<T>(max_attempts: nat, made: nat, outcome: Result<T, Seq<char>>) -> Decision<
    T,
> {
    match outcome {
        Ok(v) => Decision::Done(v),
        Err(message) => if made + 1 < max_attempts {
            Decision::Retry
        } else {
            Decision::GiveUp(VaultErrorView::ExternalToolFailure(message))
        },
    }
}

/// How a run ends of which `made` attempts are behind: the number of
/// attempts made in all, and the result. `outcomes(i)` is the outcome of
/// attempt `i`, counted from 0. A run that may make no attempt at all fails
/// at once, with an empty message.
pub open spec fn run_from<T>(
    outcomes: spec_fn(nat) -> Result<T, Seq<char>>,
    max_attempts: nat,
    made: nat,
) -> (nat, Result<T, VaultErrorView>)
    decreases max_attempts - made,
{
    if made >= max_attempts {
        (made, Err(VaultErrorView::ExternalToolFailure(Seq::empty())))
    } else {
        match decide(max_attempts, made, outcomes(made)) {
            Decision::Done(v) => (made + 1, Ok(v)),
            Decision::GiveUp(e) => (made + 1, Err(e)),
            Decision::Retry => run_from(outcomes, max_attempts, made + 1),
        }
    }
}

/// How a run ends: the number of attempts made, and the result.
pub open spec fn run_outcome<T>(outcomes: spec_fn(nat) -> Result<T, Seq<char>>, max_attempts: nat) -> (
    nat,
    Result<T, VaultErrorView>,
) {
    run_from(outcomes, max_attempts, 0)
}

/// The state of a run: how many attempts are allowed, and how many were
/// made.
#[derive(Clone, Copy, Debug, PartialEq, Eq, Structural)]
pub struct RetryState {
    pub max_attempts: u32,
    pub attempts: u32,
}

impl RetryState {
    /// The state before the first attempt.
    pub fn new(max_attempts: u32) -> (s: Self)
        ensures
            s == (RetryState { max_attempts, attempts: 0 }),
    {
        RetryState { max_attempts, attempts: 0 }
    }

    /// Whether no attempt may be made any more.
    pub fn exhausted(&self) -> (r: bool)
        ensures
            r == (self.attempts >= self.max_attempts),
    {
        self.attempts >= self.max_attempts
    }

    /// Takes note of the outcome of an attempt and decides what to do.
    pub fn record<T>(&mut self, outcome: Result<T, String>) -> (d: RetryDecision<T>)
        ensures
            final(self).max_attempts == old(self).max_attempts,
            final(self).attempts == if old(self).attempts < u32::MAX {
                (old(self).attempts + 1) as u32
            } else {
                u32::MAX
            },
            match decide(
                old(self).max_attempts as nat,
                old(self).attempts as nat,
                match outcome {
                    Ok(v) => Ok(v),
                    Err(m) => Err(m@),
                },
            ) {
                Decision::Done(v) => d == RetryDecision::Done(v),
                Decision::Retry => d == (RetryDecision::<T>::Retry {
                    delay_seconds: RETRY_DELAY_SECONDS,
                }),
                Decision::GiveUp(e) => d matches RetryDecision::GiveUp(err) && err@ == e,
            },
    {
        let made = self.attempts;
        if made < u32::MAX {
            self.attempts = made + 1;
        }
        match outcome {
            Ok(v) => RetryDecision::Done(v),
            Err(message) => {
                if self.max_attempts > 0 && made < self.max_attempts - 1 {
                    RetryDecision::Retry { delay_seconds: RETRY_DELAY_SECONDS }
                } else {
                    RetryDecision::GiveUp(VaultError::ExternalToolFailure(message))
                }
            },
        }
    }
}

/// How a run ended.
#[derive(Debug)]
pub struct RetryReport<T> {
    /// The first success, or `ExternalToolFailure` with the last failure's
    /// message.
    pub result: Result<T, VaultError>,
    /// The number of attempts that the retry state counted: one for each
    /// outcome that it took note of.
    pub attempts: u32,
}

/// Drives a `RetryState` for an operation that can be called directly: it
/// calls `operation`, hands each outcome to `RetryState::record`, and on
/// `Retry` calls `pause` with the number of seconds to wait.
///
/// The report holds a value that `operation` returned as a success, with at
/// least one attempt counted; or `ExternalToolFailure` with a message that
/// `operation` returned as a failure, with `max_attempts` attempts counted;
/// or, where no attempt is allowed, `ExternalToolFailure` with an empty
/// message and no attempt counted. The count is that of the retry state. How
/// often a given operation is called is what `run_outcome` says of its
/// outcomes; the contract here cannot speak of calls.
pub fn run<T, F: Fn() -> Result<T, String>, P: Fn(u64) -> ()>(
    operation: F,
    max_attempts: u32,
    pause: P,
) -> (report: RetryReport<T>)
    requires
        call_requires(operation, ()),
        call_requires(pause, (RETRY_DELAY_SECONDS,)),
    ensures
        report.attempts <= max_attempts,
        report.result matches Ok(v) ==> report.attempts >= 1 && call_ensures(
            operation,
            (),
            Ok::<T, String>(v),
        ),
        report.result matches Err(e) ==> report.attempts == max_attempts && exists|m: String|
            e@ == VaultErrorView::ExternalToolFailure(m@) && (if max_attempts == 0 {
                m@.len() == 0
            } else {
                call_ensures(operation, (), Err::<T, String>(m))
            }),
{
    let mut state = RetryState::new(max_attempts);
    if state.exhausted() {
        let m = String::new();
        let report = RetryReport {
            result: Err(VaultError::ExternalToolFailure(m)),
            attempts: 0,
        };
        assert(report.result->Err_0@ == VaultErrorView::ExternalToolFailure(m@));
        return report;
    }
    loop
        invariant
            state.max_attempts == max_attempts,
            state.attempts < max_attempts,
            call_requires(operation, ()),
            call_requires(pause, (RETRY_DELAY_SECONDS,)),
        decreases max_attempts - state.attempts,
    {
        let outcome = operation();
        let ghost seen = outcome;
        match state.record(outcome) {
            RetryDecision::Done(v) => {
                return RetryReport { result: Ok(v), attempts: state.attempts };
            },
            RetryDecision::GiveUp(e) => {
                assert(seen is Err);
                assert(e@ == VaultErrorView::ExternalToolFailure(seen->Err_0@));
                return RetryReport { result: Err(e), attempts: state.attempts };
            },
            RetryDecision::Retry { delay_seconds } => {
                pause(delay_seconds);
            },
        }
    }
}

// ---------------------------------------------------------------------------
// Consequences
// ---------------------------------------------------------------------------

/// An operation that fails `k` times and then succeeds, with `k` below
/// `max_attempts`, is called exactly `k + 1` times, and the run gives the
/// value of the success.
pub proof fn lemma_success_after_failures<T>(
    outcomes: spec_fn(nat) -> Result<T, Seq<char>>,
    max_attempts: nat,
    k: nat,
)
    requires
        k < max_attempts,
        forall|i: nat| i < k ==> (#[trigger] outcomes(i)) is Err,
        outcomes(k) is Ok,
    ensures
        run_outcome(outcomes, max_attempts) == (k + 1, Ok::<T, VaultErrorView>(outcomes(k)->Ok_0)),
{
    lemma_run_skips_failures(outcomes, max_attempts, k, 0);
}

/// An operation that always fails is called exactly `max_attempts` times,
/// and the run fails with `ExternalToolFailure` and the message of the last
/// failure.
pub proof fn lemma_failure_after_all_attempts<T>(
    outcomes: spec_fn(nat) -> Result<T, Seq<char>>,
    max_attempts: nat,
)
    requires
        forall|i: nat| i < max_attempts ==> (#[trigger] outcomes(i)) is Err,
    ensures
        run_outcome(outcomes, max_attempts).0 == max_attempts,
        run_outcome(outcomes, max_attempts).1 == Err::<T, VaultErrorView>(
            VaultErrorView::ExternalToolFailure(
                if max_attempts == 0 {
                    Seq::empty()
                } else {
                    outcomes((max_attempts - 1) as nat)->Err_0
                },
            ),
        ),
{
    if max_attempts > 0 {
        lemma_run_exhausts(outcomes, max_attempts, 0);
    }
}

proof fn lemma_run_skips_failures<T>(
    outcomes: spec_fn(nat) -> Result<T, Seq<char>>,
    max_attempts: nat,
    k: nat,
    made: nat,
)
    requires
        made <= k < max_attempts,
        forall|i: nat| i < k ==> (#[trigger] outcomes(i)) is Err,
        outcomes(k) is Ok,
    ensures
        run_from(outcomes, max_attempts, made) == (k + 1, Ok::<T, VaultErrorView>(outcomes(k)->Ok_0)),
    decreases k - made,
{
    if made < k {
        assert(outcomes(made) is Err);
        lemma_run_skips_failures(outcomes, max_attempts, k, made + 1);
    }
}

proof fn lemma_run_exhausts<T>(
    outcomes: spec_fn(nat) -> Result<T, Seq<char>>,
    max_attempts: nat,
    made: nat,
)
    requires
        made < max_attempts,
        forall|i: nat| i < max_attempts ==> (#[trigger] outcomes(i)) is Err,
    ensures
        run_from(outcomes, max_attempts, made) == (
            max_attempts,
            Err::<T, VaultErrorView>(
                VaultErrorView::ExternalToolFailure(outcomes((max_attempts - 1) as nat)->Err_0),
            ),
        ),
    decreases max_attempts - made,
{
    assert(outcomes(made) is Err);
    if made + 1 < max_attempts {
        lemma_run_exhausts(outcomes, max_attempts, made + 1);
    }
}

} // verus!
