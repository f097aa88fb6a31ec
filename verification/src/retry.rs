//! The retry supervisor: it counts the attempts, asks for another one after a
//! failure while the bound allows it, and surfaces the final outcome. It
//! performs no attempt and does not wait itself; the caller does both.

use vstd::prelude::*;
use crate::error::ErrorKind;
use crate::error::TransferOutcome;

verus! {

/// How long the caller waits between a failed attempt and the next, in seconds.
pub const RETRY_DELAY_SECS: u64 = 2;

/// What the caller does after an attempt.
#[derive(Debug, Clone, Copy, PartialEq, Eq, Structural)]
pub enum RetryStep {
    /// Wait for the given number of seconds, then make another attempt.
    RetryAfter(u64),
    /// Stop: this is the outcome of the whole transfer.
    Done(TransferOutcome),
}

/// What the supervisor knows between two attempts.
#[derive(Debug, Clone, Copy, PartialEq, Eq, Structural)]
pub struct RetryState {
    /// The largest number of attempts that may be made.
    pub max_attempts: u32,
    /// The number of attempts made so far.
    pub attempts: u32,
    /// The outcome of the whole transfer, once it is known.
    pub result: Option<TransferOutcome>,
}

impl RetryState {
    /// The state before the first attempt.
    pub open spec fn initial(max_attempts: u32) -> RetryState {
        RetryState { max_attempts, attempts: 0, result: None }
    }

    /// What holds of every state that the supervisor can reach.
    pub open spec fn wf(self) -> bool {
        &&& 1 <= self.max_attempts
        &&& self.attempts <= self.max_attempts
        &&& match self.result {
            None => self.attempts < self.max_attempts,
            Some(TransferOutcome::Success) => 1 <= self.attempts,
            Some(TransferOutcome::Failed(_, attempts)) => attempts == self.attempts
                && self.attempts == self.max_attempts,
        }
    }

    /// The state after one more attempt has ended with `outcome`. Once the
    /// transfer is over, nothing changes it.
    pub open spec fn record(self, outcome: TransferOutcome) -> RetryState {
        if self.result is Some {
            self
        } else {
            let attempts = (self.attempts + 1) as u32;
            match outcome {
                TransferOutcome::Success => RetryState {
                    attempts,
                    result: Some(TransferOutcome::Success),
                    ..self
                },
                TransferOutcome::Failed(kind, _) => if attempts < self.max_attempts {
                    RetryState { attempts, ..self }
                } else {
                    RetryState {
                        attempts,
                        result: Some(TransferOutcome::Failed(kind, attempts)),
                        ..self
                    }
                },
            }
        }
    }

    /// What the caller does in this state.
    pub open spec fn verdict(self) -> RetryStep {
        match self.result {
            Some(outcome) => RetryStep::Done(outcome),
            None => RetryStep::RetryAfter(RETRY_DELAY_SECS),
        }
    }

    /// The state after the attempts whose outcomes are given, the first of
    /// them first.
    pub open spec fn run(self, outcomes: Seq<TransferOutcome>) -> RetryState
        decreases outcomes.len(),
    {
        if outcomes.len() == 0 {
            self
        } else {
            self.run(outcomes.drop_last()).record(outcomes.last())
        }
    }
}

/// Supervises the attempts of one transfer.
#[derive(Debug)]
pub struct RetrySupervisor {
    state: RetryState,
}

impl View for RetrySupervisor {
    type V = RetryState;

    closed spec fn view(&self) -> RetryState {
        self.state
    }
}

impl RetrySupervisor {
    #[verifier::type_invariant]
    spec fn reachable(self) -> bool {
        self.state.wf()
    }

    /// A supervisor that allows `max_attempts` attempts. With no attempt
    /// allowed there would be no outcome to surface, so the bound is at
    /// least one.
    pub fn new(max_attempts: u32) -> (supervisor: RetrySupervisor)
        requires
            max_attempts >= 1,
        ensures
            supervisor@ == RetryState::initial(max_attempts),
            supervisor@.wf(),
    {
        RetrySupervisor { state: RetryState { max_attempts, attempts: 0, result: None } }
    }

    /// The state of the supervisor.
    pub fn state(&self) -> (state: RetryState)
        ensures
            state == self@,
            state.wf(),
    {
        proof {
            use_type_invariant(self);
        }
        self.state
    }

    /// The number of attempts made so far.
    pub fn attempts_used(&self) -> (attempts: u32)
        ensures
            attempts == self@.attempts,
    {
        self.state.attempts
    }

    /// Takes the outcome of the attempt that was just made and says what to
    /// do next: wait and try again, or stop with the final outcome.
    pub fn record(&mut self, outcome: TransferOutcome) -> (step: RetryStep)
        ensures
            final(self)@ == old(self)@.record(outcome),
            final(self)@.wf(),
            step == final(self)@.verdict(),
    {
        proof {
            use_type_invariant(&*self);
        }
        let s: RetryState = self.state;
        let next: RetryState = match s.result {
            Some(_) => s,
            None => {
                let attempts: u32 = s.attempts + 1;
                match outcome {
                    TransferOutcome::Success => RetryState {
                        attempts,
                        result: Some(TransferOutcome::Success),
                        ..s
                    },
                    TransferOutcome::Failed(kind, _) => if attempts < s.max_attempts {
                        RetryState { attempts, ..s }
                    } else {
                        RetryState {
                            attempts,
                            result: Some(TransferOutcome::Failed(kind, attempts)),
                            ..s
                        }
                    },
                }
            },
        };
        self.state = next;
        match next.result {
            Some(o) => RetryStep::Done(o),
            None => RetryStep::RetryAfter(RETRY_DELAY_SECS),
        }
    }
}

/// Whether every one of the outcomes is a failure.
pub open spec fn all_failed(outcomes: Seq<TransferOutcome>) -> bool {
    forall|i: int| 0 <= i < outcomes.len() ==> !(#[trigger] outcomes[i]).spec_is_success()
}

/// The kind of a failed outcome.
pub open spec fn kind_of(outcome: TransferOutcome) -> ErrorKind {
    match outcome {
        TransferOutcome::Failed(kind, _) => kind,
        TransferOutcome::Success => ErrorKind::TransferIo,
    }
}

/// Recording an outcome leads from a reachable state to a reachable state.
pub proof fn lemma_record_keeps_wf(s: RetryState, outcome: TransferOutcome)
    requires
        s.wf(),
    ensures
        s.record(outcome).wf(),
        s.record(outcome).max_attempts == s.max_attempts,
{
}

/// Where every one of some outcomes is a failure, so is the last of them,
/// and so is every one of those before it.
proof fn lemma_all_but_last_failed(outcomes: Seq<TransferOutcome>)
    requires
        outcomes.len() > 0,
        all_failed(outcomes),
    ensures
        all_failed(outcomes.drop_last()),
        !outcomes.last().spec_is_success(),
{
    assert forall|i: int| 0 <= i < outcomes.drop_last().len() implies !(
    #[trigger] outcomes.drop_last()[i]).spec_is_success() by {
        assert(outcomes.drop_last()[i] == outcomes[i]);
    }
    assert(!outcomes[outcomes.len() - 1].spec_is_success());
}

/// While fewer failures were recorded than attempts are allowed, the
/// supervisor has counted each of them and asks for another attempt.
pub proof fn lemma_failures_are_retried(max_attempts: u32, outcomes: Seq<TransferOutcome>)
    requires
        max_attempts >= 1,
        outcomes.len() < max_attempts,
        all_failed(outcomes),
    ensures
        RetryState::initial(max_attempts).run(outcomes) == (RetryState {
            max_attempts,
            attempts: outcomes.len() as u32,
            result: None,
        }),
        RetryState::initial(max_attempts).run(outcomes).verdict() == RetryStep::RetryAfter(
            RETRY_DELAY_SECS,
        ),
    decreases outcomes.len(),
{
    if outcomes.len() > 0 {
        lemma_all_but_last_failed(outcomes);
        lemma_failures_are_retried(max_attempts, outcomes.drop_last());
    }
}

/// After each of the first failures, up to a number below the bound, the
/// supervisor asks for another attempt.
proof fn lemma_retried_until(max_attempts: u32, outcomes: Seq<TransferOutcome>, limit: int)
    requires
        max_attempts >= 1,
        all_failed(outcomes),
        0 <= limit <= outcomes.len(),
        limit < max_attempts,
    ensures
        forall|k: int|
            0 <= k <= limit ==> (#[trigger] RetryState::initial(max_attempts).run(
                outcomes.take(k),
            )).verdict() == RetryStep::RetryAfter(RETRY_DELAY_SECS),
{
    assert forall|k: int| 0 <= k <= limit implies (#[trigger] RetryState::initial(
        max_attempts,
    ).run(outcomes.take(k))).verdict() == RetryStep::RetryAfter(RETRY_DELAY_SECS) by {
        lemma_failures_are_retried(max_attempts, outcomes.take(k));
    }
}

/// Where the attempts fail some times, fewer than are allowed, and then one
/// succeeds, the transfer ends with success after exactly that many
/// attempts and one more; before the last one the supervisor asked for
/// another attempt each time.
pub proof fn lemma_success_ends_the_transfer(max_attempts: u32, failures: Seq<TransferOutcome>)
    requires
        max_attempts >= 1,
        failures.len() < max_attempts,
        all_failed(failures),
    ensures
        ({
            let end = RetryState::initial(max_attempts).run(
                failures.push(TransferOutcome::Success),
            );
            &&& end.result == Some(TransferOutcome::Success)
            &&& end.attempts == failures.len() + 1
            &&& end.verdict() == RetryStep::Done(TransferOutcome::Success)
        }),
        forall|k: int|
            0 <= k <= failures.len() ==> (#[trigger] RetryState::initial(max_attempts).run(
                failures.take(k),
            )).verdict() == RetryStep::RetryAfter(RETRY_DELAY_SECS),
{
    let all = failures.push(TransferOutcome::Success);
    assert(all.drop_last() == failures);
    lemma_failures_are_retried(max_attempts, failures);
    lemma_retried_until(max_attempts, failures, failures.len() as int);
}

/// Where every attempt fails, the transfer ends with failure after exactly
/// as many attempts as are allowed: the outcome holds the kind of the last
/// failure and that number, and before the last attempt the supervisor
/// asked for another one each time.
pub proof fn lemma_exhaustion_surfaces_last_failure(
    max_attempts: u32,
    outcomes: Seq<TransferOutcome>,
)
    requires
        max_attempts >= 1,
        outcomes.len() == max_attempts,
        all_failed(outcomes),
    ensures
        ({
            let end = RetryState::initial(max_attempts).run(outcomes);
            &&& end.result == Some(
                TransferOutcome::Failed(kind_of(outcomes.last()), max_attempts),
            )
            &&& end.attempts == max_attempts
            &&& end.verdict() == RetryStep::Done(
                TransferOutcome::Failed(kind_of(outcomes.last()), max_attempts),
            )
        }),
        forall|k: int|
            0 <= k < max_attempts ==> (#[trigger] RetryState::initial(max_attempts).run(
                outcomes.take(k),
            )).verdict() == RetryStep::RetryAfter(RETRY_DELAY_SECS),
{
    lemma_all_but_last_failed(outcomes);
    lemma_failures_are_retried(max_attempts, outcomes.drop_last());
    lemma_retried_until(max_attempts, outcomes, max_attempts - 1);
}

/// Once the transfer is over, further outcomes change nothing.
pub proof fn lemma_done_is_final(s: RetryState, outcome: TransferOutcome)
    requires
        s.result is Some,
    ensures
        s.record(outcome) == s,
{
}

} // verus!
