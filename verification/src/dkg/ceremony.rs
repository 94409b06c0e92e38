//! The decisions of the interactive DKG ceremony: where a restarted
//! ceremony resumes, the order of its phases, when a phase is complete, when
//! to ask the leader for logs, the shared ceremony timestamp, and the
//! backoff between polls. The runner performs the network and disk work.

use crate::dkg::config::DkgConfig;
use crate::dkg::error::DkgError;
use crate::dkg::state::DkgPhase;
use crate::text::{decimal, push_decimal, push_str};
use vstd::arithmetic::power2::pow2;
use vstd::prelude::*;

verus! {

/// Phase 2 max timeout (collecting dealer messages and sending acks).
pub const PHASE2_MAX_TIMEOUT_SECS: u64 = 120;

/// Phase 4 max timeout (collecting dealer logs for finalization).
pub const PHASE4_MAX_TIMEOUT_SECS: u64 = 120;

/// Initial backoff delay for retries.
pub const INITIAL_BACKOFF_MS: u64 = 100;

/// Maximum backoff delay for retries.
pub const MAX_BACKOFF_MS: u64 = 5000;

/// Progress log interval.
pub const PROGRESS_LOG_INTERVAL_SECS: u64 = 5;

/// Minimum time between two requests for logs to the leader.
pub const LOG_REQUEST_INTERVAL_MS: u64 = 5000;

/// The ceremony timestamp is the current time rounded down to this many
/// nanoseconds (five minutes), so that nodes started close together agree.
pub const CEREMONY_TIME_INTERVAL_NANOS: u64 = 300_000_000_000;

/// Exponential backoff helper for retry delays: 100 ms, doubling up to 5 s.
pub struct ExponentialBackoff {
    current_ms: u64,
}

impl ExponentialBackoff {
    #[verifier::type_invariant]
    spec fn bounded(&self) -> bool {
        self.current_ms <= MAX_BACKOFF_MS
    }

    /// The delay the next call returns, in milliseconds.
    pub closed spec fn current(&self) -> u64 {
        self.current_ms
    }

    /// A backoff that starts at the initial delay.
    pub fn new() -> (b: Self)
        ensures
            b.current() == INITIAL_BACKOFF_MS,
    {
        ExponentialBackoff { current_ms: INITIAL_BACKOFF_MS }
    }

    /// Returns the current delay in milliseconds and doubles it for the next
    /// call, up to the maximum.
    pub fn next_delay(&mut self) -> (delay_ms: u64)
        ensures
            delay_ms == old(self).current(),
            final(self).current() == if 2 * old(self).current() < MAX_BACKOFF_MS {
                (2 * old(self).current()) as u64
            } else {
                MAX_BACKOFF_MS
            },
    {
        proof {
            use_type_invariant(&*self);
        }
        let delay = self.current_ms;
        let doubled = self.current_ms * 2;
        self.current_ms = if doubled < MAX_BACKOFF_MS {
            doubled
        } else {
            MAX_BACKOFF_MS
        };
        delay
    }
}

/// The delay of the `k`-th call (from zero) on a fresh backoff.
pub open spec fn backoff_delay(k: nat) -> u64
    decreases k,
{
    if k == 0 {
        INITIAL_BACKOFF_MS
    } else {
        let prev = backoff_delay((k - 1) as nat);
        if 2 * prev < MAX_BACKOFF_MS {
            (2 * prev) as u64
        } else {
            MAX_BACKOFF_MS
        }
    }
}

/// Delays never fall below the initial delay nor exceed the maximum, and
/// never shrink from one call to the next.
pub proof fn lemma_backoff_bounded(k: nat)
    ensures
        INITIAL_BACKOFF_MS <= backoff_delay(k) <= MAX_BACKOFF_MS,
        backoff_delay(k) <= backoff_delay(k + 1),
    decreases k,
{
    if k > 0 {
        lemma_backoff_bounded((k - 1) as nat);
    }
}

/// The `k`-th delay (from zero) is the initial delay doubled `k` times,
/// capped at the maximum: `min(100 * 2^k, 5000)` milliseconds.
pub proof fn lemma_backoff_closed_form(k: nat)
    ensures
        backoff_delay(k) == if INITIAL_BACKOFF_MS * pow2(k) < MAX_BACKOFF_MS {
            INITIAL_BACKOFF_MS * pow2(k)
        } else {
            MAX_BACKOFF_MS as int
        },
    decreases k,
{
    if k == 0 {
        assert(pow2(0) == 1) by {
            vstd::arithmetic::power2::lemma_pow2(0);
            vstd::arithmetic::power::lemma_pow0(2);
        }
    } else {
        lemma_backoff_closed_form((k - 1) as nat);
        vstd::arithmetic::power2::lemma_pow2_unfold(k);
    }
}

/// A fresh backoff answers its `k`-th call (from zero) with the `k`-th
/// delay: if the backoff is at the `k`-th delay, its next call returns it
/// and leaves the backoff at the next one.
pub proof fn lemma_backoff_step(b0: ExponentialBackoff, b1: ExponentialBackoff, delay: u64, k: nat)
    requires
        b0.current() == backoff_delay(k),
        delay == b0.current(),
        b1.current() == if 2 * b0.current() < MAX_BACKOFF_MS {
            (2 * b0.current()) as u64
        } else {
            MAX_BACKOFF_MS
        },
    ensures
        delay == backoff_delay(k),
        b1.current() == backoff_delay(k + 1),
{
}

/// From the seventh call on, every delay is the maximum.
pub proof fn lemma_backoff_saturates(k: nat)
    requires
        k >= 6,
    ensures
        backoff_delay(k) == MAX_BACKOFF_MS,
    decreases k,
{
    if k == 6 {
        reveal_with_fuel(backoff_delay, 7);
    } else {
        lemma_backoff_saturates((k - 1) as nat);
    }
}

/// The ceremony timestamp for the current time: rounded down to the
/// ceremony interval.
pub fn ceremony_timestamp(now_nanos: u64) -> (t: u64)
    ensures
        t == (now_nanos / CEREMONY_TIME_INTERVAL_NANOS) * CEREMONY_TIME_INTERVAL_NANOS,
        t <= now_nanos < t + CEREMONY_TIME_INTERVAL_NANOS,
        t % CEREMONY_TIME_INTERVAL_NANOS == 0,
{
    proof {
        vstd::arithmetic::div_mod::lemma_mod_multiples_basic(
            (now_nanos / CEREMONY_TIME_INTERVAL_NANOS) as int,
            CEREMONY_TIME_INTERVAL_NANOS as int,
        );
    }
    let q = now_nanos / CEREMONY_TIME_INTERVAL_NANOS;
    assert(q * CEREMONY_TIME_INTERVAL_NANOS <= now_nanos) by (nonlinear_arith)
        requires
            q == now_nanos / CEREMONY_TIME_INTERVAL_NANOS,
    ;
    assert(now_nanos < q * CEREMONY_TIME_INTERVAL_NANOS + CEREMONY_TIME_INTERVAL_NANOS) by (nonlinear_arith)
        requires
            q == now_nanos / CEREMONY_TIME_INTERVAL_NANOS,
    ;
    q * CEREMONY_TIME_INTERVAL_NANOS
}

/// Seconds a follower waits for the leader to start.
pub const LEADER_HEADSTART_SECS: u64 = 2;

/// Seconds a node with bootstrap peers waits for the network to come up.
pub const NETWORK_SETUP_SECS: u64 = 3;

/// DKG ceremony runner: its configuration and whether to ignore persisted
/// state.
#[derive(Debug, Clone)]
pub struct DkgCeremony {
    /// The ceremony's configuration.
    pub config: DkgConfig,
    /// Whether persisted state is cleared before running.
    pub force_restart: bool,
}

impl DkgCeremony {
    /// Create a new DKG ceremony.
    pub fn new(config: DkgConfig) -> (c: Self)
        ensures
            c.config == config,
            !c.force_restart,
    {
        DkgCeremony { config, force_restart: false }
    }

    /// Create a new DKG ceremony with force restart (ignores existing state).
    pub fn new_with_force_restart(config: DkgConfig, force_restart: bool) -> (c: Self)
        ensures
            c.config == config,
            c.force_restart == force_restart,
    {
        DkgCeremony { config, force_restart }
    }

    /// Whether this node is the ceremony's leader (coordinator): the first
    /// validator.
    pub fn is_leader(&self) -> (r: bool)
        ensures
            r == (self.config.validator_index == 0),
    {
        self.config.validator_index == 0
    }

    /// The waits, in seconds, before the ceremony starts: a follower gives
    /// the leader a head start, and a node with bootstrap peers lets the
    /// network come up.
    pub fn startup_waits(&self) -> (w: Vec<u64>)
        ensures
            w@ == (if self.config.validator_index != 0 {
                seq![LEADER_HEADSTART_SECS]
            } else {
                Seq::empty()
            }) + (if self.config.bootstrap_peers.len() > 0 {
                seq![NETWORK_SETUP_SECS]
            } else {
                Seq::empty()
            }),
    {
        let mut w: Vec<u64> = Vec::new();
        if !self.is_leader() {
            w.push(LEADER_HEADSTART_SECS);
        }
        if self.config.bootstrap_peers.len() > 0 {
            w.push(NETWORK_SETUP_SECS);
        }
        proof {
            let a: Seq<u64> = if self.config.validator_index != 0 {
                seq![LEADER_HEADSTART_SECS]
            } else {
                Seq::empty()
            };
            let b: Seq<u64> = if self.config.bootstrap_peers.len() > 0 {
                seq![NETWORK_SETUP_SECS]
            } else {
                Seq::empty()
            };
            assert(w@ =~= a + b);
        }
        w
    }
}

/// What a starting ceremony does first.
#[derive(Debug, Clone, Copy, PartialEq, Eq, Structural)]
pub enum StartupAction {
    /// An output already exists: load it and stop.
    LoadOutput,
    /// Clear the persisted state, then run the ceremony.
    ClearStateAndRun,
    /// Run the ceremony (resuming persisted state, if any).
    Run,
}

/// What a starting ceremony does first: an existing output is loaded; a
/// forced restart clears existing state.
pub fn startup_action(output_exists: bool, force_restart: bool, state_exists: bool) -> (a: StartupAction)
    ensures
        output_exists ==> a == StartupAction::LoadOutput,
        !output_exists && force_restart && state_exists ==> a == StartupAction::ClearStateAndRun,
        !output_exists && !(force_restart && state_exists) ==> a == StartupAction::Run,
{
    if output_exists {
        StartupAction::LoadOutput
    } else if force_restart && state_exists {
        StartupAction::ClearStateAndRun
    } else {
        StartupAction::Run
    }
}

/// The steps of the ceremony, in order.
#[derive(Debug, Clone, Copy, PartialEq, Eq, Structural)]
pub enum CeremonyStep {
    /// Phase 1: start the dealer, then record `DealerStarted`.
    StartDealer,
    /// Phase 2: record `CollectingMessages`, then collect dealer messages
    /// and send acks.
    CollectMessages,
    /// Phase 2.5: broadcast ready and wait for every participant.
    AwaitReady,
    /// Phase 3: finalize our dealer, then record `DealerFinalized`.
    FinalizeDealer,
    /// Phase 4: record `CollectingLogs`, then collect dealer logs.
    CollectLogs,
    /// Phase 5: finalize and produce the output.
    Finalize,
}

/// Whether a restored phase lies past the start of our dealer.
pub open spec fn skips_dealer_start(restored: Option<DkgPhase>) -> bool {
    restored matches Some(p) && (p == DkgPhase::DealerStarted || p == DkgPhase::CollectingMessages
        || p == DkgPhase::DealerFinalized || p == DkgPhase::CollectingLogs)
}

/// Whether a restored phase lies past the finalization of our dealer.
pub open spec fn skips_dealer_finalization(restored: Option<DkgPhase>) -> bool {
    restored matches Some(p) && (p == DkgPhase::DealerFinalized || p == DkgPhase::CollectingLogs)
}

/// The steps a ceremony runs, given the phase restored from disk.
pub open spec fn plan_spec(restored: Option<DkgPhase>) -> Seq<CeremonyStep> {
    (if skips_dealer_start(restored) {
        Seq::empty()
    } else {
        seq![CeremonyStep::StartDealer]
    }) + seq![CeremonyStep::CollectMessages] + (if skips_dealer_finalization(restored) {
        Seq::empty()
    } else {
        seq![CeremonyStep::AwaitReady, CeremonyStep::FinalizeDealer]
    }) + seq![CeremonyStep::CollectLogs, CeremonyStep::Finalize]
}

/// Where a restarted ceremony resumes: (skip starting the dealer, skip
/// finalizing it).
pub fn resume_point(restored: Option<DkgPhase>) -> (r: (bool, bool))
    ensures
        r.0 == skips_dealer_start(restored),
        r.1 == skips_dealer_finalization(restored),
{
    let skip_start = match restored {
        Some(DkgPhase::DealerStarted) | Some(DkgPhase::CollectingMessages) | Some(
            DkgPhase::DealerFinalized,
        ) | Some(DkgPhase::CollectingLogs) => true,
        _ => false,
    };
    let skip_finalize = match restored {
        Some(DkgPhase::DealerFinalized) | Some(DkgPhase::CollectingLogs) => true,
        _ => false,
    };
    (skip_start, skip_finalize)
}

/// The steps a ceremony runs, given the phase restored from disk.
pub fn ceremony_plan(restored: Option<DkgPhase>) -> (steps: Vec<CeremonyStep>)
    ensures
        steps@ == plan_spec(restored),
{
    let (skip_start, skip_finalize) = resume_point(restored);
    let mut steps: Vec<CeremonyStep> = Vec::new();
    if !skip_start {
        steps.push(CeremonyStep::StartDealer);
    }
    steps.push(CeremonyStep::CollectMessages);
    if !skip_finalize {
        steps.push(CeremonyStep::AwaitReady);
        steps.push(CeremonyStep::FinalizeDealer);
    }
    steps.push(CeremonyStep::CollectLogs);
    steps.push(CeremonyStep::Finalize);
    assert(steps@ =~= plan_spec(restored));
    steps
}

/// Every plan collects messages and logs and ends by finalizing; a dealer is
/// finalized only after the ready round.
pub proof fn lemma_plan_shape(restored: Option<DkgPhase>)
    ensures
        plan_spec(restored).contains(CeremonyStep::CollectMessages),
        plan_spec(restored).contains(CeremonyStep::CollectLogs),
        plan_spec(restored).last() == CeremonyStep::Finalize,
        forall|i: int|
            0 <= i < plan_spec(restored).len() && #[trigger] plan_spec(restored)[i]
                == CeremonyStep::FinalizeDealer
                ==> i > 0 && plan_spec(restored)[i - 1] == CeremonyStep::AwaitReady,
        skips_dealer_finalization(restored) ==> skips_dealer_start(restored),
{
    let p = plan_spec(restored);
    let a = if skips_dealer_start(restored) { 0int } else { 1int };
    assert(p[a] == CeremonyStep::CollectMessages);
    assert(p[p.len() - 2] == CeremonyStep::CollectLogs);
}

/// Phase 2 is complete once a quorum of dealer messages was received and as
/// many acks were sent.
pub fn phase2_complete(received: usize, acks_sent: usize, required: usize) -> (r: bool)
    ensures
        r == (received >= required && acks_sent >= required),
{
    received >= required && acks_sent >= required
}

/// Whether to ask the leader for dealer logs: only a non-leader that lacks
/// logs, knows a leader, and has not asked within the request interval.
pub fn should_request_logs(
    leader: bool,
    logs: usize,
    required: usize,
    since_last_request_ms: u64,
    has_leader_key: bool,
) -> (r: bool)
    ensures
        r == (!leader && logs < required && since_last_request_ms >= LOG_REQUEST_INTERVAL_MS
            && has_leader_key),
{
    !leader && logs < required && since_last_request_ms >= LOG_REQUEST_INTERVAL_MS && has_leader_key
}

/// The message of a ready round that timed out with `ready` of `total`
/// participants ready.
pub open spec fn ready_timeout_text(ready: usize, total: usize) -> Seq<char> {
    "Phase 2.5 timeout: only "@ + decimal(ready as nat) + "/"@ + decimal(total as nat) + " participants ready"@
}

/// The message of a log collection that timed out with `logs` of
/// `required` dealer logs.
pub open spec fn logs_timeout_text(logs: usize, required: usize) -> Seq<char> {
    "Phase 4 timeout: only collected "@ + decimal(logs as nat) + "/"@ + decimal(required as nat)
        + " dealer logs"@
}

/// The failure reported when the ready round times out.
pub fn ready_timeout_error(ready: usize, total: usize) -> (e: DkgError)
    ensures
        e matches DkgError::CeremonyFailed(m) && m@ == ready_timeout_text(ready, total),
{
    let mut m = String::from_str("Phase 2.5 timeout: only ");
    push_decimal(&mut m, ready as u128);
    push_str(&mut m, "/");
    push_decimal(&mut m, total as u128);
    push_str(&mut m, " participants ready");
    DkgError::CeremonyFailed(m)
}

/// The failure reported when log collection times out.
pub fn logs_timeout_error(logs: usize, required: usize) -> (e: DkgError)
    ensures
        e matches DkgError::CeremonyFailed(m) && m@ == logs_timeout_text(logs, required),
{
    let mut m = String::from_str("Phase 4 timeout: only collected ");
    push_decimal(&mut m, logs as u128);
    push_str(&mut m, "/");
    push_decimal(&mut m, required as u128);
    push_str(&mut m, " dealer logs");
    DkgError::CeremonyFailed(m)
}

/// How a step of the ceremony went.
#[derive(Debug, Clone)]
pub enum StepOutcome {
    /// The step's work succeeded, or its wait saw the phase complete.
    Succeeded,
    /// The step's wait passed its deadline with `progress` of the `needed`
    /// messages, ready signals or logs.
    TimedOut { progress: usize, needed: usize },
    /// The participant failed with this error.
    Failed(DkgError),
}

/// What the runner does after a step.
#[derive(Debug, Clone)]
pub enum StepVerdict {
    /// Go on with the next step.
    Continue,
    /// Record the completed phase, clear the persisted state, then save the
    /// output.
    Complete,
    /// Stop with `error`, after recording the failed phase and saving the
    /// state where `record_failure` says so.
    Stop { error: DkgError, record_failure: bool },
}

/// The phase recorded and saved before a step's work starts, if any.
pub fn phase_before(step: CeremonyStep) -> (p: Option<DkgPhase>)
    ensures
        p == match step {
            CeremonyStep::CollectMessages => Some(DkgPhase::CollectingMessages),
            CeremonyStep::CollectLogs => Some(DkgPhase::CollectingLogs),
            _ => None::<DkgPhase>,
        },
{
    match step {
        CeremonyStep::CollectMessages => Some(DkgPhase::CollectingMessages),
        CeremonyStep::CollectLogs => Some(DkgPhase::CollectingLogs),
        _ => None,
    }
}

/// The phase recorded and saved once a step's work succeeded, if any (the
/// log collection saves its phase again).
pub fn phase_after(step: CeremonyStep) -> (p: Option<DkgPhase>)
    ensures
        p == match step {
            CeremonyStep::StartDealer => Some(DkgPhase::DealerStarted),
            CeremonyStep::FinalizeDealer => Some(DkgPhase::DealerFinalized),
            CeremonyStep::CollectLogs => Some(DkgPhase::CollectingLogs),
            _ => None::<DkgPhase>,
        },
{
    match step {
        CeremonyStep::StartDealer => Some(DkgPhase::DealerStarted),
        CeremonyStep::FinalizeDealer => Some(DkgPhase::DealerFinalized),
        CeremonyStep::CollectLogs => Some(DkgPhase::CollectingLogs),
        _ => None,
    }
}

/// The decision after a step: a success goes on, and completes the
/// ceremony after finalizing; a failure of the participant stops the
/// ceremony with its error, recording the failed phase only when the final
/// step failed; a missed deadline stops it with the step's timeout error (a
/// plain timeout for the message collection, a ceremony failure naming the
/// progress for the ready round and the log collection).
pub fn step_verdict(step: CeremonyStep, outcome: StepOutcome) -> (v: StepVerdict)
    ensures
        match outcome {
            StepOutcome::Succeeded => if step == CeremonyStep::Finalize {
                v is Complete
            } else {
                v is Continue
            },
            StepOutcome::Failed(e) => v == (StepVerdict::Stop {
                error: e,
                record_failure: step == CeremonyStep::Finalize,
            }),
            StepOutcome::TimedOut { progress, needed } => match step {
                CeremonyStep::AwaitReady => v matches StepVerdict::Stop {
                    error: DkgError::CeremonyFailed(m),
                    record_failure: false,
                } && m@ == ready_timeout_text(progress, needed),
                CeremonyStep::CollectLogs => v matches StepVerdict::Stop {
                    error: DkgError::CeremonyFailed(m),
                    record_failure: false,
                } && m@ == logs_timeout_text(progress, needed),
                _ => v == (StepVerdict::Stop { error: DkgError::Timeout, record_failure: false }),
            },
        },
{
    match outcome {
        StepOutcome::Succeeded => match step {
            CeremonyStep::Finalize => StepVerdict::Complete,
            _ => StepVerdict::Continue,
        },
        StepOutcome::Failed(e) => {
            let record_failure = match step {
                CeremonyStep::Finalize => true,
                _ => false,
            };
            StepVerdict::Stop { error: e, record_failure }
        },
        StepOutcome::TimedOut { progress, needed } => match step {
            CeremonyStep::AwaitReady => StepVerdict::Stop {
                error: ready_timeout_error(progress, needed),
                record_failure: false,
            },
            CeremonyStep::CollectLogs => StepVerdict::Stop {
                error: logs_timeout_error(progress, needed),
                record_failure: false,
            },
            _ => StepVerdict::Stop { error: DkgError::Timeout, record_failure: false },
        },
    }
}

} // verus!
