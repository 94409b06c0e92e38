//! Placeholder consensus components for running simplex in development:
//! an automaton that proposes and accepts the zero digest, a relay and a
//! blocker that do nothing, and a reporter that only logs activities.

use vstd::prelude::*;

verus! {

/// The zero digest.
pub fn zero_digest() -> (d: [u8; 32])
    ensures
        forall|i: int| 0 <= i < 32 ==> d@[i] == 0,
{
    [0u8; 32]
}

/// Stub automaton: every genesis and proposal is the zero digest, and
/// every payload is accepted.
#[derive(Clone, Copy, Debug)]
pub struct StubAutomaton;

impl StubAutomaton {
    /// The genesis digest of any epoch.
    pub fn genesis(&mut self, epoch: u64) -> (d: [u8; 32])
        ensures
            forall|i: int| 0 <= i < 32 ==> d@[i] == 0,
    {
        zero_digest()
    }

    /// The digest proposed in any context.
    pub fn propose(&mut self) -> (d: [u8; 32])
        ensures
            forall|i: int| 0 <= i < 32 ==> d@[i] == 0,
    {
        zero_digest()
    }

    /// The verdict on any payload: accepted.
    pub fn verify(&mut self, payload: &[u8; 32]) -> (ok: bool)
        ensures
            ok,
    {
        true
    }
}

/// Stub relay: broadcasting does nothing.
#[derive(Clone, Copy, Debug)]
pub struct StubRelay;

impl StubRelay {
    /// Broadcasts a payload (nothing is sent).
    pub fn broadcast(&mut self, payload: &[u8; 32]) {
    }
}

/// Stub blocker: blocking a peer does nothing.
#[derive(Clone, Copy, Debug)]
pub struct StubBlocker;

impl StubBlocker {
    /// Blocks a peer (nothing happens).
    pub fn block(&mut self, peer: &[u8; 32]) {
    }
}

/// The kinds of consensus activity a reporter is told of.
#[derive(Clone, Copy, Debug, PartialEq, Eq, Structural)]
pub enum ActivityKind {
    Notarize,
    Notarization,
    Certification,
    Nullify,
    Nullification,
    Finalize,
    Finalization,
    ConflictingNotarize,
    ConflictingFinalize,
    NullifyFinalize,
}

/// The level an activity is logged at.
#[derive(Clone, Copy, Debug, PartialEq, Eq, Structural)]
pub enum LogLevel {
    Trace,
    Debug,
    Info,
    Warn,
}

/// How a stub reporter logs an activity: single votes at trace level,
/// certificates at debug level, finalizations at info level, and evidence
/// of misbehaviour as a warning.
pub open spec fn report_level_spec(kind: ActivityKind) -> LogLevel {
    match kind {
        ActivityKind::Notarize | ActivityKind::Nullify | ActivityKind::Finalize => LogLevel::Trace,
        ActivityKind::Notarization | ActivityKind::Certification | ActivityKind::Nullification => LogLevel::Debug,
        ActivityKind::Finalization => LogLevel::Info,
        ActivityKind::ConflictingNotarize | ActivityKind::ConflictingFinalize | ActivityKind::NullifyFinalize => LogLevel::Warn,
    }
}

/// The message an activity is logged with.
pub open spec fn report_message_spec(kind: ActivityKind) -> Seq<char> {
    match kind {
        ActivityKind::Notarize => "notarize vote"@,
        ActivityKind::Notarization => "notarization"@,
        ActivityKind::Certification => "certification"@,
        ActivityKind::Nullify => "nullify vote"@,
        ActivityKind::Nullification => "nullification"@,
        ActivityKind::Finalize => "finalize vote"@,
        ActivityKind::Finalization => "finalization"@,
        ActivityKind::ConflictingNotarize => "conflicting notarize detected"@,
        ActivityKind::ConflictingFinalize => "conflicting finalize detected"@,
        ActivityKind::NullifyFinalize => "nullify-finalize conflict detected"@,
    }
}

/// Stub reporter: logs each activity and does nothing else.
#[derive(Debug)]
pub struct StubReporter<S> {
    scheme: core::marker::PhantomData<S>,
}

impl<S> Default for StubReporter<S> {
    fn default() -> (r: Self) {
        StubReporter { scheme: core::marker::PhantomData }
    }
}

impl<S> StubReporter<S> {
    /// The level and message an activity is logged with.
    pub fn report(&mut self, kind: ActivityKind) -> (r: (LogLevel, &'static str))
        ensures
            r.0 == report_level_spec(kind),
            r.1@ == report_message_spec(kind),
    {
        match kind {
            ActivityKind::Notarize => (LogLevel::Trace, "notarize vote"),
            ActivityKind::Notarization => (LogLevel::Debug, "notarization"),
            ActivityKind::Certification => (LogLevel::Debug, "certification"),
            ActivityKind::Nullify => (LogLevel::Trace, "nullify vote"),
            ActivityKind::Nullification => (LogLevel::Debug, "nullification"),
            ActivityKind::Finalize => (LogLevel::Trace, "finalize vote"),
            ActivityKind::Finalization => (LogLevel::Info, "finalization"),
            ActivityKind::ConflictingNotarize => (LogLevel::Warn, "conflicting notarize detected"),
            ActivityKind::ConflictingFinalize => (LogLevel::Warn, "conflicting finalize detected"),
            ActivityKind::NullifyFinalize => (LogLevel::Warn, "nullify-finalize conflict detected"),
        }
    }
}

} // verus!
