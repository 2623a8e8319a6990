//! Single-instance enforcement: what a liveness probe against the
//! well-known endpoint says about a prior instance, and what to make of the
//! attempt to remove a stale endpoint.

use vstd::prelude::*;
use crate::error::{Containment, ErrorKind};

verus! {

/// What happened when the well-known endpoint was probed.
#[derive(Clone, Copy, Debug, PartialEq, Eq, Structural)]
pub enum ProbeOutcome {
    /// Nothing exists at the endpoint's address.
    EndpointAbsent,
    /// Something exists at the address, but no connection could be made:
    /// the artifact of a process that is gone.
    Unreachable,
    /// A connection was made, but the probe was never answered.
    NoReply,
    /// The peer answered the probe.
    Replied,
    /// The peer answered the probe with an error.
    RepliedWithError,
}

/// What a probe says about a prior instance.
#[derive(Clone, Copy, Debug, PartialEq, Eq, Structural)]
pub enum InstanceStatus {
    /// A live instance answered.
    Running,
    /// No endpoint, hence no instance.
    NotRunning,
    /// An endpoint without a live peer behind it: safe to proceed.
    Indeterminate,
}

/// What happened when the stale endpoint was removed.
#[derive(Clone, Copy, Debug, PartialEq, Eq, Structural)]
pub enum RemovalOutcome {
    /// The artifact was removed.
    Removed,
    /// There was nothing to remove.
    NotFound,
    /// The removal failed for another reason.
    Failed,
}

/// The status that a probe outcome stands for. Any answer, even an error,
/// comes from a live instance; the existence of an endpoint alone proves
/// nothing.
pub open spec fn status_of(outcome: ProbeOutcome) -> InstanceStatus {
    match outcome {
        ProbeOutcome::Replied => InstanceStatus::Running,
        ProbeOutcome::RepliedWithError => InstanceStatus::Running,
        ProbeOutcome::EndpointAbsent => InstanceStatus::NotRunning,
        ProbeOutcome::Unreachable => InstanceStatus::Indeterminate,
        ProbeOutcome::NoReply => InstanceStatus::Indeterminate,
    }
}

/// Whether a probe outcome shows a live instance.
pub open spec fn is_live(outcome: ProbeOutcome) -> bool {
    outcome == ProbeOutcome::Replied || outcome == ProbeOutcome::RepliedWithError
}

/// Whether a probe outcome leaves an artifact that has to go before the
/// endpoint is bound again.
pub open spec fn is_stale(outcome: ProbeOutcome) -> bool {
    outcome == ProbeOutcome::Unreachable || outcome == ProbeOutcome::NoReply
}

/// The failure that a removal outcome amounts to, if any. A missing file is
/// no failure.
pub open spec fn cleanup_failure(outcome: RemovalOutcome) -> Option<ErrorKind> {
    if outcome == RemovalOutcome::Failed {
        Some(ErrorKind::CleanupFailure)
    } else {
        None
    }
}

/// Classifies the outcome of a liveness probe.
pub fn classify_probe(outcome: ProbeOutcome) -> (status: InstanceStatus)
    ensures
        status == status_of(outcome),
        status == InstanceStatus::Running <==> is_live(outcome),
        status == InstanceStatus::Indeterminate <==> is_stale(outcome),
{
    match outcome {
        ProbeOutcome::Replied | ProbeOutcome::RepliedWithError => InstanceStatus::Running,
        ProbeOutcome::EndpointAbsent => InstanceStatus::NotRunning,
        ProbeOutcome::Unreachable | ProbeOutcome::NoReply => InstanceStatus::Indeterminate,
    }
}

/// Whether another instance is running, as far as the probe can tell.
pub fn check_running(outcome: ProbeOutcome) -> (running: bool)
    ensures
        running == is_live(outcome),
        running <==> status_of(outcome) == InstanceStatus::Running,
{
    classify_probe(outcome) == InstanceStatus::Running
}

/// The outcome of the guard: the failure that aborts startup when a live
/// instance answered, nothing otherwise.
pub fn guard(outcome: ProbeOutcome) -> (verdict: Result<InstanceStatus, ErrorKind>)
    ensures
        is_live(outcome) <==> verdict == Err::<InstanceStatus, ErrorKind>(
            ErrorKind::AlreadyRunning,
        ),
        !is_live(outcome) <==> verdict == Ok::<InstanceStatus, ErrorKind>(status_of(outcome)),
{
    let status = classify_probe(outcome);
    if status == InstanceStatus::Running {
        Err(ErrorKind::AlreadyRunning)
    } else {
        Ok(status)
    }
}

/// What to report after the attempt to remove a stale endpoint. Nothing
/// here stops startup: binding the endpoint is the check that counts.
pub fn review_cleanup(outcome: RemovalOutcome) -> (report: Option<ErrorKind>)
    ensures
        report == cleanup_failure(outcome),
        report.is_some() ==> report.unwrap().spec_containment() != Containment::Fatal,
{
    match outcome {
        RemovalOutcome::Removed | RemovalOutcome::NotFound => None,
        RemovalOutcome::Failed => Some(ErrorKind::CleanupFailure),
    }
}

} // verus!
