//! The execution state machine: pull, then run, then report.
//!
//! The host performs the actions (processes, streams); the decisions —
//! whether to pull, what follows a finished step, which exit status the
//! launcher reports — are taken here.

use vstd::prelude::*;

use crate::LauncherError;

verus! {

/// Phase of one launcher run.
#[derive(Clone, Copy, PartialEq, Eq, Structural, Debug)]
pub enum Phase {
    Idle,
    Pulling,
    Running,
    Succeeded,
    Failed,
}

/// What the driver asks its host to do next.
#[derive(Clone, Copy, PartialEq, Eq, Structural, Debug)]
pub enum Action {
    /// Pull the image.
    Pull,
    /// Run the assembled command.
    Run,
    /// Report success and exit cleanly.
    ReportSuccess,
    /// Report the downstream failure and exit with the failure status.
    ReportFailure,
}

/// What the host reports back to the driver.
#[derive(Clone, Copy, PartialEq, Eq, Structural, Debug)]
pub enum Event {
    /// The run begins.
    Start,
    /// The pull step finished with this status code.
    PullFinished(i32),
    /// The main command finished with this status code.
    RunFinished(i32),
}

/// The transition relation: pulling is skipped when the no-pull variable
/// is set, a finished pull leads to the run whatever its outcome, and the
/// run's status decides between success and failure. Every other pairing
/// is a protocol violation and has no successor.
pub open spec fn spec_step(p: Phase, e: Event, skip_pull: bool) -> Option<(Phase, Action)> {
    match (p, e) {
        (Phase::Idle, Event::Start) => if skip_pull {
            Some((Phase::Running, Action::Run))
        } else {
            Some((Phase::Pulling, Action::Pull))
        },
        (Phase::Pulling, Event::PullFinished(_)) => Some((Phase::Running, Action::Run)),
        (Phase::Running, Event::RunFinished(c)) => if c == 0 {
            Some((Phase::Succeeded, Action::ReportSuccess))
        } else {
            Some((Phase::Failed, Action::ReportFailure))
        },
        _ => None,
    }
}

/// One transition of the execution state machine.
pub fn step(p: Phase, e: Event, skip_pull: bool) -> (r: Option<(Phase, Action)>)
    ensures
        r == spec_step(p, e, skip_pull),
{
    match (p, e) {
        (Phase::Idle, Event::Start) => if skip_pull {
            Some((Phase::Running, Action::Run))
        } else {
            Some((Phase::Pulling, Action::Pull))
        },
        (Phase::Pulling, Event::PullFinished(_)) => Some((Phase::Running, Action::Run)),
        (Phase::Running, Event::RunFinished(c)) => if c == 0 {
            Some((Phase::Succeeded, Action::ReportSuccess))
        } else {
            Some((Phase::Failed, Action::ReportFailure))
        },
        _ => None,
    }
}

/// Whether the image is pulled first: always, unless the no-pull variable
/// is set.
pub fn should_pull(nopull_env: Option<&str>) -> (r: bool)
    ensures
        r == (nopull_env is None),
{
    match nopull_env {
        None => true,
        Some(_) => false,
    }
}

/// A failed pull is advisory: it warrants a warning exactly when the pull
/// returned a non-zero status, and never stops the run.
pub fn pull_warning_needed(pull_status: i32) -> (r: bool)
    ensures
        r == (pull_status != 0),
{
    pull_status != 0
}

/// How one launcher run ends.
pub enum RunOutcome {
    /// The downstream tool returned zero.
    Success,
    /// The launcher stopped on its own error before or while resolving.
    Fatal(LauncherError),
    /// The downstream tool returned this non-zero status.
    DownstreamFailure(i32),
}

/// The launcher's own exit status for an outcome: zero for success, a
/// fixed usage status for the launcher's own errors, and a distinct fixed
/// failure status when the downstream tool failed.
pub open spec fn spec_exit_status(o: RunOutcome) -> int {
    match o {
        RunOutcome::Success => 0,
        RunOutcome::Fatal(_) => 2,
        RunOutcome::DownstreamFailure(_) => 1,
    }
}

/// Maps an outcome to the process exit status the launcher reports.
pub fn exit_status(o: &RunOutcome) -> (c: i32)
    ensures
        c as int == spec_exit_status(*o),
        c == 0 <==> o is Success,
{
    match o {
        RunOutcome::Success => 0,
        RunOutcome::Fatal(_) => 2,
        RunOutcome::DownstreamFailure(_) => 1,
    }
}

} // verus!
