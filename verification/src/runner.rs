//! What to make of an invocation of the engine: of one that ran to its end,
//! and of one that is waited for under a bound.

use crate::config::FFMPEG_TIMEOUT_SECS;
use crate::error::{
    engine_failure, failure, result_view, spawn_failure, ErrorKind, ErrorView, ExportError, Stage,
};
use crate::text::{decimal, push_decimal};
use vstd::prelude::*;
use vstd::string::*;

verus! {

/// How an invocation that was waited for to its end came out.
#[derive(Clone, Debug, PartialEq, Eq)]
pub enum ProcessOutcome {
    /// The process ran and ended: its exit code, where it has one, and what
    /// it wrote to its two streams.
    Exited { code: Option<i32>, stdout: String, stderr: String },
    /// The process could not be started.
    SpawnFailed { reason: String },
}

/// A `ProcessOutcome` with its texts as sequences of characters.
pub enum OutcomeView {
    Exited { code: Option<i32>, stdout: Seq<char>, stderr: Seq<char> },
    SpawnFailed { reason: Seq<char> },
}

impl View for ProcessOutcome {
    type V = OutcomeView;

    open spec fn view(&self) -> OutcomeView {
        match self {
            ProcessOutcome::Exited { code, stdout, stderr } => OutcomeView::Exited {
                code: *code,
                stdout: stdout@,
                stderr: stderr@,
            },
            ProcessOutcome::SpawnFailed { reason } => OutcomeView::SpawnFailed { reason: reason@ },
        }
    }
}

/// The outcome is a success: the process ran and ended with exit code 0.
pub open spec fn succeeded(outcome: OutcomeView) -> bool {
    outcome matches OutcomeView::Exited { code, .. } && code == Some(0i32)
}

/// What an invocation in `stage` amounts to. Exit code 0 is the only success.
/// Any other code, and the lack of one, is the engine's failure, reported with
/// what it wrote to its error stream; a process that did not start is reported
/// with the reason.
pub open spec fn exit_result(stage: Stage, outcome: OutcomeView) -> Result<i32, ErrorView> {
    match outcome {
        OutcomeView::Exited { code, stdout, stderr } => if code == Some(0i32) {
            Ok(0i32)
        } else {
            Err(engine_failure(stage, stderr))
        },
        OutcomeView::SpawnFailed { reason } => Err(spawn_failure(stage, reason)),
    }
}

/// What an invocation in `stage` amounts to.
pub fn check_exit(stage: Stage, outcome: &ProcessOutcome) -> (r: Result<i32, ExportError>)
    ensures
        result_view(r) == exit_result(stage, outcome@),
        r is Ok <==> succeeded(outcome@),
{
    match outcome {
        ProcessOutcome::Exited { code, stdout, stderr } => {
            match code {
                Some(0) => Ok(0),
                _ => Err(ExportError::engine_failure(stage, stderr.as_str())),
            }
        },
        ProcessOutcome::SpawnFailed { reason } => Err(
            ExportError::spawn_failure(stage, reason.as_str()),
        ),
    }
}

/// The bound on an invocation and the pause between two looks at it.
#[derive(Clone, Copy, Debug, PartialEq, Eq, Structural)]
pub struct TimeoutPolicy {
    pub timeout_secs: u64,
    pub poll_millis: u64,
}

/// The pause between two looks at a running process, in milliseconds.
pub const POLL_MILLIS: u64 = 100;

/// What a look at a process under a bound found.
#[derive(Clone, Debug, PartialEq, Eq)]
pub enum WaitStatus {
    /// The process could not be started.
    SpawnFailed { reason: String },
    /// The process has ended: its exit code, where it has one, and what it
    /// wrote to its error stream.
    Exited { code: Option<i32>, stderr: String },
    /// The process is still running.
    Running,
    /// The look itself failed.
    Failed { reason: String },
}

/// A `WaitStatus` with its texts as sequences of characters.
pub enum WaitStatusView {
    SpawnFailed { reason: Seq<char> },
    Exited { code: Option<i32>, stderr: Seq<char> },
    Running,
    Failed { reason: Seq<char> },
}

impl View for WaitStatus {
    type V = WaitStatusView;

    open spec fn view(&self) -> WaitStatusView {
        match self {
            WaitStatus::SpawnFailed { reason } => WaitStatusView::SpawnFailed { reason: reason@ },
            WaitStatus::Exited { code, stderr } => WaitStatusView::Exited {
                code: *code,
                stderr: stderr@,
            },
            WaitStatus::Running => WaitStatusView::Running,
            WaitStatus::Failed { reason } => WaitStatusView::Failed { reason: reason@ },
        }
    }
}

/// What to do after a look at a process under a bound.
#[derive(Debug, PartialEq, Eq)]
pub enum WaitDecision {
    /// The wait is over, with this result.
    Finish(Result<i32, ExportError>),
    /// The bound is exceeded: end the process, reap it, and report this error.
    Kill(ExportError),
    /// Pause for so many milliseconds, then look again.
    Sleep { millis: u64 },
}

/// A `WaitDecision` with its texts as sequences of characters.
pub enum WaitDecisionView {
    Finish(Result<i32, ErrorView>),
    Kill(ErrorView),
    Sleep { millis: u64 },
}

impl View for WaitDecision {
    type V = WaitDecisionView;

    open spec fn view(&self) -> WaitDecisionView {
        match self {
            WaitDecision::Finish(r) => WaitDecisionView::Finish(result_view(*r)),
            WaitDecision::Kill(e) => WaitDecisionView::Kill(e@),
            WaitDecision::Sleep { millis } => WaitDecisionView::Sleep { millis: *millis },
        }
    }
}

/// The bound of `timeout_secs` seconds is exceeded after `elapsed_nanos` nanoseconds.
pub open spec fn out_of_time(timeout_secs: u64, elapsed_nanos: u128) -> bool {
    elapsed_nanos > timeout_secs * 1_000_000_000
}

/// The failure reported when the bound of `timeout_secs` seconds is exceeded.
pub open spec fn timeout_failure(timeout_secs: u64) -> ErrorView {
    ErrorView {
        kind: ErrorKind::Timeout,
        message: "FFmpeg operation timed out after "@ + decimal(timeout_secs as nat) + " seconds"@,
    }
}

/// What to do after a look at a process that has run for `elapsed_nanos`
/// nanoseconds. A process that has ended ends the wait: with success on exit
/// code 0, else with the engine's failure and what it wrote to its error
/// stream, as it came. A process that still runs is ended once the bound is
/// exceeded, and looked at again after a pause before that.
pub open spec fn wait_decision(
    policy: TimeoutPolicy,
    elapsed_nanos: u128,
    status: WaitStatusView,
) -> WaitDecisionView {
    match status {
        WaitStatusView::SpawnFailed { reason } => WaitDecisionView::Finish(
            Err(failure(ErrorKind::Invocation, "Failed to spawn FFmpeg: "@, reason)),
        ),
        WaitStatusView::Exited { code, stderr } => if code == Some(0i32) {
            WaitDecisionView::Finish(Ok(0i32))
        } else {
            WaitDecisionView::Finish(Err(engine_failure(Stage::Engine, stderr)))
        },
        WaitStatusView::Running => if out_of_time(policy.timeout_secs, elapsed_nanos) {
            WaitDecisionView::Kill(timeout_failure(policy.timeout_secs))
        } else {
            WaitDecisionView::Sleep { millis: policy.poll_millis }
        },
        WaitStatusView::Failed { reason } => WaitDecisionView::Finish(
            Err(failure(ErrorKind::Invocation, "Failed to wait for FFmpeg: "@, reason)),
        ),
    }
}

/// A process that ended under a bound is judged as one that was waited for
/// to its end: success on exit code 0 alone, else the engine's failure with
/// its error stream as it came. An ended process is never ended again.
pub proof fn law_bounded_wait_judges_alike(
    policy: TimeoutPolicy,
    elapsed_nanos: u128,
    code: Option<i32>,
    stdout: Seq<char>,
    stderr: Seq<char>,
)
    ensures
        wait_decision(policy, elapsed_nanos, WaitStatusView::Exited { code, stderr })
            == WaitDecisionView::Finish(
            exit_result(Stage::Engine, OutcomeView::Exited { code, stdout, stderr }),
        ),
{
}

/// Once the bound is exceeded, a process that still runs is ended: the wait
/// never pauses again. And no pause is longer than the policy's.
pub proof fn law_wait_is_bounded(
    policy: TimeoutPolicy,
    elapsed_nanos: u128,
    status: WaitStatusView,
)
    ensures
        out_of_time(policy.timeout_secs, elapsed_nanos) ==> !(wait_decision(
            policy,
            elapsed_nanos,
            status,
        ) is Sleep),
        wait_decision(policy, elapsed_nanos, status) matches WaitDecisionView::Sleep { millis }
            ==> millis == policy.poll_millis && status is Running,
        wait_decision(policy, elapsed_nanos, status) is Kill ==> status is Running && out_of_time(
            policy.timeout_secs,
            elapsed_nanos,
        ),
{
}

impl TimeoutPolicy {
    /// The policy for a bound of `timeout_secs` seconds, or of the default
    /// where none is given, with the usual pause between looks.
    pub fn new(timeout_secs: Option<u64>) -> (policy: TimeoutPolicy)
        ensures
            policy.timeout_secs == match timeout_secs {
                Some(secs) => secs,
                None => FFMPEG_TIMEOUT_SECS,
            },
            policy.poll_millis == POLL_MILLIS,
    {
        let timeout_secs = match timeout_secs {
            Some(secs) => secs,
            None => FFMPEG_TIMEOUT_SECS,
        };
        TimeoutPolicy { timeout_secs, poll_millis: POLL_MILLIS }
    }

    /// What to do after a look at a process that has run for `elapsed_nanos`
    /// nanoseconds.
    pub fn decide(&self, elapsed_nanos: u128, status: &WaitStatus) -> (decision: WaitDecision)
        ensures
            decision@ == wait_decision(*self, elapsed_nanos, status@),
    {
        match status {
            WaitStatus::SpawnFailed { reason } => WaitDecision::Finish(
                Err(
                    ExportError::new(
                        ErrorKind::Invocation,
                        "Failed to spawn FFmpeg: ",
                        reason.as_str(),
                    ),
                ),
            ),
            WaitStatus::Exited { code, stderr } => {
                match code {
                    Some(0) => WaitDecision::Finish(Ok(0)),
                    _ => WaitDecision::Finish(
                        Err(ExportError::engine_failure(Stage::Engine, stderr.as_str())),
                    ),
                }
            },
            WaitStatus::Running => {
                if elapsed_nanos > self.timeout_secs as u128 * 1_000_000_000 {
                    let mut message = String::from_str("FFmpeg operation timed out after ");
                    push_decimal(&mut message, self.timeout_secs);
                    message.append(" seconds");
                    WaitDecision::Kill(ExportError { kind: ErrorKind::Timeout, message })
                } else {
                    WaitDecision::Sleep { millis: self.poll_millis }
                }
            },
            WaitStatus::Failed { reason } => WaitDecision::Finish(
                Err(
                    ExportError::new(
                        ErrorKind::Invocation,
                        "Failed to wait for FFmpeg: ",
                        reason.as_str(),
                    ),
                ),
            ),
        }
    }
}

} // verus!
