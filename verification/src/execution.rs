use crate::analyzer::{RunRecord, RunStatus};
use std::time::Duration;
use vstd::prelude::*;
use vstd::string::*;
use vstd::utf8::{decode_utf8, valid_utf8};

verus! {

/// The coarse result of an execution.
#[derive(Debug, Clone, Copy, PartialEq, Eq, Structural)]
pub enum ExecutionResult {
    Success,
    Timeout,
    Failure,
}

/// A piece of work that must finish within `timeout`.
pub struct TimedFunctionExecution<F> {
    pub timeout: Duration,
    pub executor: F,
}

/// What became of one attempt to run the command, as the process layer
/// observed it.
pub enum CommandOutcome {
    /// The process could not be started; the text describes the error.
    SpawnFailed(String),
    /// Waiting for the process failed; the text describes the error.
    WaitFailed(String),
    /// The process did not finish within the time allowed for one run.
    TimedOut,
    /// The process finished with this exit code (none when a signal ended
    /// it) and wrote these bytes to its standard output and error.
    Exited { code: Option<i32>, stdout: Vec<u8>, stderr: Vec<u8> },
}

/// The text that `String::from_utf8_lossy` makes of a byte string.
pub uninterp spec fn utf8_lossy(bytes: Seq<u8>) -> Seq<char>;

/// Decodes process output with `String::from_utf8_lossy`. Its documentation
/// says that valid UTF-8 is decoded as it stands; invalid sequences are
/// replaced by U+FFFD, which is left to the name `utf8_lossy`.
#[verifier::external_body]
fn decode_output(bytes: &[u8]) -> (text: String)
    ensures
        text@ == utf8_lossy(bytes@),
        valid_utf8(bytes@) ==> text@ == decode_utf8(bytes@),
{
    String::from_utf8_lossy(bytes).into_owned()
}

/// The message recorded on standard error when a run is cut off.
pub open spec fn timeout_message() -> Seq<char> {
    "Process terminated due to timeout."@
}

/// The record that a run with this outcome leaves, `elapsed` nanoseconds
/// after it started.
pub open spec fn spec_record_for(outcome: CommandOutcome, elapsed: u128) -> (
    RunStatus,
    Option<i32>,
    nat,
    Seq<char>,
    Seq<char>,
) {
    match outcome {
        CommandOutcome::SpawnFailed(e) => (
            RunStatus::Completed,
            None,
            elapsed as nat,
            Seq::empty(),
            "Failed to spawn command: "@ + e@,
        ),
        CommandOutcome::WaitFailed(e) => (
            RunStatus::Completed,
            None,
            elapsed as nat,
            Seq::empty(),
            "IO error: "@ + e@,
        ),
        CommandOutcome::TimedOut => (
            RunStatus::Timeout,
            None,
            elapsed as nat,
            Seq::empty(),
            timeout_message(),
        ),
        CommandOutcome::Exited { code, stdout, stderr } => (
            RunStatus::Completed,
            code,
            elapsed as nat,
            utf8_lossy(stdout@),
            utf8_lossy(stderr@),
        ),
    }
}

/// Only a run that was cut off is recorded as a timeout; a run that exited
/// is recorded as completed with its own exit code, whatever that code is;
/// a run that could not be started or waited for has no exit code; and every
/// record keeps the elapsed time.
pub proof fn lemma_record_status_follows_outcome(outcome: CommandOutcome, elapsed: u128)
    ensures
        spec_record_for(outcome, elapsed).0 == RunStatus::Timeout <==> outcome is TimedOut,
        outcome matches CommandOutcome::Exited { code, .. } ==> spec_record_for(outcome, elapsed).0
            == RunStatus::Completed && spec_record_for(outcome, elapsed).1 == code,
        !(outcome is Exited) ==> spec_record_for(outcome, elapsed).1 is None,
        spec_record_for(outcome, elapsed).2 == elapsed,
        spec_record_for(outcome, elapsed).0 != RunStatus::Killed,
{
}

/// Turns the outcome of a timed run into its record: a run that could not
/// be started or waited for counts as completed without an exit code and
/// keeps the error on standard error; a run that was cut off counts as a
/// timeout; a finished run keeps its exit code and its decoded output,
/// which is the output itself wherever it is valid UTF-8.
pub fn record_for_outcome(outcome: CommandOutcome, elapsed: u128) -> (record: RunRecord)
    ensures
        (record.status, record.exit_code, record@.duration, record@.stdout, record@.stderr)
            == spec_record_for(outcome, elapsed),
        outcome matches CommandOutcome::Exited { stdout, .. } ==> (valid_utf8(stdout@)
            ==> record@.stdout == decode_utf8(stdout@)),
        outcome matches CommandOutcome::Exited { stderr, .. } ==> (valid_utf8(stderr@)
            ==> record@.stderr == decode_utf8(stderr@)),
{
    match outcome {
        CommandOutcome::SpawnFailed(e) => {
            let mut stderr = "Failed to spawn command: ".to_owned();
            stderr.append(e.as_str());
            RunRecord {
                status: RunStatus::Completed,
                exit_code: None,
                duration: elapsed,
                stdout: String::new(),
                stderr,
            }
        },
        CommandOutcome::WaitFailed(e) => {
            let mut stderr = "IO error: ".to_owned();
            stderr.append(e.as_str());
            RunRecord {
                status: RunStatus::Completed,
                exit_code: None,
                duration: elapsed,
                stdout: String::new(),
                stderr,
            }
        },
        CommandOutcome::TimedOut => RunRecord {
            status: RunStatus::Timeout,
            exit_code: None,
            duration: elapsed,
            stdout: String::new(),
            stderr: "Process terminated due to timeout.".to_owned(),
        },
        CommandOutcome::Exited { code, stdout, stderr } => RunRecord {
            status: RunStatus::Completed,
            exit_code: code,
            duration: elapsed,
            stdout: decode_output(stdout.as_slice()),
            stderr: decode_output(stderr.as_slice()),
        },
    }
}

} // verus!
