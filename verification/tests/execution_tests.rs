// Unit tests for the execution module: the record that each outcome of a
// timed run leaves. `echo hello` exits 0 after writing "hello\n".

use repeat::analyzer::RunStatus;
use repeat::execution::{record_for_outcome, CommandOutcome, ExecutionResult};

fn echo_hello() -> CommandOutcome {
    CommandOutcome::Exited {
        code: Some(0),
        stdout: b"hello\n".to_vec(),
        stderr: Vec::new(),
    }
}

#[test]
fn execution_test_command_execution_output_match_success() {
    let record = record_for_outcome(echo_hello(), 1_000_000);
    assert_eq!(record.status, RunStatus::Completed);
    assert_eq!(record.exit_code, Some(0));
    assert_eq!(record.stdout, "hello\n");
}

#[test]
fn execution_tests_test_command_execution_output_match_success() {
    let record = record_for_outcome(echo_hello(), 1_000_000);
    assert_eq!(record.status, RunStatus::Completed);
    assert_eq!(record.exit_code, Some(0));
    assert_eq!(record.stdout, "hello\n");
}

#[test]
fn spawn_failure_is_recorded_as_completed_without_code() {
    let record = record_for_outcome(
        CommandOutcome::SpawnFailed("No such file or directory (os error 2)".to_string()),
        42,
    );
    assert_eq!(record.status, RunStatus::Completed);
    assert_eq!(record.exit_code, None);
    assert_eq!(record.duration, 42);
    assert_eq!(record.stdout, "");
    assert_eq!(
        record.stderr,
        "Failed to spawn command: No such file or directory (os error 2)"
    );
}

#[test]
fn wait_failure_is_recorded_as_io_error() {
    let record = record_for_outcome(CommandOutcome::WaitFailed("broken pipe".to_string()), 7);
    assert_eq!(record.status, RunStatus::Completed);
    assert_eq!(record.exit_code, None);
    assert_eq!(record.stderr, "IO error: broken pipe");
}

#[test]
fn timeout_is_recorded_as_timeout() {
    let record = record_for_outcome(CommandOutcome::TimedOut, 1_000_000_000);
    assert_eq!(record.status, RunStatus::Timeout);
    assert_eq!(record.exit_code, None);
    assert_eq!(record.duration, 1_000_000_000);
    assert_eq!(record.stdout, "");
    assert_eq!(record.stderr, "Process terminated due to timeout.");
}

#[test]
fn invalid_output_bytes_are_replaced() {
    let record = record_for_outcome(
        CommandOutcome::Exited {
            code: None,
            stdout: vec![b'o', b'k', 0xff],
            stderr: vec![0xc3, 0xa9],
        },
        3,
    );
    assert_eq!(record.exit_code, None);
    assert_eq!(record.stdout, "ok\u{FFFD}");
    assert_eq!(record.stderr, "é");
}

#[test]
fn execution_results_compare() {
    assert_eq!(ExecutionResult::Success, ExecutionResult::Success);
    assert_ne!(ExecutionResult::Timeout, ExecutionResult::Failure);
}
