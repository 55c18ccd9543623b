// Unit tests for the analyzer module

use repeat::analyzer::{AnalysisTracker, RunRecord, RunStatus, MAX_DURATION_NANOS};
use std::time::Duration;

// Helper function to create a basic RunRecord
fn create_record(status: RunStatus, code: Option<i32>, ms: u64) -> RunRecord {
    RunRecord {
        status,
        exit_code: code,
        duration: Duration::from_millis(ms).as_nanos(),
        stdout: String::new(),
        stderr: String::new(),
    }
}

fn nanos(d: Duration) -> u128 {
    d.as_nanos()
}

#[test]
fn new_tracker_is_empty() {
    let tracker = AnalysisTracker::new(false);
    assert_eq!(tracker.total_runs, 0);
    assert_eq!(tracker.timeout_runs, 0);
    assert_eq!(tracker.total_duration, nanos(Duration::ZERO));
    assert_eq!(tracker.max_run_duration, nanos(Duration::ZERO));
    assert!(tracker.min_run_duration > nanos(Duration::ZERO)); // Should be MAX, which is greater than ZERO
    assert!(tracker.exit_code_counts.is_empty());
}

#[test]
fn record_successful_run() {
    let mut tracker = AnalysisTracker::new(false);
    let record = create_record(RunStatus::Completed, Some(0), 100);
    tracker.record(&record);

    assert_eq!(tracker.total_runs, 1);
    assert_eq!(tracker.timeout_runs, 0);
    assert_eq!(tracker.total_completed_duration, nanos(Duration::from_millis(100)));
    assert_eq!(tracker.min_run_duration, nanos(Duration::from_millis(100)));
    assert_eq!(tracker.max_run_duration, nanos(Duration::from_millis(100)));
    assert_eq!(*tracker.exit_code_counts.get(&0).unwrap_or(&0), 1);
}

#[test]
fn record_failing_and_killed_runs() {
    let mut tracker = AnalysisTracker::new(false);
    let fail_record = create_record(RunStatus::Completed, Some(1), 50);
    let killed_record = create_record(RunStatus::Killed, Some(137), 200);

    tracker.record(&fail_record);
    tracker.record(&killed_record);

    assert_eq!(tracker.total_runs, 2);
    assert_eq!(tracker.timeout_runs, 0);
    assert_eq!(*tracker.exit_code_counts.get(&1).unwrap_or(&0), 1);
    assert_eq!(*tracker.exit_code_counts.get(&137).unwrap_or(&0), 1);
    assert_eq!(tracker.total_completed_duration, nanos(Duration::from_millis(250)));
    assert_eq!(tracker.min_run_duration, nanos(Duration::from_millis(50)));
    assert_eq!(tracker.max_run_duration, nanos(Duration::from_millis(200)));
}

#[test]
fn record_timeout_run() {
    let mut tracker = AnalysisTracker::new(false);
    let record = create_record(RunStatus::Timeout, None, 500); // Timeout doesn't have an exit code
    tracker.record(&record);

    assert_eq!(tracker.total_runs, 1);
    assert_eq!(tracker.timeout_runs, 1);
    assert!(tracker.exit_code_counts.is_empty());
}

#[test]
fn record_mixed_runs_and_check_metrics() {
    let mut tracker = AnalysisTracker::new(false);

    tracker.record(&create_record(RunStatus::Completed, Some(0), 200));
    tracker.record(&create_record(RunStatus::Completed, Some(1), 300));
    tracker.record(&create_record(RunStatus::Timeout, None, 50));
    tracker.record(&create_record(RunStatus::Completed, Some(0), 100)); // New min

    assert_eq!(tracker.total_runs, 4);
    assert_eq!(tracker.timeout_runs, 1);
    assert_eq!(tracker.total_completed_duration, nanos(Duration::from_millis(650)));
    assert_eq!(tracker.min_run_duration, nanos(Duration::from_millis(50)));
    assert_eq!(tracker.max_run_duration, nanos(Duration::from_millis(300)));
    assert_eq!(*tracker.exit_code_counts.get(&0).unwrap_or(&0), 2);
    assert_eq!(*tracker.exit_code_counts.get(&1).unwrap_or(&0), 1);
}

// The session time is stored when the report is made; printing it is the
// program's part.
#[test]
fn report_does_not_panic() {
    let mut tracker = AnalysisTracker::new(false);
    tracker.record(&create_record(RunStatus::Completed, Some(0), 10));
    tracker.finish(nanos(Duration::from_millis(12)));
    assert_eq!(tracker.total_duration, nanos(Duration::from_millis(12)));
    assert_eq!(tracker.total_runs, 1);
}

#[test]
fn new_tracker_starts_at_the_largest_duration() {
    let tracker = AnalysisTracker::new(true);
    assert!(tracker.verbose);
    assert_eq!(tracker.min_run_duration, Duration::MAX.as_nanos());
    assert_eq!(MAX_DURATION_NANOS, Duration::MAX.as_nanos());
}

#[test]
fn timed_out_run_with_code_is_not_counted_under_it() {
    let mut tracker = AnalysisTracker::new(false);
    tracker.record(&create_record(RunStatus::Timeout, Some(3), 10));
    assert_eq!(tracker.timeout_runs, 1);
    assert!(tracker.exit_code_counts.get(&3).is_none());
}

#[test]
fn completed_run_without_code_counts_only_as_a_run() {
    let mut tracker = AnalysisTracker::new(false);
    tracker.record(&create_record(RunStatus::Completed, None, 10));
    assert_eq!(tracker.total_runs, 1);
    assert_eq!(tracker.timeout_runs, 0);
    assert!(tracker.exit_code_counts.is_empty());
    assert_eq!(tracker.total_completed_duration, nanos(Duration::from_millis(10)));
}

// The statistics do not depend on the order in which runs are recorded.
#[test]
fn recording_order_does_not_matter() {
    let a = || create_record(RunStatus::Completed, Some(2), 70);
    let b = || create_record(RunStatus::Timeout, None, 30);
    let mut first = AnalysisTracker::new(false);
    first.record(&a());
    first.record(&b());
    let mut second = AnalysisTracker::new(false);
    second.record(&b());
    second.record(&a());
    assert_eq!(first.total_runs, second.total_runs);
    assert_eq!(first.timeout_runs, second.timeout_runs);
    assert_eq!(first.total_completed_duration, second.total_completed_duration);
    assert_eq!(first.min_run_duration, second.min_run_duration);
    assert_eq!(first.max_run_duration, second.max_run_duration);
    assert_eq!(first.exit_code_counts, second.exit_code_counts);
}

// After a sequence of runs the tracker holds their count, the timeouts, the
// runs under each code, the summed duration and the extreme durations.
#[test]
fn tracker_summarises_a_sequence_of_runs() {
    let mut tracker = AnalysisTracker::new(false);
    let runs = [
        (RunStatus::Completed, Some(0), 5u64),
        (RunStatus::Killed, Some(9), 40),
        (RunStatus::Timeout, None, 100),
        (RunStatus::Completed, Some(0), 1),
        (RunStatus::Completed, None, 7),
    ];
    for (status, code, ms) in runs.iter() {
        tracker.record(&create_record(*status, *code, *ms));
    }
    assert_eq!(tracker.total_runs, 5);
    assert_eq!(tracker.timeout_runs, 1);
    assert_eq!(tracker.exit_code_counts.len(), 2);
    assert_eq!(tracker.exit_code_counts[&0], 2);
    assert_eq!(tracker.exit_code_counts[&9], 1);
    assert_eq!(tracker.total_completed_duration, nanos(Duration::from_millis(153)));
    assert_eq!(tracker.min_run_duration, nanos(Duration::from_millis(1)));
    assert_eq!(tracker.max_run_duration, nanos(Duration::from_millis(100)));
    // Every run is accounted for once: one timeout, three runs under exit
    // codes, one run that finished without a code.
    let counted: u64 = tracker.exit_code_counts.values().sum();
    assert_eq!(tracker.total_runs, tracker.timeout_runs + counted + 1);
}
