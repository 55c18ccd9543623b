// Tests of the execution loop: the loop is fed pre-determined results and
// the executions it asks for are counted.

use repeat::analyzer::{RunRecord, RunStatus};
use repeat::config::CliConfig;
use repeat::delay::Delay;
use repeat::schedule::{ExecutionLoop, LoopAction, LoopEvent, Phase, StopReason};

fn ok(exit_code: Option<i32>, stdout: &str) -> Result<RunRecord, String> {
    Ok(RunRecord {
        status: RunStatus::Completed,
        exit_code,
        duration: 0,
        stdout: stdout.to_string(),
        stderr: String::new(),
    })
}

// Helper to create the test config with minimal fields
fn create_config(iterations: u64, exit_code: Option<i32>) -> CliConfig {
    CliConfig {
        iterations,
        exit_code,
        ..Default::default()
    }
}

// Drives the loop; each requested execution takes the next result, and a
// result that is missing counts as a failed execution. Returns how many
// executions were requested and why the loop stopped.
fn run_mocked_loop(config: &CliConfig, results: Vec<Result<RunRecord, String>>) -> (usize, StopReason) {
    let mut results = results.into_iter();
    let mut calls = 0;
    let mut control = ExecutionLoop::new(config);
    let mut action = control.step(config, &LoopEvent::Started);
    loop {
        match action {
            LoopAction::Sleep(_) => action = control.step(config, &LoopEvent::SleepFinished),
            LoopAction::RunCommand => {
                calls += 1;
                let event = match results.next() {
                    Some(Ok(record)) => LoopEvent::RunFinished(record),
                    _ => LoopEvent::RunFailed,
                };
                action = control.step(config, &event);
            }
            LoopAction::Stop(reason) => return (calls, reason),
            LoopAction::Ignore => panic!("the driver sent an event out of turn"),
        }
    }
}

#[test]
fn test_run_execution_loop_completes_all_iterations() {
    let iterations = 5;
    let config = create_config(iterations, None);
    let results = (0..iterations).map(|_| ok(Some(0), "")).collect();
    let (calls, reason) = run_mocked_loop(&config, results);
    assert_eq!(
        calls, iterations as usize,
        "The loop should execute the configured number of iterations."
    );
    assert_eq!(reason, StopReason::Completed);
}

#[test]
fn test_run_execution_loop_exits_on_target_exit_code() {
    let iterations = 10;
    let target_exit_code = 42;
    let config = create_config(iterations, Some(target_exit_code));
    let results = vec![
        ok(Some(0), ""),
        ok(Some(1), ""),
        ok(Some(target_exit_code), ""),
        ok(Some(0), ""),
    ];
    let (calls, reason) = run_mocked_loop(&config, results);
    assert_eq!(
        calls, 3,
        "The loop should break after the target exit code is matched."
    );
    assert_eq!(reason, StopReason::ExitCodeMatched);
}

#[test]
fn test_run_execution_loop_exits_on_command_error() {
    let iterations = 10;
    let config = create_config(iterations, None);
    let results = vec![ok(Some(0), ""), Err("Spawn error".to_string()), ok(Some(0), "")];
    let (calls, reason) = run_mocked_loop(&config, results);
    assert_eq!(
        calls, 2,
        "The loop should break immediately upon receiving a command execution error."
    );
    assert_eq!(reason, StopReason::CommandFailed);
}

#[test]
fn test_run_execution_loop_exits_on_output_match() {
    let iterations = 10;
    let match_output = "STOP".to_string();
    let mut config = create_config(iterations, None);
    config.match_output = Some(match_output.clone());
    let results = vec![
        ok(Some(0), "RUNNING"),
        ok(Some(0), "STILL_RUNNING"),
        ok(Some(0), &match_output),
        ok(Some(0), "AFTER"),
    ];
    let (calls, reason) = run_mocked_loop(&config, results);
    assert_eq!(
        calls, 3,
        "The loop should break after the `match_output` is found."
    );
    assert_eq!(reason, StopReason::OutputMatched);
}

#[test]
fn zero_iterations_run_nothing() {
    let config = create_config(0, None);
    let (calls, reason) = run_mocked_loop(&config, vec![]);
    assert_eq!(calls, 0);
    assert_eq!(reason, StopReason::Completed);
}

#[test]
fn output_match_is_checked_before_exit_code() {
    let mut config = create_config(10, Some(3));
    config.match_output = Some("done".to_string());
    let (calls, reason) = run_mocked_loop(&config, vec![ok(Some(3), "done")]);
    assert_eq!(calls, 1);
    assert_eq!(reason, StopReason::OutputMatched);
}

#[test]
fn match_on_last_iteration_reports_the_match() {
    let config = create_config(2, Some(7));
    let (calls, reason) = run_mocked_loop(&config, vec![ok(Some(0), ""), ok(Some(7), "")]);
    assert_eq!(calls, 2);
    assert_eq!(reason, StopReason::ExitCodeMatched);
}

#[test]
fn loop_waits_before_first_run_and_between_runs_only() {
    let config = CliConfig {
        iterations: 3,
        initial_delay: Delay::Fixed(4),
        in_between_delay: Delay::Range(1, 2),
        ..Default::default()
    };
    let mut control = ExecutionLoop::new(&config);
    let mut actions = vec![control.step(&config, &LoopEvent::Started)];
    actions.push(control.step(&config, &LoopEvent::SleepFinished));
    for i in 0..3 {
        actions.push(control.step(&config, &ok(Some(i), "").map(LoopEvent::RunFinished).unwrap()));
        if i < 2 {
            actions.push(control.step(&config, &LoopEvent::SleepFinished));
        }
    }
    assert_eq!(
        actions,
        vec![
            LoopAction::Sleep(Delay::Fixed(4)),
            LoopAction::RunCommand,
            LoopAction::Sleep(Delay::Range(1, 2)),
            LoopAction::RunCommand,
            LoopAction::Sleep(Delay::Range(1, 2)),
            LoopAction::RunCommand,
            LoopAction::Stop(StopReason::Completed),
        ]
    );
    assert_eq!(control.completed, 3);
}

#[test]
fn interrupt_stops_the_loop_for_good() {
    let config = create_config(5, None);
    let mut control = ExecutionLoop::new(&config);
    control.step(&config, &LoopEvent::Started);
    control.step(&config, &LoopEvent::SleepFinished);
    assert_eq!(
        control.step(&config, &LoopEvent::Interrupted),
        LoopAction::Stop(StopReason::Interrupted)
    );
    assert_eq!(control.phase, Phase::Stopped(StopReason::Interrupted));
    assert_eq!(control.completed, 0);
    assert_eq!(
        control.step(&config, &LoopEvent::SleepFinished),
        LoopAction::Stop(StopReason::Interrupted)
    );
}

#[test]
fn events_out_of_turn_are_ignored() {
    let config = create_config(5, None);
    let mut control = ExecutionLoop::new(&config);
    assert_eq!(control.step(&config, &LoopEvent::SleepFinished), LoopAction::Ignore);
    assert_eq!(control.step(&config, &LoopEvent::RunFailed), LoopAction::Ignore);
    assert_eq!(control.phase, Phase::NotStarted);
}
