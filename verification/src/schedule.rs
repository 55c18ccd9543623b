//! The decisions of the repeat loop: when to wait, when to run the command
//! again and when to stop. The driver performs each action and reports what
//! happened as the next event.
use crate::analyzer::{RunRecord, RunRecordView};
use crate::config::CliConfig;
use crate::delay::Delay;
use vstd::prelude::*;

verus! {

/// Why the loop stopped.
#[derive(Debug, Clone, Copy, PartialEq, Eq, Structural)]
pub enum StopReason {
    /// Every configured iteration ran.
    Completed,
    /// The user asked to stop.
    Interrupted,
    /// An execution could not be carried out.
    CommandFailed,
    /// The command printed the awaited output.
    OutputMatched,
    /// The command returned the awaited exit code.
    ExitCodeMatched,
}

/// Where the loop stands.
#[derive(Debug, Clone, Copy, PartialEq, Eq, Structural)]
pub enum Phase {
    NotStarted,
    InitialDelay,
    Running,
    BetweenDelay,
    Stopped(StopReason),
}

/// What the driver has to do next.
#[derive(Debug, Clone, Copy, PartialEq, Eq, Structural)]
pub enum LoopAction {
    /// Wait for as many seconds as the delay gives this time.
    Sleep(Delay),
    /// Execute the command once.
    RunCommand,
    /// The loop is over.
    Stop(StopReason),
    /// The event did not fit the current phase; nothing to do.
    Ignore,
}

/// What happened since the last action.
pub enum LoopEvent {
    /// The session begins.
    Started,
    /// A requested wait is over.
    SleepFinished,
    /// An execution finished with this record.
    RunFinished(RunRecord),
    /// An execution could not be carried out.
    RunFailed,
    /// The user asked to stop.
    Interrupted,
}

/// The state of the repeat loop.
#[derive(Debug, Clone, Copy, PartialEq, Eq, Structural)]
pub struct ExecutionLoop {
    /// How many executions the session may run.
    pub iterations: u64,
    /// How many executions have finished.
    pub completed: u64,
    pub phase: Phase,
}

/// The stop condition that a finished run meets, if any. The awaited output
/// is checked before the awaited exit code.
pub open spec fn stop_condition(config: CliConfig, r: RunRecordView) -> Option<StopReason> {
    if config.match_output is Some && config.match_output->0@ == r.stdout {
        Some(StopReason::OutputMatched)
    } else if config.exit_code is Some && r.exit_code == Some(config.exit_code->0) {
        Some(StopReason::ExitCodeMatched)
    } else {
        None
    }
}

impl ExecutionLoop {
    /// A loop that has not started, for the configured number of iterations.
    pub open spec fn initial(config: CliConfig) -> ExecutionLoop {
        ExecutionLoop { iterations: config.iterations, completed: 0, phase: Phase::NotStarted }
    }

    /// The loop never runs more executions than configured, none has
    /// finished before the first run, and while it may still run one, fewer
    /// than that have finished.
    pub open spec fn wf(self) -> bool {
        &&& self.completed <= self.iterations
        &&& (self.phase == Phase::Running || self.phase == Phase::BetweenDelay) ==> self.completed
            < self.iterations
        &&& (self.phase == Phase::NotStarted || self.phase == Phase::InitialDelay) ==> self.completed
            == 0
    }

    /// The same loop in another phase.
    pub open spec fn in_phase(self, phase: Phase) -> ExecutionLoop {
        ExecutionLoop { phase, ..self }
    }

    /// The next state and action, given the configuration and an event.
    pub open spec fn spec_step(self, config: CliConfig, event: LoopEvent) -> (
        ExecutionLoop,
        LoopAction,
    ) {
        match self.phase {
            Phase::Stopped(reason) => (self, LoopAction::Stop(reason)),
            _ => match event {
                LoopEvent::Interrupted => (
                    self.in_phase(Phase::Stopped(StopReason::Interrupted)),
                    LoopAction::Stop(StopReason::Interrupted),
                ),
                LoopEvent::Started => if self.phase == Phase::NotStarted {
                    (self.in_phase(Phase::InitialDelay), LoopAction::Sleep(config.initial_delay))
                } else {
                    (self, LoopAction::Ignore)
                },
                LoopEvent::SleepFinished => if self.phase == Phase::InitialDelay
                    && self.iterations == 0 {
                    (
                        self.in_phase(Phase::Stopped(StopReason::Completed)),
                        LoopAction::Stop(StopReason::Completed),
                    )
                } else if self.phase == Phase::InitialDelay || self.phase == Phase::BetweenDelay {
                    (self.in_phase(Phase::Running), LoopAction::RunCommand)
                } else {
                    (self, LoopAction::Ignore)
                },
                LoopEvent::RunFinished(r) => if self.phase == Phase::Running {
                    let done = ExecutionLoop { completed: (self.completed + 1) as u64, ..self };
                    match stop_condition(config, r@) {
                        Some(reason) => (
                            done.in_phase(Phase::Stopped(reason)),
                            LoopAction::Stop(reason),
                        ),
                        None => if done.completed == self.iterations {
                            (
                                done.in_phase(Phase::Stopped(StopReason::Completed)),
                                LoopAction::Stop(StopReason::Completed),
                            )
                        } else {
                            (
                                done.in_phase(Phase::BetweenDelay),
                                LoopAction::Sleep(config.in_between_delay),
                            )
                        },
                    }
                } else {
                    (self, LoopAction::Ignore)
                },
                LoopEvent::RunFailed => if self.phase == Phase::Running {
                    (
                        self.in_phase(Phase::Stopped(StopReason::CommandFailed)),
                        LoopAction::Stop(StopReason::CommandFailed),
                    )
                } else {
                    (self, LoopAction::Ignore)
                },
            },
        }
    }

    /// A loop ready to start.
    pub fn new(config: &CliConfig) -> (l: Self)
        ensures
            l == ExecutionLoop::initial(*config),
            l.wf(),
    {
        ExecutionLoop { iterations: config.iterations, completed: 0, phase: Phase::NotStarted }
    }

    /// Takes one event and returns the action to perform: wait before the
    /// first run and between runs, run while iterations remain, and stop on
    /// an interrupt, a failed execution, the awaited output, the awaited
    /// exit code, or once every iteration has run.
    pub fn step(&mut self, config: &CliConfig, event: &LoopEvent) -> (action: LoopAction)
        requires
            old(self).wf(),
        ensures
            (*final(self), action) == old(self).spec_step(*config, *event),
            final(self).wf(),
    {
        proof {
            lemma_step_keeps_bounds(*old(self), *config, *event);
        }
        match self.phase {
            Phase::Stopped(reason) => LoopAction::Stop(reason),
            _ => match event {
                LoopEvent::Interrupted => {
                    self.phase = Phase::Stopped(StopReason::Interrupted);
                    LoopAction::Stop(StopReason::Interrupted)
                },
                LoopEvent::Started => {
                    if self.phase == Phase::NotStarted {
                        self.phase = Phase::InitialDelay;
                        LoopAction::Sleep(config.initial_delay)
                    } else {
                        LoopAction::Ignore
                    }
                },
                LoopEvent::SleepFinished => {
                    if self.phase == Phase::InitialDelay && self.iterations == 0 {
                        self.phase = Phase::Stopped(StopReason::Completed);
                        LoopAction::Stop(StopReason::Completed)
                    } else if self.phase == Phase::InitialDelay || self.phase
                        == Phase::BetweenDelay {
                        self.phase = Phase::Running;
                        LoopAction::RunCommand
                    } else {
                        LoopAction::Ignore
                    }
                },
                LoopEvent::RunFinished(record) => {
                    if self.phase == Phase::Running {
                        self.completed = self.completed + 1;
                        match stop_on(config, record) {
                            Some(reason) => {
                                self.phase = Phase::Stopped(reason);
                                LoopAction::Stop(reason)
                            },
                            None => {
                                if self.completed == self.iterations {
                                    self.phase = Phase::Stopped(StopReason::Completed);
                                    LoopAction::Stop(StopReason::Completed)
                                } else {
                                    self.phase = Phase::BetweenDelay;
                                    LoopAction::Sleep(config.in_between_delay)
                                }
                            },
                        }
                    } else {
                        LoopAction::Ignore
                    }
                },
                LoopEvent::RunFailed => {
                    if self.phase == Phase::Running {
                        self.phase = Phase::Stopped(StopReason::CommandFailed);
                        LoopAction::Stop(StopReason::CommandFailed)
                    } else {
                        LoopAction::Ignore
                    }
                },
            },
        }
    }
}

/// No step lets the loop run more executions than configured.
pub proof fn lemma_step_keeps_bounds(s: ExecutionLoop, config: CliConfig, event: LoopEvent)
    requires
        s.wf(),
    ensures
        s.spec_step(config, event).0.wf(),
        s.spec_step(config, event).0.iterations == s.iterations,
        s.spec_step(config, event).0.completed <= s.completed + 1,
{
}

/// The state once the session has started and the initial wait is over.
pub open spec fn after_start(config: CliConfig) -> ExecutionLoop {
    ExecutionLoop::initial(config).spec_step(config, LoopEvent::Started).0.spec_step(
        config,
        LoopEvent::SleepFinished,
    ).0
}

/// The state once the executions with records `rs` have finished in turn,
/// each followed by the end of the wait it led to.
pub open spec fn after_runs(config: CliConfig, rs: Seq<RunRecord>) -> ExecutionLoop
    decreases rs.len(),
{
    if rs.len() == 0 {
        after_start(config)
    } else {
        after_runs(config, rs.drop_last()).spec_step(
            config,
            LoopEvent::RunFinished(rs.last()),
        ).0.spec_step(config, LoopEvent::SleepFinished).0
    }
}

/// While no run meets a stop condition, the session runs the command once
/// per iteration: after fewer runs than iterations it is ready to run again,
/// and after as many runs as iterations it has stopped, all iterations done.
pub proof fn lemma_session_runs_every_iteration(config: CliConfig, rs: Seq<RunRecord>)
    requires
        forall|i: int|
            0 <= i < rs.len() && i < config.iterations ==> stop_condition(
                config,
                #[trigger] rs[i]@,
            ) is None,
    ensures
        rs.len() < config.iterations ==> after_runs(config, rs) == (ExecutionLoop {
            iterations: config.iterations,
            completed: rs.len() as u64,
            phase: Phase::Running,
        }),
        rs.len() >= config.iterations ==> after_runs(config, rs) == (ExecutionLoop {
            iterations: config.iterations,
            completed: config.iterations,
            phase: Phase::Stopped(StopReason::Completed),
        }),
    decreases rs.len(),
{
    if rs.len() > 0 {
        let prefix = rs.drop_last();
        assert forall|i: int|
            0 <= i < prefix.len() && i < config.iterations implies stop_condition(
            config,
            #[trigger] prefix[i]@,
        ) is None by {
            assert(prefix[i] == rs[i]);
        }
        lemma_session_runs_every_iteration(config, prefix);
        if prefix.len() < config.iterations {
            assert(rs[rs.len() - 1] == rs.last());
        }
    }
}

/// The session stops right after the first run that meets a stop
/// condition, for the reason that run gives, when that run comes before the
/// iterations are used up; whatever comes after is not run.
pub proof fn lemma_session_stops_at_first_match(config: CliConfig, rs: Seq<RunRecord>, k: int)
    requires
        0 <= k < rs.len(),
        k < config.iterations,
        stop_condition(config, rs[k]@) is Some,
        forall|i: int| 0 <= i < k ==> stop_condition(config, #[trigger] rs[i]@) is None,
    ensures
        after_runs(config, rs) == (ExecutionLoop {
            iterations: config.iterations,
            completed: (k + 1) as u64,
            phase: Phase::Stopped(stop_condition(config, rs[k]@)->0),
        }),
    decreases rs.len(),
{
    let prefix = rs.drop_last();
    if k < rs.len() - 1 {
        assert(prefix[k] == rs[k]);
        assert forall|i: int| 0 <= i < k implies stop_condition(config, #[trigger] prefix[i]@)
            is None by {
            assert(prefix[i] == rs[i]);
        }
        lemma_session_stops_at_first_match(config, prefix, k);
    } else {
        assert forall|i: int|
            0 <= i < prefix.len() && i < config.iterations implies stop_condition(
            config,
            #[trigger] prefix[i]@,
        ) is None by {
            assert(prefix[i] == rs[i]);
        }
        lemma_session_runs_every_iteration(config, prefix);
        assert(rs[k] == rs.last());
    }
}

/// A run stops the loop for its exit code only when it returned an exit code
/// and that code is the awaited one; a run that returned none stops the loop
/// only through its output. A run whose output is not awaited and whose exit
/// code is the awaited one stops the loop for that code; a run stops it for
/// its output exactly when the output is the awaited text.
pub proof fn lemma_stop_needs_the_awaited_result(config: CliConfig, r: RunRecordView)
    ensures
        stop_condition(config, r) == Some(StopReason::ExitCodeMatched) ==> r.exit_code is Some
            && r.exit_code == config.exit_code,
        stop_condition(config, r) == Some(StopReason::OutputMatched) <==> (config.match_output is Some
            && config.match_output->0@ == r.stdout),
        r.exit_code is None && !(config.match_output is Some && config.match_output->0@ == r.stdout)
            ==> stop_condition(config, r) is None,
        config.exit_code is Some && r.exit_code == config.exit_code && !(config.match_output is Some
            && config.match_output->0@ == r.stdout) ==> stop_condition(config, r) == Some(
            StopReason::ExitCodeMatched,
        ),
        stop_condition(config, r) is None || stop_condition(config, r) == Some(
            StopReason::ExitCodeMatched,
        ) || stop_condition(config, r) == Some(StopReason::OutputMatched),
{
}

/// Once stopped, the loop stays stopped and keeps answering with the same
/// reason, whatever happens.
pub proof fn lemma_stop_is_final(s: ExecutionLoop, config: CliConfig, event: LoopEvent)
    requires
        s.phase is Stopped,
    ensures
        s.spec_step(config, event) == (s, LoopAction::Stop(s.phase->0)),
{
}

/// An interrupt stops a loop that has not stopped yet, without counting a run.
pub proof fn lemma_interrupt_stops(s: ExecutionLoop, config: CliConfig)
    requires
        !(s.phase is Stopped),
    ensures
        s.spec_step(config, LoopEvent::Interrupted) == (
            s.in_phase(Phase::Stopped(StopReason::Interrupted)),
            LoopAction::Stop(StopReason::Interrupted),
        ),
{
}

/// Checks a finished run against the stop conditions of the configuration.
pub fn stop_on(config: &CliConfig, record: &RunRecord) -> (reason: Option<StopReason>)
    ensures
        reason == stop_condition(*config, record@),
{
    if let Some(expected) = &config.match_output {
        if record.stdout == *expected {
            return Some(StopReason::OutputMatched);
        }
    }
    if let Some(code) = config.exit_code {
        if record.exit_code == Some(code) {
            return Some(StopReason::ExitCodeMatched);
        }
    }
    None
}

} // verus!
