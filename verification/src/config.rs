use crate::delay::Delay;
use vstd::prelude::*;

verus! {

/// Configuration derived from command-line arguments.
pub struct CliConfig {
    /// The command and its arguments to execute repeatedly.
    pub command: Vec<String>,
    /// Exit the repeating loop when the command returns this specific exit code.
    pub exit_code: Option<i32>,
    /// Exit the repeating loop when the command's standard output equals this text.
    pub match_output: Option<String>,
    /// Environment variables for the command, each written `KEY=VALUE`.
    pub env: Vec<String>,
    /// Maximum time (in seconds) allowed for a single execution.
    pub single_run_timeout_sec: u64,
    /// Maximum time (in seconds) allowed for the entire execution.
    pub total_run_timeout_sec: u64,
    /// Enable verbose logging of each run.
    pub verbose: bool,
    /// Number of iterations for a given command.
    pub iterations: u64,
    /// Delay before the first execution.
    pub initial_delay: Delay,
    /// Delay between two executions.
    pub in_between_delay: Delay,
}

impl CliConfig {
    /// Utility to get the main command executable and its arguments separately.
    pub fn executable_and_args(&self) -> (parts: (&String, &[String]))
        requires
            self.command.len() >= 1,
        ensures
            *parts.0 == self.command@[0],
            parts.1@ == self.command@.subrange(1, self.command@.len() as int),
    {
        let (first, rest) = self.command.as_slice().split_at(1);
        (&first[0], rest)
    }
}

impl Default for CliConfig {
    /// The values that an empty command line gives: ten iterations, a
    /// ten-second limit per run and a hundred seconds in all, no delays,
    /// no stop condition and no command.
    fn default() -> (config: CliConfig)
        ensures
            config.command@.len() == 0,
            config.exit_code is None,
            config.match_output is None,
            config.env@.len() == 0,
            config.single_run_timeout_sec == 10,
            config.total_run_timeout_sec == 100,
            !config.verbose,
            config.iterations == 10,
            config.initial_delay == Delay::Fixed(0),
            config.in_between_delay == Delay::Fixed(0),
    {
        CliConfig {
            command: Vec::new(),
            exit_code: None,
            match_output: None,
            env: Vec::new(),
            single_run_timeout_sec: 10,
            total_run_timeout_sec: 100,
            verbose: false,
            iterations: 10,
            initial_delay: Delay::Fixed(0),
            in_between_delay: Delay::Fixed(0),
        }
    }
}

} // verus!
