# repeat

Runs a command repeatedly until a condition is met, and prints statistics
about the runs as JSON.

- `src/` is the verified library:
  - `analyzer`: run records and the statistics kept over all runs, with the
    laws that relate the statistics to the sequence of recorded runs;
  - `config`: the command-line configuration;
  - `delay`: fixed and ranged delays and their grammar (`5`, `1..5`);
  - `execution`: the record that each outcome of a timed run leaves;
  - `runner`: what one execution needs (program, arguments, environment);
  - `schedule`: the state machine that decides when to wait, run and stop,
    with the laws about whole sessions;
  - `text`: character search used by the parsers.
- `app/` is the program: argument parsing, processes, timers, signals and
  JSON output, driving the library's state machine.
- `tests/` exercise the library, including whole sessions against a model
  of the command.
