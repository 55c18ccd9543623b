use std::collections::HashMap;
use vstd::prelude::*;

verus! {

broadcast use vstd::std_specs::hash::group_hash_axioms;

/// The largest duration that can be represented, in nanoseconds
/// (`u64::MAX` seconds and 999 999 999 nanoseconds).
pub const MAX_DURATION_NANOS: u128 = 18446744073709551615999999999u128;

/// Status indicating the result of a single command execution.
#[derive(Debug, Clone, Copy, PartialEq, Eq, Structural)]
pub enum RunStatus {
    Completed,
    Timeout,
    Killed,
}

/// Stores the detailed results of a single command execution.
///
/// `duration` is the wall-clock time of the run in nanoseconds.
pub struct RunRecord {
    pub status: RunStatus,
    pub exit_code: Option<i32>,
    pub duration: u128,
    pub stdout: String,
    pub stderr: String,
}

/// The mathematical content of a [`RunRecord`].
pub ghost struct RunRecordView {
    pub status: RunStatus,
    pub exit_code: Option<i32>,
    pub duration: nat,
    pub stdout: Seq<char>,
    pub stderr: Seq<char>,
}

impl View for RunRecord {
    type V = RunRecordView;

    open spec fn view(&self) -> RunRecordView {
        RunRecordView {
            status: self.status,
            exit_code: self.exit_code,
            duration: self.duration as nat,
            stdout: self.stdout@,
            stderr: self.stderr@,
        }
    }
}

/// The exit code under which a run is counted: runs that timed out are not
/// counted under any exit code, nor are runs that report none.
pub open spec fn counted_code(r: RunRecordView) -> Option<i32> {
    if r.status == RunStatus::Timeout {
        None
    } else {
        r.exit_code
    }
}

/// Aggregates performance statistics across all runs.
///
/// Durations are in nanoseconds. `min_run_duration` starts at
/// [`MAX_DURATION_NANOS`] and `max_run_duration` at zero.
pub struct AnalysisTracker {
    pub verbose: bool,
    pub total_runs: u64,
    pub timeout_runs: u64,
    pub total_duration: u128,
    pub total_completed_duration: u128,
    pub min_run_duration: u128,
    pub max_run_duration: u128,
    pub exit_code_counts: HashMap<i32, u64>,
}

/// The mathematical content of an [`AnalysisTracker`].
pub ghost struct TrackerState {
    pub verbose: bool,
    pub total_runs: nat,
    pub timeout_runs: nat,
    pub total_duration: nat,
    pub total_completed_duration: nat,
    pub min_run_duration: nat,
    pub max_run_duration: nat,
    pub exit_code_counts: Map<i32, nat>,
}

impl View for AnalysisTracker {
    type V = TrackerState;

    open spec fn view(&self) -> TrackerState {
        TrackerState {
            verbose: self.verbose,
            total_runs: self.total_runs as nat,
            timeout_runs: self.timeout_runs as nat,
            total_duration: self.total_duration as nat,
            total_completed_duration: self.total_completed_duration as nat,
            min_run_duration: self.min_run_duration as nat,
            max_run_duration: self.max_run_duration as nat,
            exit_code_counts: self.exit_code_counts@.map_values(|n: u64| n as nat),
        }
    }
}

impl TrackerState {
    /// The state of a tracker that has recorded nothing yet.
    pub open spec fn initial(verbose: bool) -> TrackerState {
        TrackerState {
            verbose,
            total_runs: 0,
            timeout_runs: 0,
            total_duration: 0,
            total_completed_duration: 0,
            min_run_duration: MAX_DURATION_NANOS as nat,
            max_run_duration: 0,
            exit_code_counts: Map::empty(),
        }
    }

    /// How many runs have been counted under exit code `code`.
    pub open spec fn count_of(self, code: i32) -> nat {
        if self.exit_code_counts.contains_key(code) {
            self.exit_code_counts[code]
        } else {
            0
        }
    }

    /// The state after one more run has been recorded.
    pub open spec fn step(self, r: RunRecordView) -> TrackerState {
        TrackerState {
            verbose: self.verbose,
            total_runs: self.total_runs + 1,
            timeout_runs: if r.status == RunStatus::Timeout {
                self.timeout_runs + 1
            } else {
                self.timeout_runs
            },
            total_duration: self.total_duration,
            total_completed_duration: self.total_completed_duration + r.duration,
            min_run_duration: if r.duration < self.min_run_duration {
                r.duration
            } else {
                self.min_run_duration
            },
            max_run_duration: if r.duration > self.max_run_duration {
                r.duration
            } else {
                self.max_run_duration
            },
            exit_code_counts: match counted_code(r) {
                Some(c) => self.exit_code_counts.insert(c, self.count_of(c) + 1),
                None => self.exit_code_counts,
            },
        }
    }

    /// The state after the runs of `rs` have been recorded, first to last.
    pub open spec fn replay(self, rs: Seq<RunRecordView>) -> TrackerState
        decreases rs.len(),
    {
        if rs.len() == 0 {
            self
        } else {
            self.replay(rs.drop_last()).step(rs.last())
        }
    }
}

impl AnalysisTracker {
    /// Whether recording `r` keeps every counter within its type: the
    /// counters that `r` increments are below their maximum, and the
    /// accumulated duration stays a representable duration.
    pub open spec fn can_record(&self, r: &RunRecord) -> bool {
        &&& self.total_runs < u64::MAX
        &&& r.status == RunStatus::Timeout ==> self.timeout_runs < u64::MAX
        &&& self.total_completed_duration + r.duration <= MAX_DURATION_NANOS
        &&& (counted_code(r@) matches Some(c) ==> self@.count_of(c) < u64::MAX)
    }

    /// Creates a new analysis tracker with no runs recorded.
    pub fn new(verbose: bool) -> (tracker: Self)
        ensures
            tracker@ == TrackerState::initial(verbose),
    {
        let tracker = AnalysisTracker {
            verbose,
            total_runs: 0,
            timeout_runs: 0,
            total_duration: 0,
            total_completed_duration: 0,
            min_run_duration: MAX_DURATION_NANOS,
            max_run_duration: 0,
            exit_code_counts: HashMap::new(),
        };
        assert(tracker@.exit_code_counts =~= Map::empty());
        tracker
    }

    /// Records the results of a single command execution and updates metrics.
    pub fn record(&mut self, record: &RunRecord)
        requires
            old(self).can_record(record),
        ensures
            final(self)@ == old(self)@.step(record@),
    {
        let ghost before = self@;
        self.total_runs = self.total_runs + 1;

        self.total_completed_duration = self.total_completed_duration + record.duration;
        if record.duration < self.min_run_duration {
            self.min_run_duration = record.duration;
        }
        if record.duration > self.max_run_duration {
            self.max_run_duration = record.duration;
        }

        match record.status {
            RunStatus::Timeout => {
                self.timeout_runs = self.timeout_runs + 1;
            },
            RunStatus::Completed | RunStatus::Killed => {
                if let Some(code) = record.exit_code {
                    let current: u64 = match self.exit_code_counts.get(&code) {
                        Some(n) => *n,
                        None => 0,
                    };
                    self.exit_code_counts.insert(code, current + 1);
                    assert(self@.exit_code_counts =~= before.exit_code_counts.insert(
                        code,
                        before.count_of(code) + 1,
                    ));
                }
            },
        }
    }

    /// Stores the elapsed time of the whole session, in nanoseconds.
    pub fn finish(&mut self, elapsed: u128)
        ensures
            final(self)@ == (TrackerState { total_duration: elapsed as nat, ..old(self)@ }),
    {
        self.total_duration = elapsed;
    }
}

/// Whether a run ended by timing out.
pub open spec fn timed_out() -> spec_fn(RunRecordView) -> bool {
    |r: RunRecordView| r.status == RunStatus::Timeout
}

/// Whether a run is counted under exit code `code`.
pub open spec fn counted_as(code: i32) -> spec_fn(RunRecordView) -> bool {
    |r: RunRecordView| counted_code(r) == Some(code)
}

/// The summed duration of the runs of `rs`.
pub open spec fn duration_sum(rs: Seq<RunRecordView>) -> nat
    decreases rs.len(),
{
    if rs.len() == 0 {
        0
    } else {
        duration_sum(rs.drop_last()) + rs.last().duration
    }
}

/// Recording a sequence of runs adds, to what a tracker held, exactly the
/// number of runs, the runs that timed out, the runs under each exit code and
/// their summed duration; the verbosity and the session time are kept.
pub proof fn lemma_replay_accumulates(s: TrackerState, rs: Seq<RunRecordView>)
    ensures
        s.replay(rs).verbose == s.verbose,
        s.replay(rs).total_duration == s.total_duration,
        s.replay(rs).total_runs == s.total_runs + rs.len(),
        s.replay(rs).timeout_runs == s.timeout_runs + rs.filter(timed_out()).len(),
        s.replay(rs).total_completed_duration == s.total_completed_duration + duration_sum(rs),
        forall|c: i32|
            #[trigger] s.replay(rs).count_of(c) == s.count_of(c) + rs.filter(counted_as(c)).len(),
        forall|c: i32|
            #[trigger] s.replay(rs).exit_code_counts.contains_key(c) <==> (
            s.exit_code_counts.contains_key(c) || rs.filter(counted_as(c)).len() > 0),
    decreases rs.len(),
{
    reveal_with_fuel(Seq::filter, 1);
    if rs.len() > 0 {
        let prefix = rs.drop_last();
        lemma_replay_accumulates(s, prefix);
        let t = s.replay(prefix);
        let r = rs.last();
        assert forall|c: i32| #[trigger]
            s.replay(rs).count_of(c) == s.count_of(c) + rs.filter(counted_as(c)).len() by {
            assert(t.count_of(c) == s.count_of(c) + prefix.filter(counted_as(c)).len());
        }
        assert forall|c: i32| #[trigger] s.replay(rs).exit_code_counts.contains_key(c) <==> (
        s.exit_code_counts.contains_key(c) || rs.filter(counted_as(c)).len() > 0) by {
            assert(t.exit_code_counts.contains_key(c) <==> (s.exit_code_counts.contains_key(c)
                || prefix.filter(counted_as(c)).len() > 0));
        }
    }
}

/// A tracker that starts empty holds, after a sequence of runs: as many runs
/// as were recorded, as many timeouts as runs that timed out, under each
/// exit code exactly the runs counted under it (and no entry for a code under
/// which no run is counted), and the summed duration of all runs.
pub proof fn lemma_new_tracker_summarises(verbose: bool, rs: Seq<RunRecordView>)
    ensures
        TrackerState::initial(verbose).replay(rs).total_runs == rs.len(),
        TrackerState::initial(verbose).replay(rs).timeout_runs == rs.filter(timed_out()).len(),
        TrackerState::initial(verbose).replay(rs).total_completed_duration == duration_sum(rs),
        forall|c: i32|
            #[trigger] TrackerState::initial(verbose).replay(rs).exit_code_counts.contains_key(c)
                <==> rs.filter(counted_as(c)).len() > 0,
        forall|c: i32|
            #[trigger] TrackerState::initial(verbose).replay(rs).count_of(c) == rs.filter(
                counted_as(c),
            ).len(),
{
    lemma_replay_accumulates(TrackerState::initial(verbose), rs);
}

/// After a sequence of runs, each of them with a representable duration, the
/// minimum run duration of a fresh tracker is the least of their durations
/// and the maximum the greatest; with no run recorded they keep their
/// starting values.
pub proof fn lemma_new_tracker_extremes(verbose: bool, rs: Seq<RunRecordView>)
    requires
        forall|i: int| 0 <= i < rs.len() ==> #[trigger] rs[i].duration <= MAX_DURATION_NANOS,
    ensures
        forall|i: int|
            0 <= i < rs.len() ==> TrackerState::initial(verbose).replay(rs).min_run_duration
                <= #[trigger] rs[i].duration <= TrackerState::initial(verbose).replay(
                rs,
            ).max_run_duration,
        rs.len() == 0 ==> TrackerState::initial(verbose).replay(rs).min_run_duration
            == MAX_DURATION_NANOS && TrackerState::initial(verbose).replay(rs).max_run_duration
            == 0,
        rs.len() > 0 ==> exists|i: int|
            0 <= i < rs.len() && TrackerState::initial(verbose).replay(rs).min_run_duration
                == #[trigger] rs[i].duration,
        rs.len() > 0 ==> exists|j: int|
            0 <= j < rs.len() && TrackerState::initial(verbose).replay(rs).max_run_duration
                == #[trigger] rs[j].duration,
    decreases rs.len(),
{
    if rs.len() > 0 {
        let prefix = rs.drop_last();
        let t = TrackerState::initial(verbose).replay(prefix);
        let u = TrackerState::initial(verbose).replay(rs);
        assert forall|i: int| 0 <= i < prefix.len() implies #[trigger] prefix[i].duration
            <= MAX_DURATION_NANOS by {
            assert(prefix[i] == rs[i]);
        }
        lemma_new_tracker_extremes(verbose, prefix);
        let last = rs.len() - 1;
        assert(rs[last] == rs.last());
        assert forall|i: int| 0 <= i < rs.len() implies u.min_run_duration <= #[trigger] rs[i].duration
            <= u.max_run_duration by {
            if i < last {
                assert(prefix[i] == rs[i]);
            }
        }
        if prefix.len() == 0 {
            assert(u.min_run_duration == rs[last].duration);
            assert(u.max_run_duration == rs[last].duration);
        } else {
            if u.min_run_duration != rs[last].duration {
                let i = choose|i: int|
                    0 <= i < prefix.len() && t.min_run_duration == #[trigger] prefix[i].duration;
                assert(prefix[i] == rs[i]);
            }
            if u.max_run_duration != rs[last].duration {
                let j = choose|j: int|
                    0 <= j < prefix.len() && t.max_run_duration == #[trigger] prefix[j].duration;
                assert(prefix[j] == rs[j]);
            }
        }
    }
}

/// The statistics do not depend on the order in which two runs are recorded.
pub proof fn lemma_record_order_irrelevant(s: TrackerState, a: RunRecordView, b: RunRecordView)
    ensures
        s.step(a).step(b) == s.step(b).step(a),
{
    let ab = s.step(a).step(b);
    let ba = s.step(b).step(a);
    assert(ab.exit_code_counts =~= ba.exit_code_counts);
}

/// The sum of the counts held in a map with a finite domain.
pub open spec fn count_total(m: Map<i32, nat>) -> nat
    decreases m.dom().len(),
{
    if m.dom().finite() && m.dom().len() > 0 {
        let k = m.dom().choose();
        m[k] + count_total(m.remove(k))
    } else {
        0
    }
}

/// The sum of a map's counts may be taken starting from any of its keys.
proof fn lemma_count_total_remove(m: Map<i32, nat>, k: i32)
    requires
        m.dom().finite(),
        m.dom().contains(k),
    ensures
        count_total(m) == m[k] + count_total(m.remove(k)),
    decreases m.dom().len(),
{
    let j = m.dom().choose();
    if j != k {
        lemma_count_total_remove(m.remove(j), k);
        lemma_count_total_remove(m.remove(k), j);
        assert(m.remove(j).remove(k) =~= m.remove(k).remove(j));
    }
}

/// Setting one count changes the sum by the difference.
proof fn lemma_count_total_insert(m: Map<i32, nat>, k: i32, v: nat)
    requires
        m.dom().finite(),
    ensures
        m.contains_key(k) ==> count_total(m.insert(k, v)) + m[k] == count_total(m) + v,
        !m.contains_key(k) ==> count_total(m.insert(k, v)) == count_total(m) + v,
{
    let ins = m.insert(k, v);
    lemma_count_total_remove(ins, k);
    if m.contains_key(k) {
        lemma_count_total_remove(m, k);
        assert(ins.remove(k) =~= m.remove(k));
    } else {
        assert(ins.remove(k) =~= m);
    }
}

/// Whether a run finished (it did not time out) without an exit code.
pub open spec fn finished_without_code() -> spec_fn(RunRecordView) -> bool {
    |r: RunRecordView| r.status != RunStatus::Timeout && r.exit_code is None
}

/// Every run of a fresh tracker is accounted for exactly once: as a
/// timeout, under its exit code, or as a run that finished without one.
pub proof fn lemma_runs_are_accounted(verbose: bool, rs: Seq<RunRecordView>)
    ensures
        TrackerState::initial(verbose).replay(rs).exit_code_counts.dom().finite(),
        TrackerState::initial(verbose).replay(rs).total_runs == TrackerState::initial(
            verbose,
        ).replay(rs).timeout_runs + count_total(
            TrackerState::initial(verbose).replay(rs).exit_code_counts,
        ) + rs.filter(finished_without_code()).len(),
    decreases rs.len(),
{
    reveal_with_fuel(Seq::filter, 1);
    let init = TrackerState::initial(verbose);
    if rs.len() == 0 {
        assert(init.exit_code_counts.dom() =~= Set::empty());
    } else {
        let prefix = rs.drop_last();
        lemma_runs_are_accounted(verbose, prefix);
        let t = init.replay(prefix);
        let r = rs.last();
        if let Some(c) = counted_code(r) {
            lemma_count_total_insert(t.exit_code_counts, c, t.count_of(c) + 1);
        }
    }
}

/// When every run of a fresh tracker ended with an exit code, the counts
/// under the exit codes add up to the number of runs.
pub proof fn lemma_counts_add_up_to_runs(verbose: bool, rs: Seq<RunRecordView>)
    requires
        forall|i: int|
            0 <= i < rs.len() ==> (#[trigger] rs[i]).status != RunStatus::Timeout
                && rs[i].exit_code is Some,
    ensures
        count_total(TrackerState::initial(verbose).replay(rs).exit_code_counts)
            == TrackerState::initial(verbose).replay(rs).total_runs,
{
    lemma_runs_are_accounted(verbose, rs);
    lemma_new_tracker_summarises(verbose, rs);
    assert(rs.filter(finished_without_code()).len() == 0) by {
        rs.lemma_all_neg_filter_empty(finished_without_code());
    }
    assert(rs.filter(timed_out()).len() == 0) by {
        rs.lemma_all_neg_filter_empty(timed_out());
    }
}

} // verus!
