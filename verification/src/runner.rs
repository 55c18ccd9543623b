use crate::config::CliConfig;
use crate::text::{find_char, first_index_of, lemma_first_index_of, lemma_first_index_of_bounds};
use vstd::prelude::*;
use vstd::string::*;

verus! {

/// Runs the configured command, one execution at a time.
pub struct Runner<'a> {
    pub config: &'a CliConfig,
}

/// Everything needed to start one execution of the command.
pub struct CommandPlan {
    /// The executable.
    pub program: String,
    /// Its arguments, in order.
    pub args: Vec<String>,
    /// The environment variables to set, as key and value, in the order given.
    pub envs: Vec<(String, String)>,
    /// The environment entries that are not of the form `KEY=VALUE`.
    pub malformed_envs: Vec<String>,
    /// The time allowed for the execution, in seconds.
    pub timeout_secs: u64,
}

/// An environment entry splits at its first `=` into key and value; an entry
/// without `=` does not split.
pub open spec fn spec_split_env(entry: Seq<char>) -> Option<(Seq<char>, Seq<char>)> {
    let k = first_index_of(entry, '=');
    if k < entry.len() {
        Some((entry.subrange(0, k), entry.subrange(k + 1, entry.len() as int)))
    } else {
        None
    }
}

/// The key-value pairs of the well-formed entries, in order.
pub open spec fn env_pairs(entries: Seq<String>) -> Seq<(Seq<char>, Seq<char>)> {
    entries.filter_map(|e: String| spec_split_env(e@))
}

/// Whether an entry lacks the `=` between key and value.
pub open spec fn is_malformed_env() -> spec_fn(String) -> bool {
    |e: String| spec_split_env(e@) is None
}

/// The text of a key-value pair.
pub open spec fn pair_view(p: (String, String)) -> (Seq<char>, Seq<char>) {
    (p.0@, p.1@)
}

/// A key without `=`, an `=` and any value split back into that key and
/// that value.
pub proof fn lemma_env_splits_at_first_equals(key: Seq<char>, value: Seq<char>)
    requires
        forall|i: int| 0 <= i < key.len() ==> key[i] != '=',
    ensures
        spec_split_env(key + seq!['='] + value) == Some((key, value)),
{
    let e = key + seq!['='] + value;
    assert forall|j: int| 0 <= j < key.len() implies e[j] != '=' by {
        assert(e[j] == key[j]);
    }
    assert(e[key.len() as int] == '=');
    lemma_first_index_of(e, '=', key.len() as int);
    assert(e.subrange(0, key.len() as int) =~= key);
    assert(e.subrange((key.len() + 1) as int, e.len() as int) =~= value);
}

/// An entry is set apart as malformed exactly when it holds no `=`; when it
/// splits, the key holds no `=` and key, `=` and value give back the entry.
pub proof fn lemma_env_split_exactly_at_equals(entry: Seq<char>)
    ensures
        spec_split_env(entry) is None <==> (forall|i: int| 0 <= i < entry.len() ==> entry[i] != '='),
        spec_split_env(entry) matches Some(p) ==> p.0 + seq!['='] + p.1 == entry && (forall|i: int|
            0 <= i < p.0.len() ==> p.0[i] != '='),
{
    lemma_first_index_of_bounds(entry, '=');
    let k = first_index_of(entry, '=');
    if k < entry.len() {
        assert(entry.subrange(0, k) + seq!['='] + entry.subrange(k + 1, entry.len() as int)
            =~= entry);
    }
}

/// Splits an environment entry `KEY=VALUE` at its first `=`.
pub fn split_env_var(entry: &str) -> (pair: Option<(String, String)>)
    ensures
        match pair {
            Some(p) => spec_split_env(entry@) == Some(pair_view(p)),
            None => spec_split_env(entry@) is None,
        },
{
    match find_char(entry, '=') {
        Some(k) => {
            let n = entry.unicode_len();
            let key = entry.substring_char(0, k).to_owned();
            let value = entry.substring_char(k + 1, n).to_owned();
            Some((key, value))
        },
        None => None,
    }
}

impl<'a> Runner<'a> {
    pub fn new(config: &'a CliConfig) -> (runner: Self)
        ensures
            runner.config == config,
    {
        Runner { config }
    }

    /// What one execution runs: the command split into executable and
    /// arguments, the environment entries split into keys and values (the
    /// malformed ones set apart), and the per-run time limit.
    pub fn plan(&self) -> (plan: CommandPlan)
        requires
            self.config.command.len() >= 1,
        ensures
            plan.program == self.config.command@[0],
            plan.args@ == self.config.command@.subrange(1, self.config.command@.len() as int),
            plan.envs@.map_values(|p: (String, String)| pair_view(p)) == env_pairs(
                self.config.env@,
            ),
            plan.malformed_envs@ == self.config.env@.filter(is_malformed_env()),
            plan.timeout_secs == self.config.single_run_timeout_sec,
    {
        let (exec, rest) = self.config.executable_and_args();
        let program = exec.clone();
        let mut args: Vec<String> = Vec::new();
        let mut i: usize = 0;
        while i < rest.len()
            invariant
                i <= rest@.len(),
                args@ == rest@.take(i as int),
            decreases rest@.len() - i,
        {
            args.push(rest[i].clone());
            assert(args@ =~= rest@.take(i + 1));
            i = i + 1;
        }
        assert(args@ =~= rest@);

        let entries = &self.config.env;
        let mut envs: Vec<(String, String)> = Vec::new();
        let mut malformed_envs: Vec<String> = Vec::new();
        let mut j: usize = 0;
        while j < entries.len()
            invariant
                j <= entries@.len(),
                envs@.map_values(|p: (String, String)| pair_view(p)) == env_pairs(
                    entries@.take(j as int),
                ),
                malformed_envs@ == entries@.take(j as int).filter(is_malformed_env()),
            decreases entries@.len() - j,
        {
            let ghost prefix = entries@.take(j as int);
            let ghost next = entries@.take(j + 1);
            assert(next.drop_last() =~= prefix);
            assert(next.last() == entries@[j as int]);
            reveal_with_fuel(Seq::filter, 1);
            match split_env_var(entries[j].as_str()) {
                Some(pair) => {
                    let ghost before = envs@;
                    envs.push(pair);
                    assert(envs@.map_values(|p: (String, String)| pair_view(p)) =~= before.map_values(
                        |p: (String, String)| pair_view(p),
                    ).push(pair_view(pair)));
                },
                None => {
                    malformed_envs.push(entries[j].clone());
                },
            }
            j = j + 1;
        }
        assert(entries@.take(entries@.len() as int) =~= entries@);

        CommandPlan {
            program,
            args,
            envs,
            malformed_envs,
            timeout_secs: self.config.single_run_timeout_sec,
        }
    }
}

} // verus!
