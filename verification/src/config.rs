//! The settings of the dashboard and their defaults.
use crate::text::{text_pairs, texts};
use vstd::prelude::*;

verus! {

broadcast use vstd::string::group_string_axioms;

/// No two entries of the table have the same first component.
pub open spec fn distinct_keys(table: Seq<(Seq<char>, Seq<char>)>) -> bool {
    forall|i: int, j: int|
        0 <= i < j < table.len() ==> (#[trigger] table[i]).0 != (#[trigger] table[j]).0
}

/// The position of the entry for `key` in the table, or the table's length
/// where it has none.
pub open spec fn key_position(table: Seq<(Seq<char>, Seq<char>)>, key: Seq<char>) -> int
    decreases table.len(),
{
    if table.len() == 0 || table[0].0 == key {
        0
    } else {
        1 + key_position(table.drop_first(), key)
    }
}

/// The table with `key` mapped to `value`: in the place of the entry that
/// `key` had, or else at the end.
pub open spec fn with_entry(
    table: Seq<(Seq<char>, Seq<char>)>,
    key: Seq<char>,
    value: Seq<char>,
) -> Seq<(Seq<char>, Seq<char>)> {
    let at = key_position(table, key);
    if 0 <= at < table.len() {
        table.update(at, (key, value))
    } else {
        table.push((key, value))
    }
}

/// `key_position` gives the one position before which `key` does not occur
/// and at which it does, unless it is the length.
pub proof fn lemma_key_position(table: Seq<(Seq<char>, Seq<char>)>, key: Seq<char>)
    ensures
        0 <= key_position(table, key) <= table.len(),
        forall|i: int| 0 <= i < key_position(table, key) ==> (#[trigger] table[i]).0 != key,
        key_position(table, key) < table.len() ==> table[key_position(table, key)].0 == key,
    decreases table.len(),
{
    if table.len() == 0 || table[0].0 == key {
    } else {
        let rest = table.drop_first();
        lemma_key_position(rest, key);
        assert forall|i: int| 0 <= i < key_position(table, key) implies (#[trigger] table[i]).0
            != key by {
            if i > 0 {
                assert(table[i] == rest[i - 1]);
            }
        }
    }
}

/// A table with one entry for each key stays one when an entry is put in.
pub proof fn lemma_with_entry_distinct(
    table: Seq<(Seq<char>, Seq<char>)>,
    key: Seq<char>,
    value: Seq<char>,
)
    requires
        distinct_keys(table),
    ensures
        distinct_keys(with_entry(table, key, value)),
{
    lemma_key_position(table, key);
    let at = key_position(table, key);
    let next = with_entry(table, key, value);
    assert forall|i: int, j: int| 0 <= i < j < next.len() implies (#[trigger] next[i]).0 != (
    #[trigger] next[j]).0 by {
        if at < table.len() {
            if i == at {
                assert(table[i].0 != table[j].0);
            } else if j == at {
                assert(table[i].0 != table[j].0);
            } else {
                assert(table[i].0 != table[j].0);
            }
        } else {
            if j == table.len() {
                assert(table[i].0 != key);
            } else {
                assert(table[i].0 != table[j].0);
            }
        }
    }
}

/// The prefixes of node-local paths and what stands for each on this
/// machine. The entries keep the order in which their prefixes were first
/// put in, and no prefix has two entries.
#[derive(Debug)]
pub struct PathMappings {
    entries: Vec<(String, String)>,
}

impl View for PathMappings {
    type V = Seq<(Seq<char>, Seq<char>)>;

    closed spec fn view(&self) -> Seq<(Seq<char>, Seq<char>)> {
        text_pairs(self.entries@)
    }
}

impl Clone for PathMappings {
    fn clone(&self) -> (copy: PathMappings)
        ensures
            copy@ == self@,
    {
        proof {
            use_type_invariant(self);
        }
        let mut entries: Vec<(String, String)> = Vec::new();
        let mut i: usize = 0;
        while i < self.entries.len()
            invariant
                i <= self.entries@.len(),
                text_pairs(entries@) == self@.take(i as int),
            decreases self.entries@.len() - i,
        {
            let ghost before = text_pairs(entries@);
            let e = &self.entries[i];
            entries.push((e.0.clone(), e.1.clone()));
            assert(text_pairs(entries@) =~= before.push(self@[i as int]));
            assert(text_pairs(entries@) =~= self@.take(i + 1));
            i += 1;
        }
        assert(text_pairs(entries@) =~= self@);
        PathMappings { entries }
    }
}

impl PathMappings {
    #[verifier::type_invariant]
    spec fn one_entry_per_prefix(&self) -> bool {
        distinct_keys(text_pairs(self.entries@))
    }

    /// The table without entries.
    pub fn new() -> (table: PathMappings)
        ensures
            table@ == Seq::<(Seq<char>, Seq<char>)>::empty(),
    {
        let table = PathMappings { entries: Vec::new() };
        assert(table@ =~= Seq::<(Seq<char>, Seq<char>)>::empty());
        table
    }

    /// The number of entries.
    pub fn len(&self) -> (n: usize)
        ensures
            n == self@.len(),
    {
        self.entries.len()
    }

    /// The prefix and the replacement of the entry at `at`.
    pub fn entry(&self, at: usize) -> (e: (&str, &str))
        requires
            at < self@.len(),
        ensures
            e.0@ == self@[at as int].0,
            e.1@ == self@[at as int].1,
    {
        let e = &self.entries[at];
        (e.0.as_str(), e.1.as_str())
    }

    /// Maps `from` to `to`, in the place of the entry that `from` had, or
    /// else after all others.
    pub fn insert(&mut self, from: String, to: String)
        ensures
            final(self)@ == with_entry(old(self)@, from@, to@),
            distinct_keys(final(self)@),
    {
        proof {
            use_type_invariant(&*self);
            lemma_with_entry_distinct(self@, from@, to@);
        }
        let ghost table = self@;
        let mut at: usize = 0;
        while at < self.entries.len() && self.entries[at].0 != from
            invariant
                at <= self.entries@.len(),
                self@ == table,
                forall|i: int| 0 <= i < at ==> (#[trigger] table[i]).0 != from@,
            decreases self.entries@.len() - at,
        {
            at += 1;
        }
        proof {
            lemma_key_position(table, from@);
            let found = key_position(table, from@);
            if found < at {
                assert(table[found].0 != from@);
            } else if at < found {
                assert(table[at as int].0 != from@);
            }
        }
        let ghost next = with_entry(table, from@, to@);
        let mut entries: Vec<(String, String)> = Vec::new();
        let mut i: usize = 0;
        while i < self.entries.len()
            invariant
                i <= self.entries@.len(),
                at <= self.entries@.len(),
                self@ == table,
                at == key_position(table, from@),
                next == with_entry(table, from@, to@),
                text_pairs(entries@) == next.take(i as int),
            decreases self.entries@.len() - i,
        {
            let ghost before = text_pairs(entries@);
            if i == at {
                entries.push((from.clone(), to.clone()));
                assert(text_pairs(entries@) =~= before.push((from@, to@)));
            } else {
                let e = &self.entries[i];
                entries.push((e.0.clone(), e.1.clone()));
                assert(text_pairs(entries@) =~= before.push(table[i as int]));
            }
            assert(text_pairs(entries@) =~= next.take(i + 1));
            i += 1;
        }
        if at == self.entries.len() {
            let ghost before = text_pairs(entries@);
            entries.push((from, to));
            assert(text_pairs(entries@) =~= before.push((from@, to@)));
        }
        assert(text_pairs(entries@) =~= next);
        self.entries = entries;
    }

    /// No prefix has two entries.
    pub fn distinct(&self)
        ensures
            distinct_keys(self@),
    {
        proof {
            use_type_invariant(self);
        }
    }
}

/// How often the job list is read, and how.
#[derive(Debug, Clone)]
pub struct GeneralConfig {
    /// Seconds between two readings of the job list.
    pub refresh_interval: u64,
    /// Further arguments for the command that lists the jobs.
    pub squeue_args: Vec<String>,
    /// Show the jobs of all users, not only the operator's own.
    pub all_users: bool,
}

/// The keys, each as the text of one character.
#[derive(Debug, Clone)]
pub struct KeyBindings {
    pub quit: String,
    pub up: String,
    pub down: String,
    pub top: String,
    pub bottom: String,
    pub toggle_logs: String,
    pub cancel_job: String,
    pub refresh: String,
    pub ssh_view_log: String,
}

/// What the job list shows.
#[derive(Debug, Clone)]
pub struct DisplayConfig {
    /// The columns of the job list.
    pub columns: Vec<String>,
    /// The colour scheme: "default", "minimal" or "solarized".
    pub theme: String,
    /// Show the panel with the job's details.
    pub show_details: bool,
}

/// How a log that is not on this machine is reached.
#[derive(Debug, Clone)]
pub struct RemoteConfig {
    /// Read a log on its node where it cannot be read here.
    pub ssh_enabled: bool,
    /// Prefixes of node-local paths and what stands for each here.
    pub path_mappings: PathMappings,
    /// Seconds to wait for the node.
    pub ssh_timeout: u64,
}

/// All settings.
#[derive(Debug, Clone)]
pub struct Config {
    pub general: GeneralConfig,
    pub keybindings: KeyBindings,
    pub display: DisplayConfig,
    pub remote: RemoteConfig,
}

/// The columns that the job list shows by default.
pub open spec fn default_columns() -> Seq<Seq<char>> {
    seq![
        "JobID"@,
        "Partition"@,
        "Name"@,
        "User"@,
        "State"@,
        "Time"@,
        "Nodes"@,
        "NodeList"@,
    ]
}

impl Default for GeneralConfig {
    fn default() -> (c: GeneralConfig)
        ensures
            c.refresh_interval == 2,
            c.squeue_args@.len() == 0,
            !c.all_users,
    {
        GeneralConfig { refresh_interval: 2, squeue_args: Vec::new(), all_users: false }
    }
}

impl Default for KeyBindings {
    fn default() -> (k: KeyBindings)
        ensures
            k.quit@ == "q"@,
            k.up@ == "k"@,
            k.down@ == "j"@,
            k.top@ == "g"@,
            k.bottom@ == "G"@,
            k.toggle_logs@ == "l"@,
            k.cancel_job@ == "x"@,
            k.refresh@ == "r"@,
            k.ssh_view_log@ == "s"@,
    {
        KeyBindings {
            quit: "q".to_string(),
            up: "k".to_string(),
            down: "j".to_string(),
            top: "g".to_string(),
            bottom: "G".to_string(),
            toggle_logs: "l".to_string(),
            cancel_job: "x".to_string(),
            refresh: "r".to_string(),
            ssh_view_log: "s".to_string(),
        }
    }
}

impl Default for DisplayConfig {
    fn default() -> (d: DisplayConfig)
        ensures
            texts(d.columns@) == default_columns(),
            d.theme@ == "default"@,
            d.show_details,
    {
        let mut columns: Vec<String> = Vec::new();
        columns.push("JobID".to_string());
        columns.push("Partition".to_string());
        columns.push("Name".to_string());
        columns.push("User".to_string());
        columns.push("State".to_string());
        columns.push("Time".to_string());
        columns.push("Nodes".to_string());
        columns.push("NodeList".to_string());
        assert(texts(columns@) =~= default_columns());
        DisplayConfig { columns, theme: "default".to_string(), show_details: true }
    }
}

impl Default for RemoteConfig {
    fn default() -> (r: RemoteConfig)
        ensures
            r.ssh_enabled,
            r.path_mappings@.len() == 0,
            r.ssh_timeout == 5,
    {
        RemoteConfig { ssh_enabled: true, path_mappings: PathMappings::new(), ssh_timeout: 5 }
    }
}

impl Default for Config {
    fn default() -> (c: Config)
        ensures
            c.general.refresh_interval == 2,
            c.general.squeue_args@.len() == 0,
            !c.general.all_users,
            c.keybindings.quit@ == "q"@,
            c.keybindings.up@ == "k"@,
            c.keybindings.down@ == "j"@,
            c.keybindings.top@ == "g"@,
            c.keybindings.bottom@ == "G"@,
            c.keybindings.toggle_logs@ == "l"@,
            c.keybindings.cancel_job@ == "x"@,
            c.keybindings.refresh@ == "r"@,
            c.keybindings.ssh_view_log@ == "s"@,
            texts(c.display.columns@) == default_columns(),
            c.display.theme@ == "default"@,
            c.display.show_details,
            c.remote.ssh_enabled,
            c.remote.path_mappings@.len() == 0,
            c.remote.ssh_timeout == 5,
    {
        Config {
            general: GeneralConfig::default(),
            keybindings: KeyBindings::default(),
            display: DisplayConfig::default(),
            remote: RemoteConfig::default(),
        }
    }
}

/// A settings file that sets every setting to its default and says in
/// comments what each is for.
pub const DEFAULT_CONFIG_FILE: &'static str = r#"# ylurm configuration
# Place this file at ~/.config/ylurm/config.toml

[general]
# Refresh interval in seconds
refresh_interval = 2
# Show all users' jobs (false = only yours)
all_users = false
# Extra squeue arguments
# squeue_args = ["--partition=a100"]

[keybindings]
quit = "q"
up = "k"
down = "j"
top = "g"
bottom = "G"
toggle_logs = "l"
cancel_job = "x"
refresh = "r"
ssh_view_log = "s"

[display]
theme = "default"
show_details = true
columns = ["JobID", "Partition", "Name", "User", "State", "Time", "Nodes", "NodeList"]

[remote]
# SSH to compute nodes to read node-local log files
ssh_enabled = true
ssh_timeout = 5

# Map node-local paths to NFS-accessible paths (avoids SSH when possible)
# [remote.path_mappings]
# "/raid/asds/" = "/nfs/a100/asds/"
"#;

impl Config {
    /// The text of a settings file with the defaults.
    pub fn generate_default() -> (file: String)
        ensures
            file@ == DEFAULT_CONFIG_FILE@,
    {
        DEFAULT_CONFIG_FILE.to_string()
    }
}

} // verus!
