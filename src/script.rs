use vstd::prelude::*;

use crate::error::{Error, ErrorKind};
use crate::path::{
    ends_with, file_name, file_name_bounds, file_name_of, file_stem_of, last_index_from,
    lemma_last_index_bounds, lemma_lex_total, lemma_lex_trans, lex_le, lex_le_exec, matches_at,
    sort_name_of, sorted_by_file_name,
};
use crate::string_map::StringMap;

verus! {

/// Seconds that a script may run before it is killed, unless configured otherwise.
pub const DEFAULT_TIMEOUT: u64 = 20;

/// The suffix of a file stem that marks a fire-and-forget script.
pub const NOWAIT_SUFFIX: &'static str = "-nowait";

/// A script runs fire-and-forget when the stem of its file name ends with
/// `-nowait`; a path without a file name never does.
pub open spec fn is_nowait_path(path: Seq<char>) -> bool {
    match file_name_of(path) {
        Some(name) => ends_with(file_stem_of(name), NOWAIT_SUFFIX@),
        None => false,
    }
}

/// The owner that a script must have where none is configured: root.
pub const ROOT_ID: u32 = 0;

/// The permission bits that a script needs at least: read and execute for its owner.
pub const REQUIRED_MODE: u32 = 0o500;

/// A directory entry as discovery sees it: its path and what its metadata
/// (links followed) says.
#[derive(Debug)]
pub struct ScriptEntry {
    pub path: String,
    pub is_dir: bool,
    pub mode: u32,
    pub uid: u32,
    pub gid: u32,
}

/// The required owner id: the configured one, else root.
pub open spec fn required_id(id: Option<u32>) -> u32 {
    match id {
        Some(i) => i,
        None => ROOT_ID,
    }
}

/// An entry may run: it is no directory, its owner may read and execute it,
/// and it is owned by the required user and group.
pub open spec fn is_eligible(e: ScriptEntry, uid: u32, gid: u32) -> bool {
    &&& !e.is_dir
    &&& e.mode & REQUIRED_MODE == REQUIRED_MODE
    &&& e.uid == uid
    &&& e.gid == gid
}

/// Why discovery passes over an entry.
#[derive(Clone, Copy, Debug, PartialEq, Eq, Structural)]
pub enum SkipReason {
    /// It is a directory.
    Directory,
    /// Its owner may not read and execute it.
    NotExecutable,
    /// It is owned by another user.
    WrongOwner,
    /// It is owned by another group.
    WrongGroup,
}

/// The first check that `e` fails, in the order discovery makes them.
pub open spec fn skip_reason_of(e: ScriptEntry, uid: u32, gid: u32) -> Option<SkipReason> {
    if e.is_dir {
        Some(SkipReason::Directory)
    } else if e.mode & REQUIRED_MODE != REQUIRED_MODE {
        Some(SkipReason::NotExecutable)
    } else if e.uid != uid {
        Some(SkipReason::WrongOwner)
    } else if e.gid != gid {
        Some(SkipReason::WrongGroup)
    } else {
        None
    }
}

/// The paths of the eligible entries, in listing order.
pub open spec fn eligible_paths(entries: Seq<ScriptEntry>, uid: u32, gid: u32) -> Seq<Seq<char>>
    decreases entries.len(),
{
    if entries.len() == 0 {
        Seq::empty()
    } else {
        let rest = eligible_paths(entries.drop_last(), uid, gid);
        if is_eligible(entries.last(), uid, gid) {
            rest.push(entries.last().path@)
        } else {
            rest
        }
    }
}

/// What `Script::builder().set_path(path)` holds.
pub open spec fn fresh_builder(path: Seq<char>) -> ScriptBuilderView {
    ScriptBuilderView {
        path: path,
        arg0: Seq::empty(),
        arg1: Seq::empty(),
        envs: Map::empty(),
        default_timeout: DEFAULT_TIMEOUT,
    }
}

proof fn lemma_insert_to_multiset<A>(s: Seq<A>, p: int, x: A)
    requires
        0 <= p <= s.len(),
    ensures
        s.insert(p, x).to_multiset() =~= s.to_multiset().insert(x),
{
    broadcast use vstd::seq_lib::group_to_multiset_ensures, vstd::multiset::group_multiset_axioms;

    let t = s.insert(p, x);
    assert(t.remove(p) =~= s);
    assert(t[p] == x);
    assert(t.to_multiset().count(x) > 0) by {
        assert(t.contains(x));
    }
}

/// An environment variable for a script.
pub enum EnvVar {
    DeviceIface(String),
    BrokerAction(String),
    Json(String),
    /// A variable named `NWD_` followed by `key`.
    Custom { key: String, value: String },
}

pub open spec fn env_var_name(v: EnvVar) -> Seq<char> {
    match v {
        EnvVar::DeviceIface(_) => "NWD_DEVICE_IFACE"@,
        EnvVar::BrokerAction(_) => "NWD_BROKER_ACTION"@,
        EnvVar::Json(_) => "NWD_JSON"@,
        EnvVar::Custom { key, value: _ } => "NWD_"@ + key@,
    }
}

pub open spec fn env_var_value(v: EnvVar) -> Seq<char> {
    match v {
        EnvVar::DeviceIface(s) => s@,
        EnvVar::BrokerAction(s) => s@,
        EnvVar::Json(s) => s@,
        EnvVar::Custom { key: _, value } => value@,
    }
}

impl EnvVar {
    /// The variable's name.
    pub fn name(&self) -> (r: String)
        ensures
            r@ == env_var_name(*self),
    {
        match self {
            EnvVar::DeviceIface(_) => "NWD_DEVICE_IFACE".to_string(),
            EnvVar::BrokerAction(_) => "NWD_BROKER_ACTION".to_string(),
            EnvVar::Json(_) => "NWD_JSON".to_string(),
            EnvVar::Custom { key, value: _ } => {
                let mut s = "NWD_".to_string();
                s.append(key.as_str());
                s
            },
        }
    }

    /// The variable's value.
    pub fn value(self) -> (r: String)
        ensures
            r@ == env_var_value(self),
    {
        match self {
            EnvVar::DeviceIface(s) => s,
            EnvVar::BrokerAction(s) => s,
            EnvVar::Json(s) => s,
            EnvVar::Custom { key: _, value } => value,
        }
    }
}

/// What happened to a job's child process, as the launcher's worker saw it.
pub enum LaunchEvent {
    /// The child process started.
    Spawned,
    /// The child process could not be started; the reason.
    SpawnFailed(String),
    /// The child exited while the worker waited; its exit status.
    Exited(String),
    /// The timeout elapsed and the child still runs.
    TimedOut,
    /// The child was killed and reaped; its exit status.
    Reaped(String),
    /// Waiting for the child, or killing it, failed; the reason.
    WaitFailed(String),
}

/// What the launcher's worker does next with a job.
pub enum LaunchAction {
    /// Block until the child exits, for at most this many seconds.
    WaitAtMost(u64),
    /// Hand the child to a background waiter and go on with the next job.
    Detach,
    /// Kill the child and reap it.
    Terminate,
    /// The job is done; go on with the next one.
    Done,
    /// The job failed; report it and go on with the next one.
    Fail(Error),
}

/// What a script builder holds.
pub struct ScriptBuilderView {
    pub path: Seq<char>,
    pub arg0: Seq<char>,
    pub arg1: Seq<char>,
    pub envs: Map<Seq<char>, Seq<char>>,
    pub default_timeout: u64,
}

/// Collects the parts of a script job.
pub struct ScriptBuilder {
    path: String,
    /// The state, first argument of the script.
    arg0: String,
    /// The interface, second argument of the script.
    arg1: String,
    envs: StringMap,
    default_timeout: u64,
}

impl View for ScriptBuilder {
    type V = ScriptBuilderView;

    closed spec fn view(&self) -> ScriptBuilderView {
        ScriptBuilderView {
            path: self.path@,
            arg0: self.arg0@,
            arg1: self.arg1@,
            envs: self.envs@,
            default_timeout: self.default_timeout,
        }
    }
}

/// What a script job holds.
pub struct ScriptView {
    pub path: Seq<char>,
    pub args: Seq<Seq<char>>,
    pub envs: Map<Seq<char>, Seq<char>>,
    pub timeout: Option<u64>,
}

/// The job that a builder makes: a fire-and-forget script has no timeout.
pub open spec fn built_view(b: ScriptBuilderView) -> ScriptView {
    ScriptView {
        path: b.path,
        args: seq![b.arg0, b.arg1],
        envs: b.envs,
        timeout: if is_nowait_path(b.path) {
            None
        } else {
            Some(b.default_timeout)
        },
    }
}

/// A fully built script job: the executable, its two arguments, the
/// variables added to its environment, and its timeout (none for a
/// fire-and-forget script).
pub struct Script {
    path: String,
    args: Vec<String>,
    envs: StringMap,
    timeout: Option<u64>,
}

impl View for Script {
    type V = ScriptView;

    closed spec fn view(&self) -> ScriptView {
        ScriptView {
            path: self.path@,
            args: self.args@.map_values(|a: String| a@),
            envs: self.envs@,
            timeout: self.timeout,
        }
    }
}

impl ScriptBuilder {
    pub closed spec fn wf(&self) -> bool {
        self.envs.wf()
    }

    pub fn set_path(self, path: &str) -> (r: Self)
        requires
            self.wf(),
        ensures
            r.wf(),
            r@ == (ScriptBuilderView { path: path@, ..self@ }),
    {
        ScriptBuilder { path: path.to_string(), ..self }
    }

    pub fn set_arg0(self, state: &str) -> (r: Self)
        requires
            self.wf(),
        ensures
            r.wf(),
            r@ == (ScriptBuilderView { arg0: state@, ..self@ }),
    {
        ScriptBuilder { arg0: state.to_string(), ..self }
    }

    pub fn set_arg1(self, iface: &str) -> (r: Self)
        requires
            self.wf(),
        ensures
            r.wf(),
            r@ == (ScriptBuilderView { arg1: iface@, ..self@ }),
    {
        ScriptBuilder { arg1: iface.to_string(), ..self }
    }

    /// Adds a variable to the script's environment, replacing an earlier
    /// value of the same name.
    pub fn add_env(self, env_var: EnvVar) -> (r: Self)
        requires
            self.wf(),
        ensures
            r.wf(),
            r@ == (ScriptBuilderView {
                envs: self@.envs.insert(env_var_name(env_var), env_var_value(env_var)),
                ..self@
            }),
    {
        let mut b = self;
        let name = env_var.name();
        let value = env_var.value();
        b.envs.insert(name, value);
        b
    }

    pub fn set_default_timeout(self, timeout: u64) -> (r: Self)
        requires
            self.wf(),
        ensures
            r.wf(),
            r@ == (ScriptBuilderView { default_timeout: timeout, ..self@ }),
    {
        ScriptBuilder { default_timeout: timeout, ..self }
    }

    /// Makes the job: the arguments are the state and the interface, and the
    /// timeout is the default one unless the script is fire-and-forget.
    pub fn build(self) -> (r: Script)
        requires
            self.wf(),
        ensures
            r.wf(),
            r@ == built_view(self@),
    {
        let timeout = if ScriptBuilder::should_run_nowait(self.path.as_str()) {
            None
        } else {
            Some(self.default_timeout)
        };
        let mut args: Vec<String> = Vec::new();
        args.push(self.arg0);
        args.push(self.arg1);
        let r = Script { path: self.path, args, envs: self.envs, timeout };
        assert(r@.args =~= seq![self@.arg0, self@.arg1]);
        r
    }

    /// The scripts of a directory listing, ordered by file name: the entries
    /// that are no directory, that their owner may read and execute, and that
    /// are owned by `uid` and `gid` (root where not given).
    pub fn build_from(entries: Vec<ScriptEntry>, uid: Option<u32>, gid: Option<u32>) -> (r: Vec<
        ScriptBuilder,
    >)
        ensures
            forall|i: int|
                0 <= i < r@.len() ==> (#[trigger] r@[i]).wf() && r@[i]@ == fresh_builder(
                    r@[i]@.path,
                ),
            sorted_by_file_name(r@.map_values(|b: ScriptBuilder| b@.path)),
            r@.map_values(|b: ScriptBuilder| b@.path).to_multiset() == eligible_paths(
                entries@,
                required_id(uid),
                required_id(gid),
            ).to_multiset(),
    {
        let uid = match uid {
            Some(u) => u,
            None => ROOT_ID,
        };
        let gid = match gid {
            Some(g) => g,
            None => ROOT_ID,
        };
        let n = entries.len();
        // (file name, path), ordered by file name
        let mut sorted: Vec<(String, String)> = Vec::new();
        let mut k: usize = 0;
        proof {
            assert(sorted@.map_values(|t: (String, String)| t.1@) =~= Seq::empty());
            assert(entries@.subrange(0, 0) =~= Seq::empty());
        }
        while k < n
            invariant
                n == entries@.len(),
                0 <= k <= n,
                forall|i: int|
                    0 <= i < sorted@.len() ==> (#[trigger] sorted@[i]).0@ == sort_name_of(
                        sorted@[i].1@,
                    ),
                forall|i: int, j: int|
                    0 <= i < j < sorted@.len() ==> lex_le(
                        (#[trigger] sorted@[i]).0@,
                        (#[trigger] sorted@[j]).0@,
                    ),
                sorted@.map_values(|t: (String, String)| t.1@).to_multiset() == eligible_paths(
                    entries@.subrange(0, k as int),
                    uid,
                    gid,
                ).to_multiset(),
            decreases n - k,
        {
            let ghost before = entries@.subrange(0, k as int);
            proof {
                broadcast use vstd::seq_lib::group_to_multiset_ensures;

                let after = entries@.subrange(0, k + 1);
                assert(after.drop_last() =~= before);
                assert(after.last() == entries@[k as int]);
            }
            let e = &entries[k];
            if !e.is_dir && e.mode & REQUIRED_MODE == REQUIRED_MODE && e.uid == uid && e.gid
                == gid {
                let name = file_name(&e.path);
                let len = sorted.len();
                let mut p: usize = 0;
                while p < len && lex_le_exec(&sorted[p].0, &name)
                    invariant
                        len == sorted@.len(),
                        0 <= p <= len,
                        forall|i: int| 0 <= i < p ==> lex_le((#[trigger] sorted@[i]).0@, name@),
                    decreases len - p,
                {
                    p = p + 1;
                }
                proof {
                    if p < len {
                        lemma_lex_total(sorted@[p as int].0@, name@);
                        assert forall|j: int| p <= j < len implies lex_le(
                            name@,
                            (#[trigger] sorted@[j]).0@,
                        ) by {
                            if j > p {
                                lemma_lex_trans(name@, sorted@[p as int].0@, sorted@[j].0@);
                            }
                        }
                    }
                }
                let ghost old_sorted = sorted@;
                let path = e.path.clone();
                sorted.insert(p, (name, path));
                proof {
                    broadcast use vstd::seq_lib::group_to_multiset_ensures;

                    let f = |t: (String, String)| t.1@;
                    assert(old_sorted.insert(p as int, sorted@[p as int]) =~= sorted@);
                    assert(sorted@.map_values(f) =~= old_sorted.map_values(f).insert(
                        p as int,
                        e.path@,
                    ));
                    lemma_insert_to_multiset(old_sorted.map_values(f), p as int, e.path@);
                    assert forall|i: int, j: int| 0 <= i < j < sorted@.len() implies lex_le(
                        (#[trigger] sorted@[i]).0@,
                        (#[trigger] sorted@[j]).0@,
                    ) by {
                        if j < p {
                        } else if j == p {
                        } else if i < p {
                            assert(sorted@[j] == old_sorted[j - 1]);
                            lemma_lex_trans(sorted@[i].0@, name@, sorted@[j].0@);
                        } else if i == p {
                            assert(sorted@[j] == old_sorted[j - 1]);
                        } else {
                            assert(sorted@[i] == old_sorted[i - 1]);
                            assert(sorted@[j] == old_sorted[j - 1]);
                        }
                    }
                    assert forall|i: int| 0 <= i < sorted@.len() implies (#[trigger] sorted@[
                        i
                    ]).0@ == sort_name_of(sorted@[i].1@) by {
                        if i > p {
                            assert(sorted@[i] == old_sorted[i - 1]);
                        }
                    }
                }
            }
            k = k + 1;
        }
        proof {
            assert(entries@.subrange(0, n as int) =~= entries@);
        }
        let m = sorted.len();
        let mut r: Vec<ScriptBuilder> = Vec::new();
        let mut i: usize = 0;
        while i < m
            invariant
                m == sorted@.len(),
                0 <= i <= m,
                r@.len() == i,
                forall|j: int|
                    0 <= j < i ==> (#[trigger] r@[j]).wf() && r@[j]@ == fresh_builder(
                        sorted@[j].1@,
                    ),
            decreases m - i,
        {
            r.push(Script::builder().set_path(sorted[i].1.as_str()));
            i = i + 1;
        }
        proof {
            let f = |t: (String, String)| t.1@;
            let g = |b: ScriptBuilder| b@.path;
            assert(r@.map_values(g) =~= sorted@.map_values(f));
            assert forall|a: int, b: int|
                0 <= a < b < r@.map_values(g).len() implies lex_le(
                sort_name_of(#[trigger] r@.map_values(g)[a]),
                sort_name_of(#[trigger] r@.map_values(g)[b]),
            ) by {
                assert(lex_le(sorted@[a].0@, sorted@[b].0@));
            }
        }
        r
    }

    /// Why discovery passes over `entry`, or `None` where it may run; the
    /// owner is `uid` and `gid`, root where not given.
    pub fn skip_reason(entry: &ScriptEntry, uid: Option<u32>, gid: Option<u32>) -> (r: Option<
        SkipReason,
    >)
        ensures
            r == skip_reason_of(*entry, required_id(uid), required_id(gid)),
            r is None <==> is_eligible(*entry, required_id(uid), required_id(gid)),
    {
        let uid = match uid {
            Some(u) => u,
            None => ROOT_ID,
        };
        let gid = match gid {
            Some(g) => g,
            None => ROOT_ID,
        };
        if entry.is_dir {
            Some(SkipReason::Directory)
        } else if entry.mode & REQUIRED_MODE != REQUIRED_MODE {
            Some(SkipReason::NotExecutable)
        } else if entry.uid != uid {
            Some(SkipReason::WrongOwner)
        } else if entry.gid != gid {
            Some(SkipReason::WrongGroup)
        } else {
            None
        }
    }

    /// Whether the stem of the file name of `path` ends with `-nowait`.
    pub fn should_run_nowait(path: &str) -> (r: bool)
        ensures
            r == is_nowait_path(path@),
    {
        let n = path.unicode_len();
        let (start, e) = match file_name_bounds(path, n) {
            Some(bounds) => bounds,
            None => return false,
        };
        let ghost name = path@.subrange(start as int, e as int);
        let end = match last_index_from(path, e, '.', start) {
            Some(d) => if d > 0 {
                start + d
            } else {
                e
            },
            None => e,
        };
        proof {
            lemma_last_index_bounds(name, '.');
            assert(file_stem_of(name) =~= path@.subrange(start as int, end as int));
        }
        let suffix = NOWAIT_SUFFIX;
        let m = suffix.unicode_len();
        if end - start < m {
            return false;
        }
        let r = matches_at(path, n, end - m, suffix);
        proof {
            let stem = file_stem_of(name);
            assert(stem.subrange(stem.len() - m, stem.len() as int) =~= path@.subrange(
                end - m,
                end as int,
            ));
        }
        r
    }
}

impl Script {
    pub closed spec fn wf(&self) -> bool {
        self.envs.wf()
    }

    /// A builder with no path, empty arguments, no variables and the
    /// default timeout.
    pub fn builder() -> (r: ScriptBuilder)
        ensures
            r.wf(),
            r@ == (ScriptBuilderView {
                path: Seq::empty(),
                arg0: Seq::empty(),
                arg1: Seq::empty(),
                envs: Map::empty(),
                default_timeout: DEFAULT_TIMEOUT,
            }),
    {
        ScriptBuilder {
            path: String::new(),
            arg0: String::new(),
            arg1: String::new(),
            envs: StringMap::new(),
            default_timeout: DEFAULT_TIMEOUT,
        }
    }
    /// The worker's next step after `event`. A job with a timeout holds the
    /// worker until its child exits or the timeout elapses, then the child is
    /// killed and the job fails with a timeout; a fire-and-forget job is
    /// detached as soon as its child runs.
    pub fn on_event(&self, event: LaunchEvent) -> (r: LaunchAction)
        ensures
            match event {
                LaunchEvent::Spawned => match self@.timeout {
                    Some(t) => r matches LaunchAction::WaitAtMost(w) && w == t,
                    None => r is Detach,
                },
                LaunchEvent::SpawnFailed(m) => r matches LaunchAction::Fail(e) && e.kind
                    == ErrorKind::ExecuteFailed && e.detail == m,
                LaunchEvent::Exited(_) => r is Done,
                LaunchEvent::TimedOut => r is Terminate,
                LaunchEvent::Reaped(status) => r matches LaunchAction::Fail(e) && e.kind
                    == ErrorKind::ExecuteTimeout && e.detail == status,
                LaunchEvent::WaitFailed(m) => r matches LaunchAction::Fail(e) && e.kind
                    == ErrorKind::ExecuteFailed && e.detail == m,
            },
    {
        match event {
            LaunchEvent::Spawned => match self.timeout {
                Some(t) => LaunchAction::WaitAtMost(t),
                None => LaunchAction::Detach,
            },
            LaunchEvent::SpawnFailed(m) => LaunchAction::Fail(Error::new(ErrorKind::ExecuteFailed, m)),
            LaunchEvent::Exited(_) => LaunchAction::Done,
            LaunchEvent::TimedOut => LaunchAction::Terminate,
            LaunchEvent::Reaped(status) => LaunchAction::Fail(
                Error::new(ErrorKind::ExecuteTimeout, status),
            ),
            LaunchEvent::WaitFailed(m) => LaunchAction::Fail(Error::new(ErrorKind::ExecuteFailed, m)),
        }
    }
    /// The executable's path.
    pub fn path(&self) -> (r: &String)
        ensures
            r@ == self@.path,
    {
        &self.path
    }

    /// The arguments: the state, then the interface.
    pub fn args(&self) -> (r: &Vec<String>)
        ensures
            r@.map_values(|a: String| a@) == self@.args,
    {
        &self.args
    }

    /// The variables added to the script's environment.
    pub fn envs(&self) -> (r: &StringMap)
        requires
            self.wf(),
        ensures
            r.wf(),
            r@ == self@.envs,
    {
        &self.envs
    }

    /// How long the script may run; `None` for a fire-and-forget script.
    pub fn timeout(&self) -> (r: Option<u64>)
        ensures
            r == self@.timeout,
    {
        self.timeout
    }
}

} // verus!
