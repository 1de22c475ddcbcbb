use vstd::prelude::*;

use crate::environment::{script_env_name, ScriptEnvironment};
use crate::error::{Error, ErrorKind};
use crate::launcher::Launcher;
use crate::link::{event_of, LinkDetails, LinkEntry, LinkEvent};
use crate::path::sorted_by_file_name;
use crate::script::{
    eligible_paths, fresh_builder, is_nowait_path, EnvVar, Script, ScriptBuilder, ScriptEntry,
    ScriptView, ROOT_ID,
};
use crate::string_map::StringMap;

verus! {

/// A link of the service's listing with what was read of its description:
/// `details` is `None` where the description could not be fetched or read.
pub struct LinkDescription {
    pub link: LinkEntry,
    pub details: Option<LinkDetails>,
    pub raw: String,
}

/// Whether an event reporting `state` for `iface` is dispatched, given the
/// last state seen of each interface: only a change is.
pub open spec fn should_dispatch(
    cache: Map<Seq<char>, Seq<char>>,
    iface: Seq<char>,
    state: Seq<char>,
) -> bool {
    !(cache.contains_key(iface) && cache[iface] == state)
}

/// How many of `events` (interface, state) are dispatched, starting from `cache`.
pub open spec fn dispatch_count(
    cache: Map<Seq<char>, Seq<char>>,
    events: Seq<(Seq<char>, Seq<char>)>,
) -> nat
    decreases events.len(),
{
    if events.len() == 0 {
        0
    } else {
        let (iface, state) = events[0];
        (if should_dispatch(cache, iface, state) {
            1nat
        } else {
            0nat
        }) + dispatch_count(cache.insert(iface, state), events.drop_first())
    }
}

/// The cache after `events` (interface, state) were observed, in order.
pub open spec fn cache_after(
    cache: Map<Seq<char>, Seq<char>>,
    events: Seq<(Seq<char>, Seq<char>)>,
) -> Map<Seq<char>, Seq<char>>
    decreases events.len(),
{
    if events.len() == 0 {
        cache
    } else {
        cache_after(cache, events.drop_last()).insert(events.last().0, events.last().1)
    }
}

/// Whether the `k`-th of `events` is dispatched, starting from `cache`.
pub open spec fn is_dispatched(
    cache: Map<Seq<char>, Seq<char>>,
    events: Seq<(Seq<char>, Seq<char>)>,
    k: int,
) -> bool {
    should_dispatch(cache_after(cache, events.take(k)), events[k].0, events[k].1)
}

/// The state cache that a startup listing gives: later entries win.
pub open spec fn states_map(states: Seq<(String, String)>) -> Map<Seq<char>, Seq<char>>
    decreases states.len(),
{
    if states.len() == 0 {
        Map::empty()
    } else {
        states_map(states.drop_last()).insert(states.last().0@, states.last().1@)
    }
}

/// `<root>/<state>.d`, with no `/` doubled after the root.
pub open spec fn state_dir_of(root: Seq<char>, state: Seq<char>) -> Seq<char> {
    let dir = state + ".d"@;
    if root.len() == 0 || root.last() == '/' {
        root + dir
    } else {
        root + "/"@ + dir
    }
}

/// The three variables that every script receives for `event`.
pub open spec fn event_envs(event: LinkEvent) -> Map<Seq<char>, Seq<char>> {
    Map::empty().insert(script_env_name(ScriptEnvironment::DeviceIface), event.iface@).insert(
        script_env_name(ScriptEnvironment::BrokerAction),
        event.state@,
    ).insert(script_env_name(ScriptEnvironment::Json), event.link_details_json@)
}

/// The job of the script at `path` for `event`: arguments state and
/// interface, the event's variables, and `timeout` unless it is fire-and-forget.
pub open spec fn job_view(path: Seq<char>, event: LinkEvent, timeout: u64) -> ScriptView {
    ScriptView {
        path: path,
        args: seq![event.state@, event.iface@],
        envs: event_envs(event),
        timeout: if is_nowait_path(path) {
            None
        } else {
            Some(timeout)
        },
    }
}

/// The paths of a sequence of jobs.
pub open spec fn jobs_paths_of(jobs: Seq<ScriptView>) -> Seq<Seq<char>> {
    jobs.map_values(|v: ScriptView| v.path)
}

/// `jobs` are the jobs for `event` given the listing `entries` of its state's
/// script directory: one per eligible script (owned by `uid` and `gid`),
/// ordered by file name, each with the event's arguments and variables and
/// `timeout` unless it is fire-and-forget.
pub open spec fn jobs_of_event(
    jobs: Seq<ScriptView>,
    event: LinkEvent,
    entries: Seq<ScriptEntry>,
    uid: u32,
    gid: u32,
    timeout: u64,
) -> bool {
    &&& forall|i: int|
        0 <= i < jobs.len() ==> #[trigger] jobs[i] == job_view(jobs[i].path, event, timeout)
    &&& sorted_by_file_name(jobs_paths_of(jobs))
    &&& jobs_paths_of(jobs).to_multiset() == eligible_paths(entries, uid, gid).to_multiset()
}

/// The jobs of `jobs` that the queue accepted, in order: `accepted[i]` says
/// whether it accepted `jobs[i]`.
pub open spec fn accepted_jobs(jobs: Seq<ScriptView>, accepted: Seq<bool>) -> Seq<ScriptView>
    decreases jobs.len(),
{
    if jobs.len() == 0 || accepted.len() == 0 {
        Seq::empty()
    } else {
        let rest = accepted_jobs(jobs.drop_last(), accepted.drop_last());
        if accepted.last() {
            rest.push(jobs.last())
        } else {
            rest
        }
    }
}

/// How many of `accepted` are refusals.
pub open spec fn refusals(accepted: Seq<bool>) -> nat
    decreases accepted.len(),
{
    if accepted.len() == 0 {
        0
    } else {
        refusals(accepted.drop_last()) + if accepted.last() {
            0nat
        } else {
            1nat
        }
    }
}

/// The outcome of submitting the jobs for `event`, one after the other: the
/// queue took `queued`, exactly the accepted ones of `jobs` in order, and
/// `failures` of them were refused.
pub open spec fn submission_of(
    jobs: Seq<ScriptView>,
    accepted: Seq<bool>,
    queued: Seq<ScriptView>,
    failures: nat,
) -> bool {
    &&& accepted.len() == jobs.len()
    &&& queued == accepted_jobs(jobs, accepted)
    &&& failures == refusals(accepted)
}

/// Every link of a startup listing had its description read.
pub open spec fn initial_states_ok(descs: Seq<LinkDescription>) -> bool {
    forall|i: int| 0 <= i < descs.len() ==> (#[trigger] descs[i]).details is Some
}

/// The events of a startup pass: one per link whose description was read,
/// in listing order.
pub open spec fn startup_events_of(descs: Seq<LinkDescription>) -> Seq<LinkEvent>
    decreases descs.len(),
{
    if descs.len() == 0 {
        Seq::empty()
    } else {
        let rest = startup_events_of(descs.drop_last());
        let d = descs.last();
        match event_of(d.link, d.link.path, d.details, d.raw) {
            Some(e) => rest.push(e),
            None => rest,
        }
    }
}

proof fn lemma_state_kept(
    cache: Map<Seq<char>, Seq<char>>,
    events: Seq<(Seq<char>, Seq<char>)>,
    j: int,
    m: int,
)
    requires
        0 <= j < m <= events.len(),
        forall|x: int|
            j < x < m && (#[trigger] events[x]).0 == events[j].0 ==> events[x].1 == events[j].1,
    ensures
        cache_after(cache, events.take(m)).contains_key(events[j].0),
        cache_after(cache, events.take(m))[events[j].0] == events[j].1,
    decreases m - j,
{
    assert(events.take(m).drop_last() =~= events.take(m - 1));
    assert(events.take(m).last() == events[m - 1]);
    if m - 1 > j {
        lemma_state_kept(cache, events, j, m - 1);
    }
}

/// A notification is dispatched at most once per interface and state until
/// that interface reports another state: where the `j`-th and the `k`-th
/// events are the same and no event in between gives that interface another
/// state, the `k`-th is not dispatched.
pub proof fn lemma_no_dispatch_until_state_changes(
    cache: Map<Seq<char>, Seq<char>>,
    events: Seq<(Seq<char>, Seq<char>)>,
    j: int,
    k: int,
)
    requires
        0 <= j < k < events.len(),
        events[j] == events[k],
        forall|x: int|
            j < x < k && (#[trigger] events[x]).0 == events[k].0 ==> events[x].1 == events[k].1,
    ensures
        !is_dispatched(cache, events, k),
{
    lemma_state_kept(cache, events, j, k);
}

proof fn lemma_repeats_after_seen(
    cache: Map<Seq<char>, Seq<char>>,
    iface: Seq<char>,
    state: Seq<char>,
    n: nat,
)
    requires
        cache.contains_key(iface),
        cache[iface] == state,
    ensures
        dispatch_count(cache, Seq::new(n, |_i: int| (iface, state))) == 0,
    decreases n,
{
    let events = Seq::new(n, |_i: int| (iface, state));
    if n > 0 {
        assert(cache.insert(iface, state) =~= cache);
        assert(events.drop_first() =~= Seq::new((n - 1) as nat, |_i: int| (iface, state)));
        lemma_repeats_after_seen(cache, iface, state, (n - 1) as nat);
    }
}

/// Notifications that report the same interface and state over and over are
/// dispatched at most once: once where that state is not the one last seen
/// of the interface, never where it is.
pub proof fn lemma_repeats_dispatch_at_most_once(
    cache: Map<Seq<char>, Seq<char>>,
    iface: Seq<char>,
    state: Seq<char>,
    n: nat,
)
    requires
        n >= 1,
    ensures
        dispatch_count(cache, Seq::new(n, |_i: int| (iface, state))) == (if should_dispatch(
            cache,
            iface,
            state,
        ) {
            1nat
        } else {
            0nat
        }),
{
    let events = Seq::new(n, |_i: int| (iface, state));
    assert(events.drop_first() =~= Seq::new((n - 1) as nat, |_i: int| (iface, state)));
    lemma_repeats_after_seen(cache.insert(iface, state), iface, state, (n - 1) as nat);
}

/// Where every link's description reads, the startup pass has one event per
/// link, in listing order, each with the link's current state.
pub proof fn lemma_startup_pass_complete(descs: Seq<LinkDescription>)
    requires
        forall|i: int|
            0 <= i < descs.len() ==> (event_of(
                (#[trigger] descs[i]).link,
                descs[i].link.path,
                descs[i].details,
                descs[i].raw,
            ) is Some),
    ensures
        startup_events_of(descs).len() == descs.len(),
        forall|i: int|
            0 <= i < descs.len() ==> Some(#[trigger] startup_events_of(descs)[i]) == event_of(
                descs[i].link,
                descs[i].link.path,
                descs[i].details,
                descs[i].raw,
            ),
    decreases descs.len(),
{
    if descs.len() > 0 {
        let rest = descs.drop_last();
        assert forall|i: int| 0 <= i < rest.len() implies (event_of(
            (#[trigger] rest[i]).link,
            rest[i].link.path,
            rest[i].details,
            rest[i].raw,
        ) is Some) by {
            assert(rest[i] == descs[i]);
        }
        lemma_startup_pass_complete(rest);
        assert forall|i: int| 0 <= i < descs.len() implies Some(
            #[trigger] startup_events_of(descs)[i],
        ) == event_of(descs[i].link, descs[i].link.path, descs[i].details, descs[i].raw) by {
            if i < rest.len() {
                assert(rest[i] == descs[i]);
            }
        }
    }
}

/// A link whose description fails is skipped and nothing else changes: the
/// startup pass is the pass over the listing without that link.
pub proof fn lemma_startup_failure_skips_only_that_link(descs: Seq<LinkDescription>, k: int)
    requires
        0 <= k < descs.len(),
        event_of(descs[k].link, descs[k].link.path, descs[k].details, descs[k].raw) is None,
    ensures
        startup_events_of(descs) == startup_events_of(descs.remove(k)),
    decreases descs.len(),
{
    if k == descs.len() - 1 {
        assert(descs.remove(k) =~= descs.drop_last());
    } else {
        let rest = descs.drop_last();
        assert(rest[k] == descs[k]);
        lemma_startup_failure_skips_only_that_link(rest, k);
        assert(descs.remove(k).drop_last() =~= rest.remove(k));
        assert(descs.remove(k).last() == descs.last());
    }
}

/// Turns link state changes into script jobs for the launcher.
pub struct Broker {
    script_root_dir: String,
    script_timeout: u64,
    script_uid: u32,
    script_gid: u32,
    launcher: Launcher,
    link_state_cache: StringMap,
}

impl Broker {
    pub closed spec fn wf(&self) -> bool {
        self.link_state_cache.wf()
    }

    /// The last state seen of each interface.
    pub closed spec fn cache(&self) -> Map<Seq<char>, Seq<char>> {
        self.link_state_cache@
    }

    /// The directory under which each state has its script directory.
    pub closed spec fn root(&self) -> Seq<char> {
        self.script_root_dir@
    }

    /// The timeout of scripts that are waited for.
    pub closed spec fn timeout(&self) -> u64 {
        self.script_timeout
    }

    /// The user that scripts must be owned by.
    pub closed spec fn uid(&self) -> u32 {
        self.script_uid
    }

    /// The group that scripts must be owned by.
    pub closed spec fn gid(&self) -> u32 {
        self.script_gid
    }

    /// The jobs that the launcher's queue accepted so far, in order.
    pub closed spec fn submitted(&self) -> Seq<ScriptView> {
        self.launcher.submitted()
    }

    /// The settings stay as they were.
    pub open spec fn same_settings(&self, other: &Broker) -> bool {
        &&& self.root() == other.root()
        &&& self.timeout() == other.timeout()
        &&& self.uid() == other.uid()
        &&& self.gid() == other.gid()
    }

    /// Scripts must from now on be owned by `uid` and `gid` (root by default).
    pub fn set_script_owner(&mut self, uid: u32, gid: u32)
        requires
            old(self).wf(),
        ensures
            final(self).wf(),
            final(self).uid() == uid,
            final(self).gid() == gid,
            final(self).root() == old(self).root(),
            final(self).timeout() == old(self).timeout(),
            final(self).cache() == old(self).cache(),
            final(self).submitted() == old(self).submitted(),
    {
        self.script_uid = uid;
        self.script_gid = gid;
    }

    /// The user and group that scripts must be owned by.
    pub fn script_owner(&self) -> (r: (u32, u32))
        ensures
            r == (self.uid(), self.gid()),
    {
        (self.script_uid, self.script_gid)
    }

    /// A broker whose state cache holds `link_states`, pairs of interface
    /// and operational state as the service lists them at startup.
    pub fn new(
        script_root_dir: String,
        script_timeout: u64,
        launcher: Launcher,
        link_states: Vec<(String, String)>,
    ) -> (r: Broker)
        ensures
            r.wf(),
            r.cache() == states_map(link_states@),
            r.root() == script_root_dir@,
            r.timeout() == script_timeout,
            r.uid() == ROOT_ID,
            r.gid() == ROOT_ID,
            r.submitted() == launcher.submitted(),
    {
        let mut cache = StringMap::new();
        let mut states = link_states;
        let ghost all = states@;
        let ghost mut taken: Seq<(String, String)> = Seq::empty();
        while states.len() > 0
            invariant
                cache.wf(),
                all == taken + states@,
                cache@ == states_map(taken),
            decreases states.len(),
        {
            let (iface, state) = states.remove(0);
            proof {
                let pair = (iface, state);
                assert(taken.push(pair).drop_last() =~= taken);
                taken = taken.push(pair);
                assert(all =~= taken + states@);
            }
            cache.insert(iface, state);
        }
        proof {
            assert(taken =~= all);
        }
        Broker {
            script_root_dir,
            script_timeout,
            script_uid: ROOT_ID,
            script_gid: ROOT_ID,
            launcher,
            link_state_cache: cache,
        }
    }

    /// Records the state of `event` in the cache, and says whether it is a
    /// change, which is dispatched, or a repeat of the last state seen of that
    /// interface, which is not.
    pub fn observe(&mut self, event: &LinkEvent) -> (r: bool)
        requires
            old(self).wf(),
        ensures
            final(self).wf(),
            r == should_dispatch(old(self).cache(), event.iface@, event.state@),
            final(self).cache() == old(self).cache().insert(event.iface@, event.state@),
            final(self).same_settings(&*old(self)),
            final(self).submitted() == old(self).submitted(),
    {
        let r = match self.link_state_cache.get(event.iface.as_str()) {
            Some(previous) => *previous != event.state,
            None => true,
        };
        proof {
            if !r {
                assert(self.cache().insert(event.iface@, event.state@) =~= self.cache());
            }
        }
        if r {
            self.link_state_cache.insert(event.iface.clone(), event.state.clone());
        }
        r
    }

    /// The directory that holds the scripts of `state`.
    pub fn script_dir(&self, state: &String) -> (r: String)
        ensures
            r@ == state_dir_of(self.root(), state@),
    {
        let mut dir = state.clone();
        dir.append(".d");
        let n = self.script_root_dir.as_str().unicode_len();
        let mut r = self.script_root_dir.clone();
        if n > 0 && self.script_root_dir.as_str().get_char(n - 1) != '/' {
            r.append("/");
        }
        r.append(dir.as_str());
        r
    }

    /// The jobs for `event`, given the listing of its state's script
    /// directory: one per eligible script (owned by the configured user and
    /// group), ordered by file name, each with the event's arguments and
    /// variables.
    pub fn jobs_for(&self, event: &LinkEvent, entries: Vec<ScriptEntry>) -> (r: Vec<Script>)
        ensures
            forall|i: int| 0 <= i < r@.len() ==> (#[trigger] r@[i]).wf(),
            jobs_of_event(
                r@.map_values(|s: Script| s@),
                *event,
                entries@,
                self.uid(),
                self.gid(),
                self.timeout(),
            ),
    {
        let mut builders = ScriptBuilder::build_from(
            entries,
            Some(self.script_uid),
            Some(self.script_gid),
        );
        let ghost all = builders@;
        let n = builders.len();
        let mut r: Vec<Script> = Vec::new();
        let mut i: usize = 0;
        while i < n
            invariant
                n == all.len(),
                0 <= i <= n,
                builders@ == all.subrange(i as int, n as int),
                r@.len() == i,
                forall|j: int|
                    0 <= j < n ==> (#[trigger] all[j]).wf() && all[j]@ == fresh_builder(
                        all[j]@.path,
                    ),
                forall|j: int|
                    0 <= j < i ==> (#[trigger] r@[j]).wf() && r@[j]@ == job_view(
                        all[j]@.path,
                        *event,
                        self.timeout(),
                    ),
            decreases n - i,
        {
            let b = builders.remove(0);
            proof {
                assert(b == all[i as int]);
                assert(builders@ =~= all.subrange(i + 1, n as int));
            }
            let job = b.set_arg0(event.state.as_str()).set_arg1(event.iface.as_str()).add_env(
                EnvVar::DeviceIface(event.iface.clone()),
            ).add_env(EnvVar::BrokerAction(event.state.clone())).add_env(
                EnvVar::Json(event.link_details_json.clone()),
            ).set_default_timeout(self.script_timeout).build();
            proof {
                reveal_strlit("NWD_DEVICE_IFACE");
                reveal_strlit("NWD_BROKER_ACTION");
                reveal_strlit("NWD_JSON");
                assert(job@.envs =~= event_envs(*event));
                assert(job@.args =~= seq![event.state@, event.iface@]);
            }
            r.push(job);
            i = i + 1;
        }
        proof {
            let g = |b: ScriptBuilder| b@.path;
            let v = r@.map_values(|s: Script| s@);
            assert(jobs_paths_of(v) =~= all.map_values(g));
            assert forall|j: int| 0 <= j < v.len() implies #[trigger] v[j] == job_view(
                v[j].path,
                *event,
                self.timeout(),
            ) by {
                assert(r@[j]@.path == all[j]@.path);
            }
        }
        r
    }

    /// Builds the jobs for `event` and submits each to the launcher, in
    /// order. A job that the launcher refuses does not stop the others; the
    /// refusals are returned.
    pub fn respond(&mut self, event: &LinkEvent, entries: Vec<ScriptEntry>) -> (r: Vec<Error>)
        requires
            old(self).wf(),
        ensures
            final(self).wf(),
            final(self).cache() == old(self).cache(),
            final(self).same_settings(&*old(self)),
            final(self).submitted().len() >= old(self).submitted().len(),
            final(self).submitted().subrange(0, old(self).submitted().len() as int) == old(
                self,
            ).submitted(),
            exists|jobs: Seq<ScriptView>, accepted: Seq<bool>|
                #[trigger] submission_of(
                    jobs,
                    accepted,
                    final(self).submitted().subrange(
                        old(self).submitted().len() as int,
                        final(self).submitted().len() as int,
                    ),
                    r@.len(),
                ) && jobs_of_event(
                    jobs,
                    *event,
                    entries@,
                    old(self).uid(),
                    old(self).gid(),
                    old(self).timeout(),
                ),
            forall|i: int| 0 <= i < r@.len() ==> (#[trigger] r@[i]).kind == ErrorKind::SubmitFailed,
    {
        let ghost before = self.submitted();
        let mut jobs = self.jobs_for(event, entries);
        let ghost all = jobs@.map_values(|s: Script| s@);
        let ghost mut accepted: Seq<bool> = Seq::empty();
        let n = jobs.len();
        let mut failures: Vec<Error> = Vec::new();
        let mut i: usize = 0;
        while i < n
            invariant
                n == all.len(),
                0 <= i <= n,
                jobs@.map_values(|s: Script| s@) == all.subrange(i as int, n as int),
                jobs@.len() == n - i,
                self.wf(),
                self.cache() == old(self).cache(),
                self.same_settings(&*old(self)),
                accepted.len() == i,
                self.submitted() == before + accepted_jobs(all.take(i as int), accepted),
                failures@.len() == refusals(accepted),
                forall|j: int|
                    0 <= j < failures@.len() ==> (#[trigger] failures@[j]).kind
                        == ErrorKind::SubmitFailed,
            decreases n - i,
        {
            let ghost rest = jobs@;
            let job = jobs.remove(0);
            proof {
                assert(rest.map_values(|s: Script| s@)[0] == all[i as int]);
                assert(job@ == all[i as int]);
                assert forall|k: int| 0 <= k < jobs@.len() implies #[trigger] jobs@[k]@ == all[i + 1
                    + k] by {
                    assert(jobs@[k] == rest[k + 1]);
                    assert(rest.map_values(|s: Script| s@)[k + 1] == all[i + 1 + k]);
                }
                assert(jobs@.map_values(|s: Script| s@) =~= all.subrange(i + 1, n as int));
            }
            let ghost sub = self.submitted();
            let ok = match self.launcher.add(job) {
                Ok(()) => true,
                Err(e) => {
                    failures.push(e);
                    false
                },
            };
            proof {
                let taken = all.take(i + 1);
                assert(taken.drop_last() =~= all.take(i as int));
                assert(taken.last() == all[i as int]);
                assert(accepted.push(ok).drop_last() =~= accepted);
                accepted = accepted.push(ok);
                if ok {
                    assert(self.submitted() =~= before + accepted_jobs(taken, accepted));
                }
            }
            i = i + 1;
        }
        proof {
            let fin = self.submitted();
            assert(all.take(n as int) =~= all);
            assert(fin.subrange(0, before.len() as int) =~= before);
            assert(fin.subrange(before.len() as int, fin.len() as int) =~= accepted_jobs(
                all,
                accepted,
            ));
            assert(submission_of(
                all,
                accepted,
                fin.subrange(before.len() as int, fin.len() as int),
                failures@.len(),
            ));
        }
        failures
    }

    /// The state cache of a startup listing: each link's interface and
    /// operational state, in listing order. It fails where the description
    /// of a link could not be read.
    pub fn initial_states(descs: Vec<LinkDescription>) -> (r: Result<
        Vec<(String, String)>,
        Error,
    >)
        ensures
            r is Ok <==> initial_states_ok(descs@),
            r matches Ok(v) ==> v@.len() == descs@.len() && forall|i: int|
                0 <= i < v@.len() ==> (#[trigger] v@[i]).0@ == descs@[i].link.name@ && v@[i].1@
                    == descs@[i].details.unwrap().operational_state@,
            r matches Err(e) ==> e.kind == ErrorKind::AttributeParseFailed,
    {
        let mut rest = descs;
        let ghost all = rest@;
        let ghost mut done: Seq<LinkDescription> = Seq::empty();
        let mut states: Vec<(String, String)> = Vec::new();
        while rest.len() > 0
            invariant
                all == descs@,
                all == done + rest@,
                initial_states_ok(done),
                states@.len() == done.len(),
                forall|i: int|
                    0 <= i < states@.len() ==> (#[trigger] states@[i]).0@ == done[i].link.name@
                        && states@[i].1@ == done[i].details.unwrap().operational_state@,
            decreases rest.len(),
        {
            let d = rest.remove(0);
            proof {
                done = done.push(d);
                assert(all =~= done + rest@);
                assert(all[done.len() - 1] == d);
            }
            match d.details {
                Some(details) => states.push((d.link.name, details.operational_state)),
                None => {
                    proof {
                        let k = done.len() - 1;
                        assert(all[k].details is None);
                        assert(!initial_states_ok(all));
                    }
                    return Err(Error::new(ErrorKind::AttributeParseFailed, d.link.name));
                },
            }
        }
        proof {
            assert(done =~= all);
        }
        Ok(states)
    }

    /// The events of the startup pass, which makes scripts reflect the state
    /// that links already have: one event per link, with its current state,
    /// for every link whose description could be read. A link whose
    /// description failed is skipped; the others still get their events.
    pub fn startup_events(descs: Vec<LinkDescription>) -> (r: Vec<LinkEvent>)
        ensures
            r@ == startup_events_of(descs@),
    {
        let mut rest = descs;
        let ghost all = rest@;
        let ghost mut done: Seq<LinkDescription> = Seq::empty();
        let mut r: Vec<LinkEvent> = Vec::new();
        while rest.len() > 0
            invariant
                all == done + rest@,
                r@ == startup_events_of(done),
            decreases rest.len(),
        {
            let d = rest.remove(0);
            proof {
                assert(done.push(d).drop_last() =~= done);
                done = done.push(d);
                assert(all =~= done + rest@);
            }
            let path = d.link.path.clone();
            match LinkEvent::new(&d.link, path, d.details, d.raw) {
                Ok(e) => r.push(e),
                Err(_) => {},
            }
        }
        proof {
            assert(done =~= all);
        }
        r
    }
}

} // verus!
