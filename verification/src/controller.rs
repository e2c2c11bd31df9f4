//! The runtime controller: the actor that owns the table of supervised
//! backend processes.
//!
//! The controller consumes one control message at a time, strictly in arrival
//! order; every mutation of the runtime table happens here and nowhere else.
//! It performs no I/O itself: each message handler returns the actions the
//! shell must carry out (spawn a process, deliver a reply, arm a restart
//! timer, stop everything), and the shell feeds the outcomes back as further
//! messages.
//!
//! Each handler's contract is one clause of the `*_step` transition relation
//! over the controller's mathematical model; the laws at the end of the
//! module are proved from those relations alone.

use vstd::prelude::*;
use crate::errors::UriError;
use crate::protocol::{Action, ActionModel, ControlMessage, MsgModel};

verus! {

/// Lifecycle state of one supervised runtime process.
#[derive(Clone, Copy, Debug, PartialEq, Eq, Structural)]
pub enum Status {
    /// A spawn was requested; the endpoint is not bound yet.
    Starting,
    /// The process is serving on its recorded endpoint.
    Ready,
    /// The process exited; a restart is scheduled.
    Crashed,
    /// Not running and no restart owed (never started, restart budget
    /// exhausted, or shutdown).
    Stopped,
}

/// What the controller does when the filesystem watcher reports a change
/// under the pipeline's backing directory.
#[derive(Clone, Copy, Debug, PartialEq, Eq, Structural)]
pub enum FsPolicy {
    /// Take no action.
    Ignore,
    /// Restart every declared runtime (a reload).
    RestartAll,
    /// Shut the gateway down orderly.
    Shutdown,
}

/// Supervised state of one declared runtime.
pub struct RuntimeEntry {
    /// The configured name; the key of the runtime table.
    pub name: String,
    pub status: Status,
    /// The live endpoint, known exactly while the process is `Ready`.
    pub endpoint: Option<String>,
    /// Counts the spawns of this runtime; readiness and exit reports carry
    /// the generation they belong to, so a report from a replaced process is
    /// recognized as stale and ignored.
    pub generation: u64,
    /// Consecutive failed spawns; reset when the process becomes ready.
    pub failures: u64,
    /// Every endpoint this runtime has ever served. A readiness report that
    /// reuses one of them is rejected as stale, so an endpoint resolved after
    /// a restart is never one served before it.
    pub served: Vec<String>,
}

/// `RuntimeEntry` with its strings abstracted to sequences.
pub struct EntryModel {
    pub name: Seq<char>,
    pub status: Status,
    pub endpoint: Option<Seq<char>>,
    pub generation: u64,
    pub failures: u64,
    pub served: Seq<Seq<char>>,
}

impl View for RuntimeEntry {
    type V = EntryModel;

    open spec fn view(&self) -> EntryModel {
        EntryModel {
            name: self.name@,
            status: self.status,
            endpoint: self.endpoint.deep_view(),
            generation: self.generation,
            failures: self.failures,
            served: self.served.deep_view(),
        }
    }
}

impl DeepView for RuntimeEntry {
    type V = EntryModel;

    open spec fn deep_view(&self) -> EntryModel {
        self.view()
    }
}

/// One parked endpoint-discovery query, waiting for its runtime to become
/// ready (or to be given up on).
pub struct Waiter {
    pub req_id: u64,
    pub name: String,
}

/// `Waiter` with its string abstracted to a sequence.
pub struct WaiterModel {
    pub req_id: u64,
    pub name: Seq<char>,
}

impl View for Waiter {
    type V = WaiterModel;

    open spec fn view(&self) -> WaiterModel {
        WaiterModel { req_id: self.req_id, name: self.name@ }
    }
}

impl DeepView for Waiter {
    type V = WaiterModel;

    open spec fn deep_view(&self) -> WaiterModel {
        self.view()
    }
}

/// The controller's whole state: the runtime table, the parked queries, the
/// shutdown flag and the restart policy from the configuration.
pub struct Controller {
    pub entries: Vec<RuntimeEntry>,
    pub pending: Vec<Waiter>,
    pub shutting_down: bool,
    /// How many consecutive failures of one runtime are restarted before it
    /// is marked permanently stopped.
    pub restart_limit: u64,
    /// The backoff delay, in the shell's clock units, between a crash and the
    /// respawn.
    pub restart_delay: u64,
    pub fs_policy: FsPolicy,
}

/// `Controller` with its strings abstracted to sequences.
pub struct ControllerModel {
    pub entries: Seq<EntryModel>,
    pub pending: Seq<WaiterModel>,
    pub shutting_down: bool,
    pub restart_limit: u64,
    pub restart_delay: u64,
    pub fs_policy: FsPolicy,
}

impl View for Controller {
    type V = ControllerModel;

    open spec fn view(&self) -> ControllerModel {
        ControllerModel {
            entries: self.entries.deep_view(),
            pending: self.pending.deep_view(),
            shutting_down: self.shutting_down,
            restart_limit: self.restart_limit,
            restart_delay: self.restart_delay,
            fs_policy: self.fs_policy,
        }
    }
}

/// Whether some entry of the table bears `name`.
pub open spec fn declared(es: Seq<EntryModel>, name: Seq<char>) -> bool {
    exists|i: int| 0 <= i < es.len() && es[i].name == name
}

/// The index of the entry bearing `name`; meaningful when `declared` holds
/// and names are unique.
pub open spec fn idx_of(es: Seq<EntryModel>, name: Seq<char>) -> int {
    choose|i: int| 0 <= i < es.len() && es[i].name == name
}

/// Well-formedness of the runtime table: names are unique keys; an entry has
/// an endpoint exactly while it is ready, and never an empty one; a crashed
/// entry can still count one more spawn.
pub open spec fn entries_wf(es: Seq<EntryModel>) -> bool {
    &&& (forall|a: int, b: int|
        0 <= a < b < es.len() ==> (#[trigger] es[a]).name != (#[trigger] es[b]).name)
    &&& (forall|i: int|
        0 <= i < es.len() ==> ((#[trigger] es[i]).status is Ready <==> es[i].endpoint is Some))
    &&& (forall|i: int|
        0 <= i < es.len() ==> ((#[trigger] es[i]).endpoint matches Some(ep) ==> ep.len() > 0))
    &&& (forall|i: int|
        0 <= i < es.len() ==> ((#[trigger] es[i]).status is Crashed ==> es[i].generation
            < u64::MAX))
    &&& (forall|i: int|
        0 <= i < es.len() ==> ((#[trigger] es[i]).endpoint matches Some(ep) ==> es[i].served.contains(
            ep,
        )))
}

impl Controller {
    pub open spec fn wf(&self) -> bool {
        entries_wf(self@.entries)
    }
}

/// The generation of the next spawn of an entry. The counter is exhausted at
/// the top of its range; the entry is then treated as out of restart budget
/// rather than given a reused generation.
pub open spec fn next_gen(g: u64) -> u64 {
    if g < u64::MAX {
        (g + 1) as u64
    } else {
        g
    }
}

/// An entry the moment its next spawn is requested: starting, endpoint not
/// yet known.
pub open spec fn respawned(e: EntryModel) -> EntryModel {
    EntryModel {
        name: e.name,
        status: Status::Starting,
        endpoint: None,
        generation: next_gen(e.generation),
        failures: e.failures,
        served: e.served,
    }
}

/// An entry after its process reported ready on `ep`: the endpoint is served
/// and remembered, so it can never be accepted again after a later restart.
pub open spec fn made_ready(e: EntryModel, ep: Seq<char>) -> EntryModel {
    EntryModel {
        name: e.name,
        status: Status::Ready,
        endpoint: Some(ep),
        generation: e.generation,
        failures: 0,
        served: e.served.push(ep),
    }
}

/// An entry after a crash that is still within the restart budget.
pub open spec fn crashed_once(e: EntryModel) -> EntryModel {
    EntryModel {
        name: e.name,
        status: Status::Crashed,
        endpoint: None,
        generation: e.generation,
        failures: (e.failures + 1) as u64,
        served: e.served,
    }
}

/// An entry taken out of service for good.
pub open spec fn made_stopped(e: EntryModel) -> EntryModel {
    EntryModel {
        name: e.name,
        status: Status::Stopped,
        endpoint: None,
        generation: e.generation,
        failures: e.failures,
        served: e.served,
    }
}

/// Every entry respawned, as `StartAll` and a reload leave the table.
pub open spec fn all_respawned(es: Seq<EntryModel>) -> Seq<EntryModel> {
    Seq::new(es.len(), |i: int| respawned(es[i]))
}

/// Every entry stopped, as shutdown leaves the table.
pub open spec fn all_stopped(es: Seq<EntryModel>) -> Seq<EntryModel> {
    Seq::new(es.len(), |i: int| made_stopped(es[i]))
}

/// One spawn action per entry, in table order, carrying the fresh
/// generations.
pub open spec fn spawn_actions(es: Seq<EntryModel>) -> Seq<ActionModel> {
    Seq::new(
        es.len(),
        |i: int| ActionModel::Spawn { name: es[i].name, generation: next_gen(es[i].generation) },
    )
}

/// The parked queries waiting for `name`.
pub open spec fn waiters_for(p: Seq<WaiterModel>, name: Seq<char>) -> Seq<WaiterModel> {
    p.filter(|w: WaiterModel| w.name == name)
}

/// The parked queries except those waiting for `name`.
pub open spec fn without_waiters(p: Seq<WaiterModel>, name: Seq<char>) -> Seq<WaiterModel> {
    p.filter(|w: WaiterModel| w.name != name)
}

/// One reply per waiter, in parking order, each carrying the waiter's own
/// correlation identifier.
pub open spec fn replies_to(ws: Seq<WaiterModel>, reply: Result<Seq<char>, UriError>) -> Seq<
    ActionModel,
> {
    ws.map_values(|w: WaiterModel| ActionModel::Reply { req_id: w.req_id, reply })
}

/// The index of the first parked query bearing `req_id`, if any.
pub open spec fn first_waiter(p: Seq<WaiterModel>, req_id: u64) -> Option<int>
    decreases p.len(),
{
    if p.len() == 0 {
        None
    } else if p[0].req_id == req_id {
        Some(0)
    } else {
        match first_waiter(p.drop_first(), req_id) {
            Some(i) => Some(i + 1),
            None => None,
        }
    }
}

/// What an endpoint-discovery query is answered at once, if anything:
/// unknown names fail immediately, a shutting-down or stopped-for-good
/// runtime is unavailable, a ready one yields its endpoint, and a starting or
/// crashed one defers the answer until readiness or a bounded wait decides.
pub open spec fn uri_answer(m: ControllerModel, name: Seq<char>) -> Option<
    Result<Seq<char>, UriError>,
> {
    if !declared(m.entries, name) {
        Some(Err(UriError::UnknownRuntime))
    } else if m.shutting_down {
        Some(Err(UriError::RuntimeUnavailable))
    } else {
        let e = m.entries[idx_of(m.entries, name)];
        match e.status {
            Status::Ready => match e.endpoint {
                Some(ep) => Some(Ok(ep)),
                None => Some(Err(UriError::RuntimeUnavailable)),
            },
            Status::Stopped => Some(Err(UriError::RuntimeUnavailable)),
            Status::Starting => None,
            Status::Crashed => None,
        }
    }
}

/// The controller's configuration and shutdown flag are untouched by a step.
pub open spec fn config_unchanged(pre: ControllerModel, post: ControllerModel) -> bool {
    &&& post.shutting_down == pre.shutting_down
    &&& post.restart_limit == pre.restart_limit
    &&& post.restart_delay == pre.restart_delay
    &&& post.fs_policy == pre.fs_policy
}

/// Nothing observable happened.
pub open spec fn stutter(pre: ControllerModel, post: ControllerModel, acts: Seq<ActionModel>) -> bool {
    &&& post == pre
    &&& acts.len() == 0
}

/// `StartAll`: spawn every declared runtime and record it starting; ignored
/// once shutdown has begun.
pub open spec fn start_all_step(
    pre: ControllerModel,
    post: ControllerModel,
    acts: Seq<ActionModel>,
) -> bool {
    if pre.shutting_down {
        stutter(pre, post, acts)
    } else {
        &&& post.entries == all_respawned(pre.entries)
        &&& post.pending == pre.pending
        &&& config_unchanged(pre, post)
        &&& acts == spawn_actions(pre.entries)
    }
}

/// `GetUri`: answer at once where the table decides the query now, otherwise
/// park it until a readiness report or an expired wait settles it.
pub open spec fn get_uri_step(
    pre: ControllerModel,
    req_id: u64,
    name: Seq<char>,
    post: ControllerModel,
    acts: Seq<ActionModel>,
) -> bool {
    &&& post.entries == pre.entries
    &&& config_unchanged(pre, post)
    &&& match uri_answer(pre, name) {
        Some(reply) => {
            &&& post.pending == pre.pending
            &&& acts == seq![ActionModel::Reply { req_id, reply }]
        },
        None => {
            &&& post.pending == pre.pending.push((WaiterModel { req_id, name }))
            &&& acts.len() == 0
        },
    }
}

/// Whether a readiness report is current and meaningful: the runtime is
/// declared and starting, the report belongs to the present spawn, the
/// endpoint is not empty and was never served by this runtime before, and no
/// shutdown has begun.
pub open spec fn ready_accepted(
    m: ControllerModel,
    name: Seq<char>,
    generation: u64,
    ep: Seq<char>,
) -> bool {
    &&& !m.shutting_down
    &&& declared(m.entries, name)
    &&& m.entries[idx_of(m.entries, name)].status is Starting
    &&& m.entries[idx_of(m.entries, name)].generation == generation
    &&& ep.len() > 0
    &&& !m.entries[idx_of(m.entries, name)].served.contains(ep)
}

/// `ProcessReady`: record the endpoint and answer every query parked for the
/// runtime; a stale or malformed report is ignored.
pub open spec fn ready_step(
    pre: ControllerModel,
    name: Seq<char>,
    generation: u64,
    ep: Seq<char>,
    post: ControllerModel,
    acts: Seq<ActionModel>,
) -> bool {
    if ready_accepted(pre, name, generation, ep) {
        &&& post.entries == pre.entries.update(
            idx_of(pre.entries, name),
            made_ready(pre.entries[idx_of(pre.entries, name)], ep),
        )
        &&& post.pending == without_waiters(pre.pending, name)
        &&& config_unchanged(pre, post)
        &&& acts == replies_to(waiters_for(pre.pending, name), Ok(ep))
    } else {
        stutter(pre, post, acts)
    }
}

/// Whether an exit report concerns the present spawn of a declared runtime
/// that was believed alive, outside shutdown.
pub open spec fn exit_accepted(m: ControllerModel, name: Seq<char>, generation: u64) -> bool {
    &&& !m.shutting_down
    &&& declared(m.entries, name)
    &&& m.entries[idx_of(m.entries, name)].generation == generation
    &&& (m.entries[idx_of(m.entries, name)].status is Ready || m.entries[idx_of(
        m.entries,
        name,
    )].status is Starting)
}

/// Whether a crashed entry still has restart budget (and an unexhausted
/// generation counter).
pub open spec fn can_restart(e: EntryModel, limit: u64) -> bool {
    e.failures < limit && e.generation < u64::MAX
}

/// `ProcessExited`: the endpoint is dropped on the spot. Within the restart
/// budget the entry crashes and a backoff restart is scheduled; beyond it the
/// runtime stops for good and every query parked for it fails. Stale exit
/// reports are ignored.
pub open spec fn exited_step(
    pre: ControllerModel,
    name: Seq<char>,
    generation: u64,
    post: ControllerModel,
    acts: Seq<ActionModel>,
) -> bool {
    if exit_accepted(pre, name, generation) {
        let e = pre.entries[idx_of(pre.entries, name)];
        if can_restart(e, pre.restart_limit) {
            &&& post.entries == pre.entries.update(idx_of(pre.entries, name), crashed_once(e))
            &&& post.pending == pre.pending
            &&& config_unchanged(pre, post)
            &&& acts == seq![
                ActionModel::ScheduleRestart { name, generation, delay: pre.restart_delay },
            ]
        } else {
            &&& post.entries == pre.entries.update(idx_of(pre.entries, name), made_stopped(e))
            &&& post.pending == without_waiters(pre.pending, name)
            &&& config_unchanged(pre, post)
            &&& acts == replies_to(
                waiters_for(pre.pending, name),
                Err(UriError::RuntimeUnavailable),
            )
        }
    } else {
        stutter(pre, post, acts)
    }
}

/// Whether a due restart still applies: the runtime is declared, still
/// crashed, of the same generation the backoff was armed for, and no shutdown
/// has begun.
pub open spec fn restart_accepted(m: ControllerModel, name: Seq<char>, generation: u64) -> bool {
    &&& !m.shutting_down
    &&& declared(m.entries, name)
    &&& m.entries[idx_of(m.entries, name)].status is Crashed
    &&& m.entries[idx_of(m.entries, name)].generation == generation
}

/// `RestartDue`: spawn the crashed runtime anew under a fresh generation.
pub open spec fn restart_step(
    pre: ControllerModel,
    name: Seq<char>,
    generation: u64,
    post: ControllerModel,
    acts: Seq<ActionModel>,
) -> bool {
    if restart_accepted(pre, name, generation) {
        let e = pre.entries[idx_of(pre.entries, name)];
        &&& post.entries == pre.entries.update(idx_of(pre.entries, name), respawned(e))
        &&& post.pending == pre.pending
        &&& config_unchanged(pre, post)
        &&& acts == seq![
            ActionModel::Spawn { name, generation: next_gen(e.generation) },
        ]
    } else {
        stutter(pre, post, acts)
    }
}

/// `WaitExpired`: give up on the first parked query bearing the identifier,
/// reporting the runtime unavailable; without such a query (it was already
/// answered) nothing happens.
pub open spec fn wait_expired_step(
    pre: ControllerModel,
    req_id: u64,
    post: ControllerModel,
    acts: Seq<ActionModel>,
) -> bool {
    &&& post.entries == pre.entries
    &&& config_unchanged(pre, post)
    &&& match first_waiter(pre.pending, req_id) {
        Some(i) => {
            &&& post.pending == pre.pending.remove(i)
            &&& acts == seq![
                ActionModel::Reply {
                    req_id,
                    reply: Err::<Seq<char>, UriError>(UriError::RuntimeUnavailable),
                },
            ]
        },
        None => {
            &&& post.pending == pre.pending
            &&& acts.len() == 0
        },
    }
}

/// The orderly shutdown: every runtime stopped, every parked query released
/// with a failure rather than leaked, the runtimes and the HTTP listener
/// told to stop — and all of it exactly once.
pub open spec fn shutdown_step(
    pre: ControllerModel,
    post: ControllerModel,
    acts: Seq<ActionModel>,
) -> bool {
    if pre.shutting_down {
        stutter(pre, post, acts)
    } else {
        &&& post.entries == all_stopped(pre.entries)
        &&& post.pending == Seq::<WaiterModel>::empty()
        &&& post.shutting_down
        &&& post.restart_limit == pre.restart_limit
        &&& post.restart_delay == pre.restart_delay
        &&& post.fs_policy == pre.fs_policy
        &&& acts == replies_to(pre.pending, Err(UriError::RuntimeUnavailable)) + seq![
            ActionModel::StopAllRuntimes,
            ActionModel::StopAccepting,
        ]
    }
}

/// `FsChanged`: apply the configured reload policy.
pub open spec fn fs_changed_step(
    pre: ControllerModel,
    post: ControllerModel,
    acts: Seq<ActionModel>,
) -> bool {
    match pre.fs_policy {
        FsPolicy::Ignore => stutter(pre, post, acts),
        FsPolicy::RestartAll => start_all_step(pre, post, acts),
        FsPolicy::Shutdown => shutdown_step(pre, post, acts),
    }
}

/// Under unique names, `idx_of` is exactly the index where a name was found.
proof fn lemma_idx_of_unique(es: Seq<EntryModel>, name: Seq<char>, i: int)
    requires
        forall|a: int, b: int|
            0 <= a < b < es.len() ==> (#[trigger] es[a]).name != (#[trigger] es[b]).name,
        0 <= i < es.len(),
        es[i].name == name,
    ensures
        declared(es, name),
        idx_of(es, name) == i,
{
    assert(declared(es, name));
    let j = idx_of(es, name);
    assert(0 <= j < es.len() && es[j].name == name);
    if i < j {
        assert(es[i].name != es[j].name);
    } else if j < i {
        assert(es[j].name != es[i].name);
    }
}

/// How `without_waiters` grows along a prefix, one element at a time.
proof fn lemma_without_extend(p: Seq<WaiterModel>, name: Seq<char>, i: int)
    requires
        0 <= i < p.len(),
    ensures
        without_waiters(p.subrange(0, i + 1), name) == (if p[i].name != name {
            without_waiters(p.subrange(0, i), name).push(p[i])
        } else {
            without_waiters(p.subrange(0, i), name)
        }),
{
    reveal(Seq::filter);
    assert(p.subrange(0, i + 1).drop_last() =~= p.subrange(0, i));
    assert(p.subrange(0, i + 1).last() == p[i]);
}

/// How `waiters_for` grows along a prefix, one element at a time.
proof fn lemma_for_extend(p: Seq<WaiterModel>, name: Seq<char>, i: int)
    requires
        0 <= i < p.len(),
    ensures
        waiters_for(p.subrange(0, i + 1), name) == (if p[i].name == name {
            waiters_for(p.subrange(0, i), name).push(p[i])
        } else {
            waiters_for(p.subrange(0, i), name)
        }),
{
    reveal(Seq::filter);
    assert(p.subrange(0, i + 1).drop_last() =~= p.subrange(0, i));
    assert(p.subrange(0, i + 1).last() == p[i]);
}

/// `first_waiter` finds the earliest occurrence of the identifier, or shows
/// there is none.
proof fn lemma_first_waiter_char(p: Seq<WaiterModel>, req_id: u64)
    ensures
        match first_waiter(p, req_id) {
            Some(i) => 0 <= i < p.len() && p[i].req_id == req_id && (forall|j: int|
                0 <= j < i ==> (#[trigger] p[j]).req_id != req_id),
            None => forall|j: int| 0 <= j < p.len() ==> (#[trigger] p[j]).req_id != req_id,
        },
    decreases p.len(),
{
    if p.len() != 0 && p[0].req_id != req_id {
        let q = p.drop_first();
        lemma_first_waiter_char(q, req_id);
        match first_waiter(q, req_id) {
            Some(i) => {
                assert(first_waiter(p, req_id) == Some(i + 1));
                assert(p[i + 1] == q[i]);
                assert forall|j: int| 0 <= j < i + 1 implies (#[trigger] p[j]).req_id
                    != req_id by {
                    if j > 0 {
                        assert(p[j] == q[j - 1]);
                    }
                }
            },
            None => {
                assert forall|j: int| 0 <= j < p.len() implies (#[trigger] p[j]).req_id
                    != req_id by {
                    if j > 0 {
                        assert(p[j] == q[j - 1]);
                    }
                }
            },
        }
    }
}

/// The index of the entry bearing `name`, by linear search.
fn find_entry(entries: &Vec<RuntimeEntry>, name: &String) -> (r: Option<usize>)
    ensures
        match r {
            Some(i) => 0 <= i < entries.deep_view().len() && entries.deep_view()[i as int].name
                == name@,
            None => !declared(entries.deep_view(), name@),
        },
{
    let ghost dv = entries.deep_view();
    let n = entries.len();
    let mut i: usize = 0;
    while i < n
        invariant
            dv == entries.deep_view(),
            n == dv.len(),
            i <= n,
            forall|j: int| 0 <= j < i ==> (#[trigger] dv[j]).name != name@,
        decreases n - i,
    {
        if entries[i].name == *name {
            return Some(i);
        }
        i = i + 1;
    }
    None
}

/// Whether the configured runtime names are pairwise distinct.
pub open spec fn distinct_seqs(names: Seq<Seq<char>>) -> bool {
    forall|a: int, b: int| 0 <= a < b < names.len() ==> names[a] != names[b]
}

/// Checks that the configured runtime names are pairwise distinct — the
/// condition under which a controller can be built over them.
pub fn names_unique(names: &Vec<String>) -> (r: bool)
    ensures
        r == distinct_seqs(names.deep_view()),
{
    let ghost dv = names.deep_view();
    let n = names.len();
    let mut i: usize = 0;
    while i < n
        invariant
            dv == names.deep_view(),
            n == dv.len(),
            i <= n,
            forall|a: int, b: int| 0 <= a < b < i ==> dv[a] != dv[b],
        decreases n - i,
    {
        let mut j: usize = 0;
        while j < i
            invariant
                dv == names.deep_view(),
                n == dv.len(),
                j <= i < n,
                forall|a: int, b: int| 0 <= a < b < i ==> dv[a] != dv[b],
                forall|a: int| 0 <= a < j ==> dv[a] != dv[i as int],
            decreases i - j,
        {
            if names[j] == names[i] {
                proof {
                    assert(dv[j as int] == dv[i as int]);
                }
                return false;
            }
            j = j + 1;
        }
        i = i + 1;
    }
    true
}

/// A declared runtime before anything was spawned.
pub open spec fn initial_entry(name: Seq<char>) -> EntryModel {
    EntryModel {
        name,
        status: Status::Stopped,
        endpoint: None,
        generation: 0,
        failures: 0,
        served: Seq::empty(),
    }
}

impl Controller {
    /// Builds the controller over the runtimes declared in the configuration.
    /// Every runtime starts out stopped; `StartAll` spawns them.
    pub fn new(
        names: Vec<String>,
        restart_limit: u64,
        restart_delay: u64,
        fs_policy: FsPolicy,
    ) -> (c: Controller)
        requires
            distinct_seqs(names.deep_view()),
        ensures
            c.wf(),
            c@.entries.len() == names.deep_view().len(),
            forall|i: int|
                0 <= i < names.deep_view().len() ==> c@.entries[i] == initial_entry(
                    names.deep_view()[i],
                ),
            c@.pending == Seq::<WaiterModel>::empty(),
            !c@.shutting_down,
            c@.restart_limit == restart_limit,
            c@.restart_delay == restart_delay,
            c@.fs_policy == fs_policy,
    {
        let ghost dv = names.deep_view();
        let n = names.len();
        let mut entries: Vec<RuntimeEntry> = Vec::new();
        let mut i: usize = 0;
        while i < n
            invariant
                dv == names.deep_view(),
                n == dv.len(),
                i <= n,
                entries.deep_view().len() == i,
                forall|j: int|
                    0 <= j < i ==> (#[trigger] entries.deep_view()[j]) == initial_entry(dv[j]),
            decreases n - i,
        {
            let ghost pre_dv = entries.deep_view();
            entries.push(
                RuntimeEntry {
                    name: names[i].clone(),
                    status: Status::Stopped,
                    endpoint: None,
                    generation: 0,
                    failures: 0,
                    served: Vec::new(),
                },
            );
            proof {
                assert forall|j: int| 0 <= j < i + 1 implies (#[trigger] entries.deep_view()[j])
                    == initial_entry(dv[j]) by {
                    if j < i {
                        assert(entries.deep_view()[j] == pre_dv[j]);
                    } else {
                        assert(entries@[j].name@ == dv[j]);
                        assert(entries@[j].served.deep_view() =~= Seq::<Seq<char>>::empty());
                    }
                }
            }
            i = i + 1;
        }
        let c = Controller {
            entries,
            pending: Vec::new(),
            shutting_down: false,
            restart_limit,
            restart_delay,
            fs_policy,
        };
        proof {
            assert(c@.pending =~= Seq::<WaiterModel>::empty());
            assert forall|a: int, b: int|
                0 <= a < b < c@.entries.len() implies (#[trigger] c@.entries[a]).name
                != (#[trigger] c@.entries[b]).name by {
                assert(c@.entries[a].name == dv[a]);
                assert(c@.entries[b].name == dv[b]);
            }
        }
        c
    }

    /// Answers an endpoint-discovery query, or parks it while the runtime is
    /// still coming up.
    pub fn get_uri(&mut self, req_id: u64, name: &String) -> (acts: Vec<Action>)
        requires
            old(self).wf(),
        ensures
            final(self).wf(),
            get_uri_step(old(self)@, req_id, name@, final(self)@, acts.deep_view()),
    {
        let found = find_entry(&self.entries, name);
        match found {
            None => {
                let mut acts: Vec<Action> = Vec::new();
                acts.push(Action::Reply { req_id, reply: Err(UriError::UnknownRuntime) });
                proof {
                    assert(acts.deep_view() =~= seq![
                        ActionModel::Reply {
                            req_id,
                            reply: Err::<Seq<char>, UriError>(UriError::UnknownRuntime),
                        },
                    ]);
                }
                acts
            },
            Some(i) => {
                proof {
                    lemma_idx_of_unique(old(self)@.entries, name@, i as int);
                }
                if self.shutting_down {
                    let mut acts: Vec<Action> = Vec::new();
                    acts.push(Action::Reply { req_id, reply: Err(UriError::RuntimeUnavailable) });
                    proof {
                        assert(acts.deep_view() =~= seq![
                            ActionModel::Reply {
                                req_id,
                                reply: Err::<Seq<char>, UriError>(UriError::RuntimeUnavailable),
                            },
                        ]);
                    }
                    return acts;
                }
                match self.entries[i].status {
                    Status::Ready => {
                        let ep = match &self.entries[i].endpoint {
                            Some(e) => e.clone(),
                            None => {
                                proof {
                                    assert(false);
                                }
                                String::new()
                            },
                        };
                        let mut acts: Vec<Action> = Vec::new();
                        acts.push(Action::Reply { req_id, reply: Ok(ep) });
                        proof {
                            assert(acts.deep_view() =~= seq![
                                ActionModel::Reply {
                                    req_id,
                                    reply: uri_answer(old(self)@, name@)->Some_0,
                                },
                            ]);
                        }
                        acts
                    },
                    Status::Stopped => {
                        let mut acts: Vec<Action> = Vec::new();
                        acts.push(
                            Action::Reply { req_id, reply: Err(UriError::RuntimeUnavailable) },
                        );
                        proof {
                            assert(acts.deep_view() =~= seq![
                                ActionModel::Reply {
                                    req_id,
                                    reply: Err::<Seq<char>, UriError>(UriError::RuntimeUnavailable),
                                },
                            ]);
                        }
                        acts
                    },
                    _ => {
                        self.pending.push(Waiter { req_id, name: name.clone() });
                        proof {
                            assert(self@.pending =~= old(self)@.pending.push(
                                (WaiterModel { req_id, name: name@ }),
                            ));
                        }
                        Vec::new()
                    },
                }
            },
        }
    }
}

/// The model of one reply value held by the shell-facing action type.
pub open spec fn reply_model(r: Result<String, UriError>) -> Result<Seq<char>, UriError> {
    match r {
        Ok(s) => Ok(s@),
        Err(e) => Err(e),
    }
}

/// Whether `ep` is among the endpoints a runtime has served before.
fn served_contains(served: &Vec<String>, ep: &String) -> (r: bool)
    ensures
        r == served.deep_view().contains(ep@),
{
    let ghost dv = served.deep_view();
    let n = served.len();
    let mut i: usize = 0;
    while i < n
        invariant
            dv == served.deep_view(),
            n == dv.len(),
            i <= n,
            forall|j: int| 0 <= j < i ==> (#[trigger] dv[j]) != ep@,
        decreases n - i,
    {
        if served[i] == *ep {
            proof {
                assert(dv[i as int] == ep@);
            }
            return true;
        }
        i = i + 1;
    }
    proof {
        if dv.contains(ep@) {
            let j = choose|j: int| 0 <= j < dv.len() && dv[j] == ep@;
            assert(dv[j] != ep@);
        }
    }
    false
}

/// Splits the parked queries into those not waiting for `name` (kept) and
/// those waiting for it (to be answered).
fn split_waiters(pending: &Vec<Waiter>, name: &String) -> (r: (Vec<Waiter>, Vec<Waiter>))
    ensures
        r.0.deep_view() == without_waiters(pending.deep_view(), name@),
        r.1.deep_view() == waiters_for(pending.deep_view(), name@),
{
    let ghost dv = pending.deep_view();
    let n = pending.len();
    let mut kept: Vec<Waiter> = Vec::new();
    let mut hit: Vec<Waiter> = Vec::new();
    proof {
        assert(dv.subrange(0, 0) =~= Seq::<WaiterModel>::empty());
        reveal(Seq::filter);
        assert(kept.deep_view() =~= without_waiters(dv.subrange(0, 0), name@));
        assert(hit.deep_view() =~= waiters_for(dv.subrange(0, 0), name@));
    }
    let mut i: usize = 0;
    while i < n
        invariant
            dv == pending.deep_view(),
            n == dv.len(),
            i <= n,
            kept.deep_view() == without_waiters(dv.subrange(0, i as int), name@),
            hit.deep_view() == waiters_for(dv.subrange(0, i as int), name@),
        decreases n - i,
    {
        let w = Waiter { req_id: pending[i].req_id, name: pending[i].name.clone() };
        let ghost pre_kept = kept.deep_view();
        let ghost pre_hit = hit.deep_view();
        proof {
            assert(w@ == dv[i as int]);
            lemma_without_extend(dv, name@, i as int);
            lemma_for_extend(dv, name@, i as int);
        }
        if w.name == *name {
            hit.push(w);
            proof {
                assert(hit.deep_view() =~= pre_hit.push(dv[i as int]));
            }
        } else {
            kept.push(w);
            proof {
                assert(kept.deep_view() =~= pre_kept.push(dv[i as int]));
            }
        }
        i = i + 1;
    }
    proof {
        assert(dv.subrange(0, n as int) =~= dv);
    }
    (kept, hit)
}

/// One reply action per waiter, in parking order, all carrying `reply`.
fn reply_all(ws: &Vec<Waiter>, reply: &Result<String, UriError>) -> (acts: Vec<Action>)
    ensures
        acts.deep_view() == replies_to(ws.deep_view(), reply_model(*reply)),
{
    let ghost dv = ws.deep_view();
    let n = ws.len();
    let mut acts: Vec<Action> = Vec::new();
    let mut i: usize = 0;
    while i < n
        invariant
            dv == ws.deep_view(),
            n == dv.len(),
            i <= n,
            acts.deep_view() == replies_to(dv.subrange(0, i as int), reply_model(*reply)),
        decreases n - i,
    {
        let rep: Result<String, UriError> = match reply {
            Ok(s) => Ok(s.clone()),
            Err(e) => Err(*e),
        };
        let ghost pre = acts.deep_view();
        acts.push(Action::Reply { req_id: ws[i].req_id, reply: rep });
        proof {
            assert(acts.deep_view() =~= pre.push(
                (ActionModel::Reply { req_id: dv[i as int].req_id, reply: reply_model(*reply) }),
            ));
            assert(acts.deep_view() =~= replies_to(dv.subrange(0, i + 1), reply_model(*reply)));
        }
        i = i + 1;
    }
    proof {
        assert(dv.subrange(0, n as int) =~= dv);
    }
    acts
}

impl Controller {
    /// Records a readiness report: the endpoint is remembered and every query
    /// parked for the runtime is answered with it. A stale report (wrong
    /// generation, not starting, empty endpoint, shutdown begun) changes
    /// nothing.
    pub fn process_ready(&mut self, name: &String, generation: u64, endpoint: String) -> (acts:
        Vec<Action>)
        requires
            old(self).wf(),
        ensures
            final(self).wf(),
            ready_step(old(self)@, name@, generation, endpoint@, final(self)@, acts.deep_view()),
    {
        if self.shutting_down {
            return Vec::new();
        }
        let found = find_entry(&self.entries, name);
        match found {
            None => Vec::new(),
            Some(i) => {
                proof {
                    lemma_idx_of_unique(old(self)@.entries, name@, i as int);
                }
                let starting = match self.entries[i].status {
                    Status::Starting => true,
                    _ => false,
                };
                if !starting || self.entries[i].generation != generation || endpoint.as_str().is_empty()
                    || served_contains(&self.entries[i].served, &endpoint) {
                    return Vec::new();
                }
                let (kept, hit) = split_waiters(&self.pending, name);
                let rep: Result<String, UriError> = Ok(endpoint.clone());
                let acts = reply_all(&hit, &rep);
                self.entries[i].status = Status::Ready;
                self.entries[i].endpoint = Some(endpoint.clone());
                self.entries[i].failures = 0;
                self.entries[i].served.push(endpoint);
                self.pending = kept;
                proof {
                    let pre = old(self)@;
                    let k = idx_of(pre.entries, name@);
                    assert(self@.entries[k].served =~= pre.entries[k].served.push(rep->Ok_0@));
                    assert(self@.entries =~= pre.entries.update(k, made_ready(pre.entries[k], rep->Ok_0@)));
                    assert(made_ready(pre.entries[k], rep->Ok_0@).served.contains(rep->Ok_0@)) by {
                        let sv = pre.entries[k].served.push(rep->Ok_0@);
                        assert(sv[sv.len() - 1] == rep->Ok_0@);
                    }
                    assert(entries_wf(self@.entries)) by {
                        assert forall|j: int| 0 <= j < self@.entries.len() implies self@.entries[j]
                            == (if j == k {
                            made_ready(pre.entries[k], rep->Ok_0@)
                        } else {
                            pre.entries[j]
                        }) by {}
                    }
                }
                acts
            },
        }
    }

    /// Records a process exit: the dead endpoint is dropped at once. Within
    /// the restart budget the runtime crashes and a backoff restart is
    /// scheduled; beyond it the runtime stops for good and every query parked
    /// for it is answered unavailable. A stale report changes nothing.
    pub fn process_exited(&mut self, name: &String, generation: u64) -> (acts: Vec<Action>)
        requires
            old(self).wf(),
        ensures
            final(self).wf(),
            exited_step(old(self)@, name@, generation, final(self)@, acts.deep_view()),
    {
        if self.shutting_down {
            return Vec::new();
        }
        let found = find_entry(&self.entries, name);
        match found {
            None => Vec::new(),
            Some(i) => {
                proof {
                    lemma_idx_of_unique(old(self)@.entries, name@, i as int);
                }
                let alive = match self.entries[i].status {
                    Status::Ready => true,
                    Status::Starting => true,
                    _ => false,
                };
                if !alive || self.entries[i].generation != generation {
                    return Vec::new();
                }
                let g = self.entries[i].generation;
                let f = self.entries[i].failures;
                if f < self.restart_limit && g < u64::MAX {
                    self.entries[i].status = Status::Crashed;
                    self.entries[i].endpoint = None;
                    self.entries[i].failures = f + 1;
                    let mut acts: Vec<Action> = Vec::new();
                    acts.push(
                        Action::ScheduleRestart {
                            name: name.clone(),
                            generation,
                            delay: self.restart_delay,
                        },
                    );
                    proof {
                        let pre = old(self)@;
                        let k = idx_of(pre.entries, name@);
                        assert(self@.entries =~= pre.entries.update(k, crashed_once(pre.entries[k])));
                        assert(acts.deep_view() =~= seq![
                            ActionModel::ScheduleRestart {
                                name: name@,
                                generation,
                                delay: pre.restart_delay,
                            },
                        ]);
                    }
                    acts
                } else {
                    let (kept, hit) = split_waiters(&self.pending, name);
                    let rep: Result<String, UriError> = Err(UriError::RuntimeUnavailable);
                    let acts = reply_all(&hit, &rep);
                    self.entries[i].status = Status::Stopped;
                    self.entries[i].endpoint = None;
                    self.pending = kept;
                    proof {
                        let pre = old(self)@;
                        let k = idx_of(pre.entries, name@);
                        assert(self@.entries =~= pre.entries.update(k, made_stopped(pre.entries[k])));
                    }
                    acts
                }
            },
        }
    }

    /// Spawns a crashed runtime anew, under a fresh generation, once its
    /// backoff delay has elapsed. A stale due notice (the runtime recovered,
    /// stopped, or shutdown begun) changes nothing.
    pub fn restart_due(&mut self, name: &String, generation: u64) -> (acts: Vec<Action>)
        requires
            old(self).wf(),
        ensures
            final(self).wf(),
            restart_step(old(self)@, name@, generation, final(self)@, acts.deep_view()),
    {
        if self.shutting_down {
            return Vec::new();
        }
        let found = find_entry(&self.entries, name);
        match found {
            None => Vec::new(),
            Some(i) => {
                proof {
                    lemma_idx_of_unique(old(self)@.entries, name@, i as int);
                }
                let crashed = match self.entries[i].status {
                    Status::Crashed => true,
                    _ => false,
                };
                if !crashed || self.entries[i].generation != generation {
                    return Vec::new();
                }
                let g = self.entries[i].generation;
                self.entries[i].status = Status::Starting;
                self.entries[i].endpoint = None;
                self.entries[i].generation = g + 1;
                let mut acts: Vec<Action> = Vec::new();
                acts.push(Action::Spawn { name: name.clone(), generation: g + 1 });
                proof {
                    let pre = old(self)@;
                    let k = idx_of(pre.entries, name@);
                    assert(self@.entries =~= pre.entries.update(k, respawned(pre.entries[k])));
                    assert(acts.deep_view() =~= seq![
                        ActionModel::Spawn { name: name@, generation: next_gen(pre.entries[k].generation) },
                    ]);
                }
                acts
            },
        }
    }
}

impl Controller {
    /// Spawns every declared runtime and records it starting — the `StartAll`
    /// command, also reused as the reload of the filesystem policy. Ignored
    /// once shutdown has begun.
    pub fn start_all(&mut self) -> (acts: Vec<Action>)
        requires
            old(self).wf(),
        ensures
            final(self).wf(),
            start_all_step(old(self)@, final(self)@, acts.deep_view()),
    {
        if self.shutting_down {
            return Vec::new();
        }
        let ghost pre = old(self)@;
        let n = self.entries.len();
        let mut acts: Vec<Action> = Vec::new();
        let mut i: usize = 0;
        while i < n
            invariant
                n == pre.entries.len(),
                self.entries@.len() == n,
                i <= n,
                self.pending == old(self).pending,
                self.shutting_down == pre.shutting_down,
                self.restart_limit == pre.restart_limit,
                self.restart_delay == pre.restart_delay,
                self.fs_policy == pre.fs_policy,
                forall|j: int| i <= j < n ==> (#[trigger] self.entries.deep_view()[j]) == pre.entries[j],
                forall|j: int|
                    0 <= j < i ==> (#[trigger] self.entries.deep_view()[j]) == respawned(
                        pre.entries[j],
                    ),
                acts.deep_view().len() == i,
                forall|j: int| 0 <= j < i ==> (#[trigger] acts.deep_view()[j]) == spawn_actions(
                    pre.entries,
                )[j],
            decreases n - i,
        {
            let g0 = self.entries[i].generation;
            let g = if g0 < u64::MAX {
                g0 + 1
            } else {
                g0
            };
            let nm = self.entries[i].name.clone();
            let ghost dvs = self.entries.deep_view();
            let ghost pre_acts = acts.deep_view();
            self.entries[i].status = Status::Starting;
            self.entries[i].endpoint = None;
            self.entries[i].generation = g;
            acts.push(Action::Spawn { name: nm, generation: g });
            proof {
                assert forall|j: int| 0 <= j < n && j != i implies (
                #[trigger] self.entries.deep_view()[j]) == dvs[j] by {
                    assert(self.entries.deep_view()[j] == self.entries@[j].deep_view());
                }
                assert(dvs[i as int] == pre.entries[i as int]);
                assert(self.entries.deep_view()[i as int] == self.entries@[i as int].deep_view());
                assert(self.entries@[i as int].name@ == dvs[i as int].name);
                assert(self.entries.deep_view()[i as int] == respawned(pre.entries[i as int]));
                assert(acts.deep_view() =~= pre_acts.push(
                    (ActionModel::Spawn { name: nm@, generation: g }),
                ));
                assert(acts.deep_view()[i as int] == spawn_actions(pre.entries)[i as int]);
            }
            i = i + 1;
        }
        proof {
            assert(self@.entries =~= all_respawned(pre.entries));
            assert(acts.deep_view() =~= spawn_actions(pre.entries));
            assert(self@.pending == pre.pending);
        }
        acts
    }

    /// Begins the orderly shutdown: stops every runtime, releases every
    /// parked query with a failure, and tells the shell to stop the processes
    /// and the HTTP listener. A second request changes nothing, so the
    /// shutdown sequence runs exactly once.
    pub fn initiate_shutdown(&mut self) -> (acts: Vec<Action>)
        requires
            old(self).wf(),
        ensures
            final(self).wf(),
            shutdown_step(old(self)@, final(self)@, acts.deep_view()),
    {
        if self.shutting_down {
            return Vec::new();
        }
        let ghost pre = old(self)@;
        self.shutting_down = true;
        let n = self.entries.len();
        let mut i: usize = 0;
        while i < n
            invariant
                n == pre.entries.len(),
                self.entries@.len() == n,
                i <= n,
                self.pending == old(self).pending,
                self.shutting_down,
                self.restart_limit == old(self).restart_limit,
                self.restart_delay == old(self).restart_delay,
                self.fs_policy == old(self).fs_policy,
                forall|j: int| i <= j < n ==> (#[trigger] self.entries.deep_view()[j]) == pre.entries[j],
                forall|j: int|
                    0 <= j < i ==> (#[trigger] self.entries.deep_view()[j]) == made_stopped(
                        pre.entries[j],
                    ),
            decreases n - i,
        {
            let ghost dvs = self.entries.deep_view();
            self.entries[i].status = Status::Stopped;
            self.entries[i].endpoint = None;
            proof {
                assert forall|j: int| 0 <= j < n && j != i implies (
                #[trigger] self.entries.deep_view()[j]) == dvs[j] by {
                    assert(self.entries.deep_view()[j] == self.entries@[j].deep_view());
                }
                assert(dvs[i as int] == pre.entries[i as int]);
                assert(self.entries.deep_view()[i as int] == self.entries@[i as int].deep_view());
                assert(self.entries@[i as int].name@ == dvs[i as int].name);
                assert(self.entries.deep_view()[i as int] == made_stopped(pre.entries[i as int]));
            }
            i = i + 1;
        }
        let rep: Result<String, UriError> = Err(UriError::RuntimeUnavailable);
        let mut acts = reply_all(&self.pending, &rep);
        self.pending = Vec::new();
        acts.push(Action::StopAllRuntimes);
        acts.push(Action::StopAccepting);
        proof {
            assert(self@.entries =~= all_stopped(pre.entries));
            assert(self@.pending =~= Seq::<WaiterModel>::empty());
            assert(acts.deep_view() =~= replies_to(pre.pending, Err(UriError::RuntimeUnavailable))
                + seq![ActionModel::StopAllRuntimes, ActionModel::StopAccepting]);
        }
        acts
    }

    /// Applies the configured policy to a filesystem change notification:
    /// nothing, a reload of every runtime, or an orderly shutdown.
    pub fn fs_changed(&mut self) -> (acts: Vec<Action>)
        requires
            old(self).wf(),
        ensures
            final(self).wf(),
            fs_changed_step(old(self)@, final(self)@, acts.deep_view()),
    {
        match self.fs_policy {
            FsPolicy::Ignore => Vec::new(),
            FsPolicy::RestartAll => self.start_all(),
            FsPolicy::Shutdown => self.initiate_shutdown(),
        }
    }

    /// Gives up on the first parked query bearing `req_id`: its bounded wait
    /// elapsed, so it is answered unavailable rather than left suspended. If
    /// the query was already answered, nothing happens.
    pub fn wait_expired(&mut self, req_id: u64) -> (acts: Vec<Action>)
        requires
            old(self).wf(),
        ensures
            final(self).wf(),
            wait_expired_step(old(self)@, req_id, final(self)@, acts.deep_view()),
    {
        let ghost dv = old(self)@.pending;
        let n = self.pending.len();
        let mut i: usize = 0;
        while i < n
            invariant
                dv == self.pending.deep_view(),
                self.entries == old(self).entries,
                self.pending == old(self).pending,
                self.shutting_down == old(self).shutting_down,
                self.restart_limit == old(self).restart_limit,
                self.restart_delay == old(self).restart_delay,
                self.fs_policy == old(self).fs_policy,
                entries_wf(self.entries.deep_view()),
                n == dv.len(),
                i <= n,
                forall|j: int| 0 <= j < i ==> (#[trigger] dv[j]).req_id != req_id,
            decreases n - i,
        {
            if self.pending[i].req_id == req_id {
                let ghost fw = first_waiter(dv, req_id);
                proof {
                    lemma_first_waiter_char(dv, req_id);
                    assert(dv[i as int].req_id == req_id);
                    assert(fw matches Some(k) && k == i);
                }
                self.pending.remove(i);
                let mut acts: Vec<Action> = Vec::new();
                acts.push(Action::Reply { req_id, reply: Err(UriError::RuntimeUnavailable) });
                proof {
                    assert(self@.pending =~= dv.remove(i as int));
                    assert(acts.deep_view() =~= seq![
                        ActionModel::Reply {
                            req_id,
                            reply: Err::<Seq<char>, UriError>(UriError::RuntimeUnavailable),
                        },
                    ]);
                }
                return acts;
            }
            i = i + 1;
        }
        proof {
            lemma_first_waiter_char(dv, req_id);
            assert(first_waiter(dv, req_id) is None);
        }
        Vec::new()
    }

    /// Consumes one control message: the controller's single entry point, one
    /// message at a time, strictly in arrival order.
    pub fn handle(&mut self, msg: ControlMessage) -> (acts: Vec<Action>)
        requires
            old(self).wf(),
        ensures
            final(self).wf(),
            step(old(self)@, msg@, final(self)@, acts.deep_view()),
    {
        match msg {
            ControlMessage::StartAll => self.start_all(),
            ControlMessage::GetUri { req_id, name } => self.get_uri(req_id, &name),
            ControlMessage::WaitExpired { req_id } => self.wait_expired(req_id),
            ControlMessage::ProcessReady { name, generation, endpoint } => self.process_ready(
                &name,
                generation,
                endpoint,
            ),
            ControlMessage::ProcessExited { name, generation } => self.process_exited(
                &name,
                generation,
            ),
            ControlMessage::RestartDue { name, generation } => self.restart_due(&name, generation),
            ControlMessage::HeartbeatTimeout => self.initiate_shutdown(),
            ControlMessage::FsChanged => self.fs_changed(),
        }
    }
}

/// The controller's whole transition relation: what one control message does.
pub open spec fn step(
    pre: ControllerModel,
    msg: MsgModel,
    post: ControllerModel,
    acts: Seq<ActionModel>,
) -> bool {
    match msg {
        MsgModel::StartAll => start_all_step(pre, post, acts),
        MsgModel::GetUri { req_id, name } => get_uri_step(pre, req_id, name, post, acts),
        MsgModel::WaitExpired { req_id } => wait_expired_step(pre, req_id, post, acts),
        MsgModel::ProcessReady { name, generation, endpoint } => ready_step(
            pre,
            name,
            generation,
            endpoint,
            post,
            acts,
        ),
        MsgModel::ProcessExited { name, generation } => exited_step(
            pre,
            name,
            generation,
            post,
            acts,
        ),
        MsgModel::RestartDue { name, generation } => restart_step(pre, name, generation, post, acts),
        MsgModel::HeartbeatTimeout => shutdown_step(pre, post, acts),
        MsgModel::FsChanged => fs_changed_step(pre, post, acts),
    }
}

/// Law: an endpoint-discovery query for a name no declared runtime bears is
/// answered at once with `UnknownRuntime` — it is never parked, so it can
/// never block, and it changes nothing.
pub proof fn lemma_unknown_runtime_fails_fast(
    pre: ControllerModel,
    req_id: u64,
    name: Seq<char>,
    post: ControllerModel,
    acts: Seq<ActionModel>,
)
    requires
        get_uri_step(pre, req_id, name, post, acts),
        !declared(pre.entries, name),
    ensures
        acts == seq![
            ActionModel::Reply {
                req_id,
                reply: Err::<Seq<char>, UriError>(UriError::UnknownRuntime),
            },
        ],
        post.entries == pre.entries,
        post.pending == pre.pending,
{
}

/// Law: after `StartAll` spawns the declared runtimes and a runtime's fresh
/// process reports ready on a non-empty endpoint, an endpoint-discovery query
/// for its name yields exactly that endpoint.
pub proof fn lemma_started_and_ready_resolves(
    m0: ControllerModel,
    acts0: Seq<ActionModel>,
    m1: ControllerModel,
    name: Seq<char>,
    generation: u64,
    ep: Seq<char>,
    acts1: Seq<ActionModel>,
    m2: ControllerModel,
)
    requires
        entries_wf(m0.entries),
        !m0.shutting_down,
        declared(m0.entries, name),
        start_all_step(m0, m1, acts0),
        generation == next_gen(m0.entries[idx_of(m0.entries, name)].generation),
        ep.len() > 0,
        !m0.entries[idx_of(m0.entries, name)].served.contains(ep),
        ready_step(m1, name, generation, ep, m2, acts1),
    ensures
        uri_answer(m2, name) == Some(Ok::<Seq<char>, UriError>(ep)),
{
    let i = idx_of(m0.entries, name);
    assert(0 <= i < m0.entries.len() && m0.entries[i].name == name);
    assert(m1.entries == all_respawned(m0.entries));
    assert(m1.entries[i] == respawned(m0.entries[i]));
    assert forall|a: int, b: int|
        0 <= a < b < m1.entries.len() implies (#[trigger] m1.entries[a]).name != (
    #[trigger] m1.entries[b]).name by {
        assert(m1.entries[a].name == m0.entries[a].name);
        assert(m1.entries[b].name == m0.entries[b].name);
    }
    lemma_idx_of_unique(m1.entries, name, i);
    assert(m1.entries[i].served == m0.entries[i].served);
    assert(ready_accepted(m1, name, generation, ep));
    assert(m2.entries == m1.entries.update(i, made_ready(m1.entries[i], ep)));
    assert forall|a: int, b: int|
        0 <= a < b < m2.entries.len() implies (#[trigger] m2.entries[a]).name != (
    #[trigger] m2.entries[b]).name by {
        assert(m2.entries[a].name == m0.entries[a].name);
        assert(m2.entries[b].name == m0.entries[b].name);
    }
    lemma_idx_of_unique(m2.entries, name, i);
    assert(m2.entries[i].status is Ready);
    assert(m2.entries[i].endpoint == Some(ep));
}

/// Law: the moment a crash of the live process is recorded, no
/// endpoint-discovery query for that runtime yields an endpoint any more —
/// the dead endpoint is never served again; only a fresh readiness report can
/// make the name resolve.
pub proof fn lemma_no_stale_endpoint_after_crash(
    pre: ControllerModel,
    name: Seq<char>,
    generation: u64,
    post: ControllerModel,
    acts: Seq<ActionModel>,
)
    requires
        entries_wf(pre.entries),
        exited_step(pre, name, generation, post, acts),
        exit_accepted(pre, name, generation),
    ensures
        forall|ep: Seq<char>| uri_answer(post, name) != Some(Ok::<Seq<char>, UriError>(ep)),
{
    let i = idx_of(pre.entries, name);
    assert(0 <= i < pre.entries.len() && pre.entries[i].name == name);
    let e = pre.entries[i];
    let post_e = if can_restart(e, pre.restart_limit) {
        crashed_once(e)
    } else {
        made_stopped(e)
    };
    assert(post.entries == pre.entries.update(i, post_e));
    assert forall|a: int, b: int|
        0 <= a < b < post.entries.len() implies (#[trigger] post.entries[a]).name != (
    #[trigger] post.entries[b]).name by {
        assert(post.entries[a].name == pre.entries[a].name);
        assert(post.entries[b].name == pre.entries[b].name);
    }
    lemma_idx_of_unique(post.entries, name, i);
    assert(post.entries[i].endpoint is None);
    assert(!(post.entries[i].status is Ready));
}

/// Law: a readiness report answers exactly the queries parked for that
/// runtime — one reply per query, each on the correlation identifier its
/// requester issued, all carrying the fresh endpoint, and none is left
/// parked. Concurrent requesters can never receive one another's replies.
pub proof fn lemma_ready_replies_match_waiters(
    pre: ControllerModel,
    name: Seq<char>,
    generation: u64,
    ep: Seq<char>,
    post: ControllerModel,
    acts: Seq<ActionModel>,
)
    requires
        ready_step(pre, name, generation, ep, post, acts),
        ready_accepted(pre, name, generation, ep),
    ensures
        acts.len() == waiters_for(pre.pending, name).len(),
        forall|j: int|
            0 <= j < acts.len() ==> acts[j] == (ActionModel::Reply {
                req_id: waiters_for(pre.pending, name)[j].req_id,
                reply: Ok::<Seq<char>, UriError>(ep),
            }),
        post.pending == without_waiters(pre.pending, name),
{
}

/// Law: a runtime moves from starting to ready at most once per spawn — a
/// second readiness report for the same generation changes nothing.
pub proof fn lemma_ready_at_most_once_per_spawn(
    pre: ControllerModel,
    name: Seq<char>,
    generation: u64,
    ep: Seq<char>,
    post: ControllerModel,
    acts: Seq<ActionModel>,
)
    requires
        ready_step(pre, name, generation, ep, post, acts),
        declared(pre.entries, name),
        !(pre.entries[idx_of(pre.entries, name)].status is Starting),
    ensures
        post == pre,
        acts.len() == 0,
{
}

/// Law: the shutdown sequence leaves no query suspended — every parked query
/// receives exactly one failure reply, in parking order, ahead of the two
/// stop actions.
/// Law: a readiness report that reuses an endpoint the runtime served before
/// is rejected outright — nothing changes and nothing is replied, so no query
/// ever resolves to a recycled endpoint.
pub proof fn lemma_reused_endpoint_rejected(
    pre: ControllerModel,
    name: Seq<char>,
    generation: u64,
    ep: Seq<char>,
    post: ControllerModel,
    acts: Seq<ActionModel>,
)
    requires
        ready_step(pre, name, generation, ep, post, acts),
        declared(pre.entries, name),
        pre.entries[idx_of(pre.entries, name)].served.contains(ep),
    ensures
        post == pre,
        acts.len() == 0,
{
}

/// Law: a crash never forgets an endpoint the runtime served — the history
/// that grounds the rejection above survives the whole crash-and-restart
/// cycle.
pub proof fn lemma_crash_keeps_served_history(
    pre: ControllerModel,
    name: Seq<char>,
    generation: u64,
    post: ControllerModel,
    acts: Seq<ActionModel>,
)
    requires
        exited_step(pre, name, generation, post, acts),
    ensures
        post.entries.len() == pre.entries.len(),
        forall|i: int|
            0 <= i < pre.entries.len() ==> (#[trigger] post.entries[i]).served
                == pre.entries[i].served,
{
    if exit_accepted(pre, name, generation) {
        assert(declared(pre.entries, name));
        let k = idx_of(pre.entries, name);
        assert(0 <= k < pre.entries.len() && pre.entries[k].name == name);
    }
}

/// Law: a scheduled respawn keeps the served-endpoint history too.
pub proof fn lemma_respawn_keeps_served_history(
    pre: ControllerModel,
    name: Seq<char>,
    generation: u64,
    post: ControllerModel,
    acts: Seq<ActionModel>,
)
    requires
        restart_step(pre, name, generation, post, acts),
    ensures
        post.entries.len() == pre.entries.len(),
        forall|i: int|
            0 <= i < pre.entries.len() ==> (#[trigger] post.entries[i]).served
                == pre.entries[i].served,
{
    if restart_accepted(pre, name, generation) {
        assert(declared(pre.entries, name));
        let k = idx_of(pre.entries, name);
        assert(0 <= k < pre.entries.len() && pre.entries[k].name == name);
    }
}

/// Law: when a runtime comes back ready after serving `ep0` earlier, the
/// endpoint it now resolves to is a different one — endpoints are never
/// reused across restarts of the same runtime.
pub proof fn lemma_restart_resolves_to_fresh_endpoint(
    pre: ControllerModel,
    name: Seq<char>,
    generation: u64,
    ep: Seq<char>,
    ep0: Seq<char>,
    post: ControllerModel,
    acts: Seq<ActionModel>,
)
    requires
        entries_wf(pre.entries),
        declared(pre.entries, name),
        pre.entries[idx_of(pre.entries, name)].served.contains(ep0),
        ready_accepted(pre, name, generation, ep),
        ready_step(pre, name, generation, ep, post, acts),
    ensures
        uri_answer(post, name) == Some(Ok::<Seq<char>, UriError>(ep)),
        ep != ep0,
{
    let i = idx_of(pre.entries, name);
    assert(0 <= i < pre.entries.len() && pre.entries[i].name == name);
    assert(post.entries == pre.entries.update(i, made_ready(pre.entries[i], ep)));
    assert forall|a: int, b: int|
        0 <= a < b < post.entries.len() implies (#[trigger] post.entries[a]).name != (
    #[trigger] post.entries[b]).name by {
        assert(post.entries[a].name == pre.entries[a].name);
        assert(post.entries[b].name == pre.entries[b].name);
    }
    lemma_idx_of_unique(post.entries, name, i);
    assert(post.entries[i].status is Ready);
    assert(post.entries[i].endpoint == Some(ep));
}

pub proof fn lemma_shutdown_releases_all_waiters(
    pre: ControllerModel,
    post: ControllerModel,
    acts: Seq<ActionModel>,
)
    requires
        shutdown_step(pre, post, acts),
        !pre.shutting_down,
    ensures
        post.pending.len() == 0,
        acts.len() == pre.pending.len() + 2,
        forall|j: int|
            0 <= j < pre.pending.len() ==> acts[j] == (ActionModel::Reply {
                req_id: pre.pending[j].req_id,
                reply: Err::<Seq<char>, UriError>(UriError::RuntimeUnavailable),
            }),
{
    assert(replies_to(pre.pending, Err(UriError::RuntimeUnavailable)).len()
        == pre.pending.len());
}

} // verus!

