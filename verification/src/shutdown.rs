//! Progress of an application shutdown: which servers are being stopped,
//! which have stopped, and which failed, reported ordered by server id.
use vstd::prelude::*;

use crate::text::clone_opt;

verus! {

/// Where one server is in the shutdown.
#[derive(Clone, Debug)]
pub enum ServerShutdownStatus {
    Pending,
    Stopping,
    Stopped,
    Failed(String),
}

/// The name a status is reported under.
pub open spec fn status_name(s: ServerShutdownStatus) -> Seq<char> {
    match s {
        ServerShutdownStatus::Pending => "pending"@,
        ServerShutdownStatus::Stopping => "stopping"@,
        ServerShutdownStatus::Stopped => "stopped"@,
        ServerShutdownStatus::Failed(_) => "failed"@,
    }
}

/// The error a status carries: the reason of a failure.
pub open spec fn status_error(s: ServerShutdownStatus) -> Option<String> {
    match s {
        ServerShutdownStatus::Failed(m) => Some(m),
        _ => None,
    }
}

impl ServerShutdownStatus {
    /// The name the status is reported under.
    pub fn as_str(&self) -> (r: &'static str)
        ensures
            r@ == status_name(*self),
    {
        match self {
            ServerShutdownStatus::Pending => "pending",
            ServerShutdownStatus::Stopping => "stopping",
            ServerShutdownStatus::Stopped => "stopped",
            ServerShutdownStatus::Failed(_) => "failed",
        }
    }
}

fn clone_status(s: &ServerShutdownStatus) -> (r: ServerShutdownStatus)
    ensures
        r == *s,
{
    match s {
        ServerShutdownStatus::Pending => ServerShutdownStatus::Pending,
        ServerShutdownStatus::Stopping => ServerShutdownStatus::Stopping,
        ServerShutdownStatus::Stopped => ServerShutdownStatus::Stopped,
        ServerShutdownStatus::Failed(m) => ServerShutdownStatus::Failed(m.clone()),
    }
}

/// One server in a shutdown report.
#[derive(Clone, Debug)]
pub struct ShutdownServer {
    pub id: i32,
    pub name: String,
    pub error: Option<String>,
    pub status: ServerShutdownStatus,
}

/// A shutdown report.
#[derive(Clone, Debug)]
pub struct ShutdownStatus {
    pub shutting_down: bool,
    pub servers: Vec<ShutdownServer>,
}

/// One tracked server: its id, its name and its status.
pub type Entry = (i32, String, ServerShutdownStatus);

/// Ids strictly increase along the sequence, so each id occurs once.
pub open spec fn sorted_by_id(s: Seq<Entry>) -> bool {
    forall|a: int, b: int| 0 <= a < b < s.len() ==> #[trigger] s[a].0 < #[trigger] s[b].0
}

/// The name and status tracked for `id`, if it is tracked.
pub open spec fn lookup(s: Seq<Entry>, id: i32) -> Option<(String, ServerShutdownStatus)> {
    if exists|i: int| 0 <= i < s.len() && #[trigger] s[i].0 == id {
        let i = choose|i: int| 0 <= i < s.len() && #[trigger] s[i].0 == id;
        Some((s[i].1, s[i].2))
    } else {
        None
    }
}

/// The name last given to `id` in a list of servers, with status `Pending`:
/// what tracking the list from scratch records for `id`.
pub open spec fn initial_entry(list: Seq<(i32, String)>, id: i32) -> Option<(String, ServerShutdownStatus)>
    decreases list.len(),
{
    if list.len() == 0 {
        None
    } else if list.last().0 == id {
        Some((list.last().1, ServerShutdownStatus::Pending))
    } else {
        initial_entry(list.drop_last(), id)
    }
}

/// A report line describes a tracked entry.
pub open spec fn reports(s: ShutdownServer, e: Entry) -> bool {
    &&& s.id == e.0
    &&& s.name == e.1
    &&& s.status == e.2
    &&& s.error == status_error(e.2)
}

proof fn lemma_lookup_at(s: Seq<Entry>, i: int)
    requires
        sorted_by_id(s),
        0 <= i < s.len(),
    ensures
        lookup(s, s[i].0) == Some((s[i].1, s[i].2)),
{
    let id = s[i].0;
    assert(exists|k: int| 0 <= k < s.len() && #[trigger] s[k].0 == id);
    let j = choose|k: int| 0 <= k < s.len() && #[trigger] s[k].0 == id;
    if j < i {
        assert(s[j].0 < s[i].0);
    } else if i < j {
        assert(s[i].0 < s[j].0);
    }
}

/// The shared record of a shutdown in progress.
#[derive(Clone, Debug)]
pub struct ShutdownState {
    shutting_down: bool,
    servers: Vec<Entry>,
}

impl ShutdownState {
    /// The tracked servers, ordered by id.
    pub closed spec fn entries(&self) -> Seq<Entry> {
        self.servers@
    }

    /// Whether the shutdown is still in progress.
    pub closed spec fn in_progress(&self) -> bool {
        self.shutting_down
    }

    /// Each server is tracked once, ordered by id.
    pub closed spec fn wf(&self) -> bool {
        sorted_by_id(self.servers@)
    }

    /// Records `id` with `name` and `status`, replacing what was recorded for it.
    fn upsert(&mut self, id: i32, name: String, status: ServerShutdownStatus)
        requires
            old(self).wf(),
        ensures
            final(self).wf(),
            final(self).shutting_down == old(self).shutting_down,
            forall|x: i32| #[trigger] lookup(final(self).entries(), x) == if x == id {
                Some((name, status))
            } else {
                lookup(old(self).entries(), x)
            },
    {
        let ghost old_s = self.servers@;
        let mut i: usize = 0;
        while i < self.servers.len() && self.servers[i].0 < id
            invariant
                i <= self.servers@.len(),
                self.servers@ == old_s,
                sorted_by_id(old_s),
                forall|k: int| 0 <= k < i ==> #[trigger] old_s[k].0 < id,
            decreases self.servers@.len() - i,
        {
            i = i + 1;
        }
        let ghost e: Entry = (id, name, status);
        if i < self.servers.len() && self.servers[i].0 == id {
            self.servers.set(i, (id, name, status));
            let ghost new_s = self.servers@;
            assert(new_s == old_s.update(i as int, e));
            assert(sorted_by_id(new_s)) by {
                assert forall|a: int, b: int| 0 <= a < b < new_s.len() implies #[trigger] new_s[a].0 < #[trigger] new_s[b].0 by {
                    assert(old_s[a].0 < old_s[b].0);
                }
            }
            assert forall|x: i32| #[trigger] lookup(new_s, x) == if x == id {
                Some((e.1, e.2))
            } else {
                lookup(old_s, x)
            } by {
                if x == id {
                    lemma_lookup_at(new_s, i as int);
                } else if exists|k: int| 0 <= k < old_s.len() && #[trigger] old_s[k].0 == x {
                    let k = choose|k: int| 0 <= k < old_s.len() && #[trigger] old_s[k].0 == x;
                    lemma_lookup_at(old_s, k);
                    lemma_lookup_at(new_s, k);
                } else {
                    assert(!exists|k: int| 0 <= k < new_s.len() && #[trigger] new_s[k].0 == x) by {
                        if exists|k: int| 0 <= k < new_s.len() && #[trigger] new_s[k].0 == x {
                            let k = choose|k: int| 0 <= k < new_s.len() && #[trigger] new_s[k].0 == x;
                            assert(old_s[k].0 == x);
                        }
                    }
                }
            }
        } else {
            self.servers.insert(i, (id, name, status));
            let ghost new_s = self.servers@;
            assert(new_s == old_s.insert(i as int, e));
            assert(sorted_by_id(new_s)) by {
                assert forall|a: int, b: int| 0 <= a < b < new_s.len() implies #[trigger] new_s[a].0 < #[trigger] new_s[b].0 by {
                    if b < i {
                        assert(old_s[a].0 < old_s[b].0);
                    } else if b == i {
                        assert(old_s[a].0 < id);
                    } else if a < i {
                        assert(old_s[a].0 < id);
                        assert(old_s[i as int].0 >= id);
                        if b - 1 > i {
                            assert(old_s[i as int].0 < old_s[b - 1].0);
                        }
                    } else if a == i {
                        assert(old_s[i as int].0 > id);
                        if b - 1 > i {
                            assert(old_s[i as int].0 < old_s[b - 1].0);
                        }
                    } else {
                        assert(old_s[a - 1].0 < old_s[b - 1].0);
                    }
                }
            }
            assert forall|x: i32| #[trigger] lookup(new_s, x) == if x == id {
                Some((e.1, e.2))
            } else {
                lookup(old_s, x)
            } by {
                if x == id {
                    lemma_lookup_at(new_s, i as int);
                } else if exists|k: int| 0 <= k < old_s.len() && #[trigger] old_s[k].0 == x {
                    let k = choose|k: int| 0 <= k < old_s.len() && #[trigger] old_s[k].0 == x;
                    lemma_lookup_at(old_s, k);
                    if k < i {
                        lemma_lookup_at(new_s, k);
                    } else {
                        assert(new_s[k + 1] == old_s[k]);
                        lemma_lookup_at(new_s, k + 1);
                    }
                } else {
                    assert(!exists|k: int| 0 <= k < new_s.len() && #[trigger] new_s[k].0 == x) by {
                        if exists|k: int| 0 <= k < new_s.len() && #[trigger] new_s[k].0 == x {
                            let k = choose|k: int| 0 <= k < new_s.len() && #[trigger] new_s[k].0 == x;
                            if k < i {
                                assert(old_s[k].0 == x);
                            } else if k > i {
                                assert(old_s[k - 1].0 == x);
                            }
                        }
                    }
                }
            }
        }
    }

    /// Starts tracking a shutdown of the given servers, all pending. A server
    /// listed twice keeps the name it is last listed with.
    pub fn init(servers: &[(i32, String)]) -> (r: ShutdownState)
        ensures
            r.wf(),
            r.in_progress(),
            forall|x: i32| #[trigger] lookup(r.entries(), x) == initial_entry(servers@, x),
    {
        let mut st = ShutdownState { shutting_down: true, servers: Vec::new() };
        for k in 0..servers.len()
            invariant
                st.wf(),
                st.shutting_down,
                forall|x: i32| #[trigger] lookup(st.entries(), x) == initial_entry(servers@.take(k as int), x),
        {
            let ghost before = st.entries();
            st.upsert(servers[k].0, servers[k].1.clone(), ServerShutdownStatus::Pending);
            assert(servers@.take(k + 1).drop_last() =~= servers@.take(k as int));
            assert forall|x: i32| #[trigger] lookup(st.entries(), x) == initial_entry(servers@.take(k + 1), x) by {
                assert(lookup(before, x) == initial_entry(servers@.take(k as int), x));
            }
        }
        assert(servers@.take(servers@.len() as int) =~= servers@);
        st
    }

    /// The report of the shutdown: whether it is in progress, and every tracked
    /// server ordered by id, a failed one with its reason as the error.
    pub fn status(&self) -> (r: ShutdownStatus)
        requires
            self.wf(),
        ensures
            r.shutting_down == self.in_progress(),
            r.servers@.len() == self.entries().len(),
            forall|i: int| 0 <= i < r.servers@.len() ==> reports(#[trigger] r.servers@[i], self.entries()[i]),
            forall|a: int, b: int| 0 <= a < b < r.servers@.len() ==> #[trigger] r.servers@[a].id < #[trigger] r.servers@[b].id,
    {
        let mut out: Vec<ShutdownServer> = Vec::new();
        for i in 0..self.servers.len()
            invariant
                out@.len() == i,
                forall|k: int| 0 <= k < i ==> reports(#[trigger] out@[k], self.servers@[k]),
        {
            let (id, name, status) = &self.servers[i];
            let error = match status {
                ServerShutdownStatus::Failed(m) => Some(m.clone()),
                _ => None,
            };
            out.push(ShutdownServer { id: *id, name: name.clone(), error, status: clone_status(status) });
        }
        proof {
            assert forall|a: int, b: int| 0 <= a < b < out@.len() implies #[trigger] out@[a].id < #[trigger] out@[b].id by {
                assert(reports(out@[a], self.servers@[a]));
                assert(reports(out@[b], self.servers@[b]));
                assert(self.servers@[a].0 < self.servers@[b].0);
            }
        }
        ShutdownStatus { shutting_down: self.shutting_down, servers: out }
    }

    fn set_status(&mut self, id: i32, status: ServerShutdownStatus)
        requires
            old(self).wf(),
        ensures
            final(self).wf(),
            final(self).in_progress() == old(self).in_progress(),
            final(self).entries().len() == old(self).entries().len(),
            forall|i: int| 0 <= i < old(self).entries().len() ==> {
                let o = #[trigger] old(self).entries()[i];
                let n = final(self).entries()[i];
                n.0 == o.0 && n.1 == o.1 && n.2 == if o.0 == id { status } else { o.2 }
            },
    {
        let ghost old_s = self.servers@;
        let mut i: usize = 0;
        while i < self.servers.len()
            invariant
                i <= self.servers@.len(),
                self.servers@ == old_s,
                old_s == old(self).servers@,
                self.shutting_down == old(self).shutting_down,
                sorted_by_id(old_s),
                forall|k: int| 0 <= k < i ==> #[trigger] old_s[k].0 != id,
            decreases self.servers@.len() - i,
        {
            if self.servers[i].0 == id {
                let name = self.servers[i].1.clone();
                self.servers.set(i, (id, name, status));
                proof {
                    let new_s = self.servers@;
                    assert forall|a: int, b: int| 0 <= a < b < new_s.len() implies #[trigger] new_s[a].0 < #[trigger] new_s[b].0 by {
                        assert(old_s[a].0 < old_s[b].0);
                    }
                    assert forall|k: int| 0 <= k < old_s.len() && k != i implies #[trigger] old_s[k].0 != id by {
                        if k < i {
                        } else {
                            assert(old_s[i as int].0 < old_s[k].0);
                        }
                    }
                }
                return;
            }
            i = i + 1;
        }
    }

    /// Marks `server_id` as being stopped; other servers, and an id that is
    /// not tracked, are left as they are.
    pub fn set_stopping(&mut self, server_id: i32)
        requires
            old(self).wf(),
        ensures
            final(self).wf(),
            final(self).in_progress() == old(self).in_progress(),
            final(self).entries().len() == old(self).entries().len(),
            forall|i: int| 0 <= i < old(self).entries().len() ==> {
                let o = #[trigger] old(self).entries()[i];
                let n = final(self).entries()[i];
                n.0 == o.0 && n.1 == o.1
                    && n.2 == if o.0 == server_id { ServerShutdownStatus::Stopping } else { o.2 }
            },
    {
        self.set_status(server_id, ServerShutdownStatus::Stopping)
    }

    /// Marks `server_id` as stopped; other servers, and an id that is not
    /// tracked, are left as they are.
    pub fn set_stopped(&mut self, server_id: i32)
        requires
            old(self).wf(),
        ensures
            final(self).wf(),
            final(self).in_progress() == old(self).in_progress(),
            final(self).entries().len() == old(self).entries().len(),
            forall|i: int| 0 <= i < old(self).entries().len() ==> {
                let o = #[trigger] old(self).entries()[i];
                let n = final(self).entries()[i];
                n.0 == o.0 && n.1 == o.1
                    && n.2 == if o.0 == server_id { ServerShutdownStatus::Stopped } else { o.2 }
            },
    {
        self.set_status(server_id, ServerShutdownStatus::Stopped)
    }

    /// Marks `server_id` as failed for `reason`; other servers, and an id that
    /// is not tracked, are left as they are.
    pub fn set_failed(&mut self, server_id: i32, reason: String)
        requires
            old(self).wf(),
        ensures
            final(self).wf(),
            final(self).in_progress() == old(self).in_progress(),
            final(self).entries().len() == old(self).entries().len(),
            forall|i: int| 0 <= i < old(self).entries().len() ==> {
                let o = #[trigger] old(self).entries()[i];
                let n = final(self).entries()[i];
                n.0 == o.0 && n.1 == o.1
                    && n.2 == if o.0 == server_id { ServerShutdownStatus::Failed(reason) } else { o.2 }
            },
    {
        self.set_status(server_id, ServerShutdownStatus::Failed(reason))
    }

    /// Marks the shutdown as finished; the servers are left as they are.
    pub fn mark_complete(&mut self)
        requires
            old(self).wf(),
        ensures
            final(self).wf(),
            !final(self).in_progress(),
            final(self).entries() == old(self).entries(),
    {
        self.shutting_down = false;
    }
}

/// The report when no shutdown was ever started, or the report of the one
/// that was.
pub fn status_of(state: &Option<ShutdownState>) -> (r: ShutdownStatus)
    requires
        state matches Some(s) ==> s.wf(),
    ensures
        state is None ==> !r.shutting_down && r.servers@.len() == 0,
        state matches Some(s) ==> r.shutting_down == s.in_progress()
            && r.servers@.len() == s.entries().len()
            && (forall|i: int| 0 <= i < r.servers@.len() ==> reports(#[trigger] r.servers@[i], s.entries()[i]))
            && forall|a: int, b: int| 0 <= a < b < r.servers@.len() ==> #[trigger] r.servers@[a].id < #[trigger] r.servers@[b].id,
{
    match state {
        Some(s) => s.status(),
        None => ShutdownStatus { shutting_down: false, servers: Vec::new() },
    }
}

/// The live report built from the servers and whether a process of each is
/// still alive: an alive server is stopping, any other has stopped, and the
/// shutdown is in progress while any server is stopping.
pub fn build_status(servers: &[(i32, String, bool)]) -> (r: ShutdownStatus)
    ensures
        r.servers@.len() == servers@.len(),
        forall|i: int| 0 <= i < servers@.len() ==> {
            let s = #[trigger] r.servers@[i];
            &&& s.id == servers@[i].0
            &&& s.name == servers@[i].1
            &&& s.error is None
            &&& s.status == if servers@[i].2 { ServerShutdownStatus::Stopping } else { ServerShutdownStatus::Stopped }
        },
        r.shutting_down == exists|i: int| 0 <= i < servers@.len() && #[trigger] servers@[i].2,
{
    let mut out: Vec<ShutdownServer> = Vec::new();
    let mut any = false;
    for i in 0..servers.len()
        invariant
            out@.len() == i,
            forall|k: int| 0 <= k < i ==> {
                let s = #[trigger] out@[k];
                &&& s.id == servers@[k].0
                &&& s.name == servers@[k].1
                &&& s.error is None
                &&& s.status == if servers@[k].2 { ServerShutdownStatus::Stopping } else { ServerShutdownStatus::Stopped }
            },
            any == exists|k: int| 0 <= k < i && #[trigger] servers@[k].2,
    {
        let (id, name, alive) = &servers[i];
        let status = if *alive { ServerShutdownStatus::Stopping } else { ServerShutdownStatus::Stopped };
        out.push(ShutdownServer { id: *id, name: name.clone(), error: None, status });
        if *alive {
            any = true;
        }
    }
    ShutdownStatus { shutting_down: any, servers: out }
}

/// What the shutdown sequence asks for next.
#[derive(Debug, PartialEq, Eq, Structural)]
pub enum ShutdownStep {
    /// Sleep for this many milliseconds, then call `on_waited`.
    Wait(u64),
    /// Check whether a process of server `i` is alive, then call `on_alive`.
    CheckAlive(usize),
    /// Stop server `i`, then call `on_stopped`.
    Stop(usize),
    /// Exit the program.
    Exit,
}

/// Where the shutdown sequence is.
#[derive(Debug, PartialEq, Eq, Structural)]
pub enum SequencePhase {
    /// The short pause that lets the status page reach the browser.
    Delay,
    /// Checking server `i`, to stop it when it is alive.
    Checking(usize),
    /// Stopping server `i`.
    Stopping(usize),
    /// Round `round` of waiting for the processes to die, checking server `i`.
    Polling { round: u32, i: usize },
    /// Sleeping after round `round` found a process alive.
    PollSleep(u32),
    /// The last pause, that lets the browser read the final status.
    Final,
    /// Finished.
    Done,
}

/// The most rounds of waiting for processes to die (half a second each).
pub const MAX_POLL_ROUNDS: u32 = 60;

proof fn lemma_round_measure(round: int, n: int)
    requires
        0 <= round < MAX_POLL_ROUNDS,
        n >= 0,
    ensures
        (MAX_POLL_ROUNDS - round - 1) * (n + 1) >= 0,
        round + 1 < MAX_POLL_ROUNDS ==> (MAX_POLL_ROUNDS - (round + 1) - 1) * (n + 1) + n + 1
            == (MAX_POLL_ROUNDS - round - 1) * (n + 1),
        (MAX_POLL_ROUNDS - 0 - 1) * (n + 1) + n + 1 == MAX_POLL_ROUNDS * (n + 1),
        MAX_POLL_ROUNDS * (n + 1) >= (MAX_POLL_ROUNDS - round - 1) * (n + 1) + n + 1,
{
    assert((MAX_POLL_ROUNDS - round - 1) * (n + 1) >= 0) by (nonlinear_arith)
        requires 0 <= round < MAX_POLL_ROUNDS, n >= 0;
    assert(round + 1 < MAX_POLL_ROUNDS ==> (MAX_POLL_ROUNDS - (round + 1) - 1) * (n + 1) + n + 1
        == (MAX_POLL_ROUNDS - round - 1) * (n + 1)) by (nonlinear_arith);
    assert((MAX_POLL_ROUNDS - 0 - 1) * (n + 1) + n + 1 == MAX_POLL_ROUNDS * (n + 1)) by (nonlinear_arith);
    assert(MAX_POLL_ROUNDS * (n + 1) >= (MAX_POLL_ROUNDS - round - 1) * (n + 1) + n + 1) by (nonlinear_arith)
        requires 0 <= round < MAX_POLL_ROUNDS, n >= 0;
}

/// The shutdown sequence: after a short pause, every server with a live
/// process is stopped; then, for at most 60 rounds half a second apart, the
/// servers are checked until none is alive; after a last pause the program exits.
pub struct ShutdownSequence {
    servers: usize,
    phase: SequencePhase,
}

impl ShutdownSequence {
    /// The number of servers the sequence works through.
    pub closed spec fn count(&self) -> nat {
        self.servers as nat
    }

    /// Where the sequence is.
    pub closed spec fn spec_phase(&self) -> SequencePhase {
        self.phase
    }

    /// The phase names a server that exists and a round that is allowed.
    pub closed spec fn wf(&self) -> bool {
        match self.phase {
            SequencePhase::Checking(i) => i < self.servers,
            SequencePhase::Stopping(i) => i < self.servers,
            SequencePhase::Polling { round, i } => i < self.servers && round < MAX_POLL_ROUNDS,
            SequencePhase::PollSleep(round) => round < MAX_POLL_ROUNDS && self.servers > 0,
            _ => true,
        }
    }

    /// How far the sequence is from its end: a bound on the events still to
    /// come, zero once it is done.
    pub closed spec fn remaining(&self) -> nat {
        let n = self.servers as int;
        let base = 2 + MAX_POLL_ROUNDS * (n + 1);
        let r: int = match self.phase {
            SequencePhase::Done => 0,
            SequencePhase::Final => 1,
            SequencePhase::PollSleep(round) => 2 + (MAX_POLL_ROUNDS - round - 1) * (n + 1),
            SequencePhase::Polling { round, i } => 2 + (MAX_POLL_ROUNDS - round - 1) * (n + 1) + (n - i),
            SequencePhase::Stopping(i) => base + 2 * (n - i) - 1,
            SequencePhase::Checking(i) => base + 2 * (n - i),
            SequencePhase::Delay => base + 2 * n + 1,
        };
        if r >= 0 { r as nat } else { 0 }
    }

    /// The phase of the sequence.
    pub fn phase(&self) -> (r: &SequencePhase)
        ensures
            *r == self.spec_phase(),
    {
        &self.phase
    }

    /// Starts a shutdown of `servers` servers with the first pause.
    pub fn new(servers: usize) -> (r: (ShutdownSequence, ShutdownStep))
        ensures
            r.0.wf(),
            r.0.count() == servers,
            r.0.spec_phase() == SequencePhase::Delay,
            r.1 == ShutdownStep::Wait(1000),
    {
        (ShutdownSequence { servers, phase: SequencePhase::Delay }, ShutdownStep::Wait(1000))
    }

    /// Starts a round of waiting for the processes to die: check the first
    /// server, or, with no servers, go to the last pause.
    fn begin_round(&mut self, round: u32) -> (step: ShutdownStep)
        requires
            round < MAX_POLL_ROUNDS,
        ensures
            final(self).wf(),
            final(self).servers == old(self).servers,
            old(self).servers > 0 ==> final(self).phase == (SequencePhase::Polling { round, i: 0 })
                && step == ShutdownStep::CheckAlive(0),
            old(self).servers == 0 ==> final(self).phase == SequencePhase::Final && step == ShutdownStep::Wait(3000),
    {
        if self.servers > 0 {
            self.phase = SequencePhase::Polling { round, i: 0 };
            ShutdownStep::CheckAlive(0)
        } else {
            self.phase = SequencePhase::Final;
            ShutdownStep::Wait(3000)
        }
    }

    /// Moves on from server `i` while stopping: check the next one, or start
    /// waiting for the processes to die.
    fn next_to_stop(&mut self, i: usize) -> (step: ShutdownStep)
        requires
            i < old(self).servers,
        ensures
            final(self).wf(),
            final(self).servers == old(self).servers,
            i + 1 < old(self).servers ==> final(self).phase == SequencePhase::Checking((i + 1) as usize)
                && step == ShutdownStep::CheckAlive((i + 1) as usize),
            i + 1 == old(self).servers ==> final(self).phase == (SequencePhase::Polling { round: 0, i: 0 })
                && step == ShutdownStep::CheckAlive(0),
    {
        if i + 1 < self.servers {
            self.phase = SequencePhase::Checking(i + 1);
            ShutdownStep::CheckAlive(i + 1)
        } else {
            self.begin_round(0)
        }
    }

    /// A pause is over: after the first one, the servers are checked one by
    /// one (or, with none, the last pause follows); after a round's sleep, the
    /// next round starts, unless that was the last round; after the last pause,
    /// the program exits.
    pub fn on_waited(&mut self) -> (step: ShutdownStep)
        requires
            old(self).wf(),
        ensures
            final(self).wf(),
            final(self).count() == old(self).count(),
            match old(self).spec_phase() {
                SequencePhase::Delay => if old(self).count() > 0 {
                    final(self).spec_phase() == SequencePhase::Checking(0) && step == ShutdownStep::CheckAlive(0)
                } else {
                    final(self).spec_phase() == SequencePhase::Final && step == ShutdownStep::Wait(3000)
                },
                SequencePhase::PollSleep(round) => if round + 1 < MAX_POLL_ROUNDS {
                    final(self).spec_phase() == (SequencePhase::Polling { round: (round + 1) as u32, i: 0 })
                        && step == ShutdownStep::CheckAlive(0)
                } else {
                    final(self).spec_phase() == SequencePhase::Final && step == ShutdownStep::Wait(3000)
                },
                SequencePhase::Final => final(self).spec_phase() == SequencePhase::Done && step == ShutdownStep::Exit,
                SequencePhase::Done => final(self).spec_phase() == SequencePhase::Done && step == ShutdownStep::Exit,
                _ => final(self).spec_phase() == old(self).spec_phase() && step == ShutdownStep::Wait(0),
            },
            (old(self).spec_phase() is Delay || old(self).spec_phase() is PollSleep || old(self).spec_phase() is Final)
                ==> final(self).remaining() < old(self).remaining(),
    {
        proof {
            match self.phase {
                SequencePhase::PollSleep(round) => lemma_round_measure(round as int, self.servers as int),
                _ => lemma_round_measure(0, self.servers as int),
            }
        }
        match self.phase {
            SequencePhase::Delay => if self.servers > 0 {
                self.phase = SequencePhase::Checking(0);
                ShutdownStep::CheckAlive(0)
            } else {
                self.phase = SequencePhase::Final;
                ShutdownStep::Wait(3000)
            },
            SequencePhase::PollSleep(round) => if round + 1 < MAX_POLL_ROUNDS {
                self.begin_round(round + 1)
            } else {
                self.phase = SequencePhase::Final;
                ShutdownStep::Wait(3000)
            },
            SequencePhase::Final => {
                self.phase = SequencePhase::Done;
                ShutdownStep::Exit
            },
            SequencePhase::Done => ShutdownStep::Exit,
            _ => ShutdownStep::Wait(0),
        }
    }

    /// The answer to a liveness check: while stopping, a live server is
    /// stopped and a dead one skipped; while waiting, a live server ends the
    /// round with a half-second sleep, and when every server is dead the last
    /// pause follows.
    pub fn on_alive(&mut self, alive: bool) -> (step: ShutdownStep)
        requires
            old(self).wf(),
        ensures
            final(self).wf(),
            final(self).count() == old(self).count(),
            match old(self).spec_phase() {
                SequencePhase::Checking(i) => if alive {
                    final(self).spec_phase() == SequencePhase::Stopping(i) && step == ShutdownStep::Stop(i)
                } else if i + 1 < old(self).count() {
                    final(self).spec_phase() == SequencePhase::Checking((i + 1) as usize)
                        && step == ShutdownStep::CheckAlive((i + 1) as usize)
                } else {
                    final(self).spec_phase() == (SequencePhase::Polling { round: 0, i: 0 })
                        && step == ShutdownStep::CheckAlive(0)
                },
                SequencePhase::Polling { round, i } => if alive {
                    final(self).spec_phase() == SequencePhase::PollSleep(round) && step == ShutdownStep::Wait(500)
                } else if i + 1 < old(self).count() {
                    final(self).spec_phase() == (SequencePhase::Polling { round, i: (i + 1) as usize })
                        && step == ShutdownStep::CheckAlive((i + 1) as usize)
                } else {
                    final(self).spec_phase() == SequencePhase::Final && step == ShutdownStep::Wait(3000)
                },
                _ => final(self).spec_phase() == old(self).spec_phase() && step == ShutdownStep::Wait(0),
            },
            (old(self).spec_phase() is Checking || old(self).spec_phase() is Polling)
                ==> final(self).remaining() < old(self).remaining(),
    {
        proof {
            match self.phase {
                SequencePhase::Polling { round, i } => lemma_round_measure(round as int, self.servers as int),
                _ => lemma_round_measure(0, self.servers as int),
            }
        }
        match self.phase {
            SequencePhase::Checking(i) => if alive {
                self.phase = SequencePhase::Stopping(i);
                ShutdownStep::Stop(i)
            } else {
                self.next_to_stop(i)
            },
            SequencePhase::Polling { round, i } => if alive {
                self.phase = SequencePhase::PollSleep(round);
                ShutdownStep::Wait(500)
            } else if i + 1 < self.servers {
                self.phase = SequencePhase::Polling { round, i: i + 1 };
                ShutdownStep::CheckAlive(i + 1)
            } else {
                self.phase = SequencePhase::Final;
                ShutdownStep::Wait(3000)
            },
            _ => ShutdownStep::Wait(0),
        }
    }

    /// A server was stopped (whether or not stopping it succeeded): move on
    /// to the next one.
    pub fn on_stopped(&mut self) -> (step: ShutdownStep)
        requires
            old(self).wf(),
        ensures
            final(self).wf(),
            final(self).count() == old(self).count(),
            match old(self).spec_phase() {
                SequencePhase::Stopping(i) => if i + 1 < old(self).count() {
                    final(self).spec_phase() == SequencePhase::Checking((i + 1) as usize)
                        && step == ShutdownStep::CheckAlive((i + 1) as usize)
                } else {
                    final(self).spec_phase() == (SequencePhase::Polling { round: 0, i: 0 })
                        && step == ShutdownStep::CheckAlive(0)
                },
                _ => final(self).spec_phase() == old(self).spec_phase() && step == ShutdownStep::Wait(0),
            },
            old(self).spec_phase() is Stopping ==> final(self).remaining() < old(self).remaining(),
    {
        proof { lemma_round_measure(0, self.servers as int); }
        match self.phase {
            SequencePhase::Stopping(i) => self.next_to_stop(i),
            _ => ShutdownStep::Wait(0),
        }
    }
}

/// The shutdown sequence has nothing left exactly when it is done.
pub proof fn lemma_sequence_ends(seq: ShutdownSequence)
    requires
        seq.wf(),
    ensures
        (seq.remaining() == 0) == (seq.spec_phase() == SequencePhase::Done),
{
    match seq.phase {
        SequencePhase::PollSleep(round) => lemma_round_measure(round as int, seq.servers as int),
        SequencePhase::Polling { round, i } => lemma_round_measure(round as int, seq.servers as int),
        _ => lemma_round_measure(0, seq.servers as int),
    }
}

} // verus!
