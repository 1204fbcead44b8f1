//! Decisions taken while the application boots: which recorded migrations
//! are stale, the version label it reports, and the servers it starts and stops.
use vstd::prelude::*;

use crate::game_servers::Model as ServerModel;
use crate::status::ServerStatus;
use crate::text::{cat, str_eq};

verus! {

/// The views of a list of strings.
pub open spec fn views(v: Seq<String>) -> Seq<Seq<char>> {
    Seq::new(v.len(), |i: int| v[i]@)
}

/// The applied migrations that no longer exist, in the order they were applied.
pub open spec fn stale(applied: Seq<Seq<char>>, available: Seq<Seq<char>>) -> Seq<Seq<char>>
    decreases applied.len(),
{
    if applied.len() == 0 {
        seq![]
    } else {
        let r = stale(applied.drop_last(), available);
        if available.contains(applied.last()) {
            r
        } else {
            r.push(applied.last())
        }
    }
}

fn listed(available: &Vec<String>, name: &str) -> (r: bool)
    ensures
        r == views(available@).contains(name@),
{
    for i in 0..available.len()
        invariant
            forall|k: int| 0 <= k < i ==> available@[k]@ != name@,
    {
        if str_eq(available[i].as_str(), name) {
            assert(views(available@)[i as int] == name@);
            return true;
        }
    }
    assert forall|k: int| 0 <= k < views(available@).len() implies views(available@)[k] != name@ by {
        assert(views(available@)[k] == available@[k]@);
    }
    false
}

/// The recorded migrations to remove: those applied that are not among the
/// migrations this build knows.
pub fn stale_migrations(applied: &Vec<String>, available: &Vec<String>) -> (r: Vec<String>)
    ensures
        views(r@) == stale(views(applied@), views(available@)),
{
    let mut out: Vec<String> = Vec::new();
    for i in 0..applied.len()
        invariant
            views(out@) == stale(views(applied@).take(i as int), views(available@)),
    {
        let ghost before = out@;
        assert(views(applied@).take(i + 1).drop_last() =~= views(applied@).take(i as int));
        assert(views(applied@).take(i + 1).last() == applied@[i as int]@);
        if !listed(available, applied[i].as_str()) {
            out.push(applied[i].clone());
            assert(views(out@) =~= views(before).push(applied@[i as int]@));
        }
    }
    assert(views(applied@).take(applied@.len() as int) =~= views(applied@));
    out
}

/// The application.
pub struct App;

impl App {
    /// The application's name.
    pub fn app_name() -> (r: &'static str)
        ensures
            r@ == "game_smith"@,
    {
        "game_smith"
    }

    /// The version label: the package version and, in brackets, the commit
    /// it was built from (`BUILD_SHA`, else `GITHUB_SHA`), or `dev`.
    pub fn app_version(version: &str, build_sha: Option<&str>, github_sha: Option<&str>) -> (r: String)
        ensures
            r@ == version@ + " ("@ + match build_sha {
                Some(s) => s@,
                None => match github_sha {
                    Some(g) => g@,
                    None => "dev"@,
                },
            } + ")"@,
    {
        let sha = match build_sha {
            Some(s) => s,
            None => match github_sha {
                Some(g) => g,
                None => "dev",
            },
        };
        let r = cat(version, " (");
        let r = cat(r.as_str(), sha);
        cat(r.as_str(), ")")
    }
}

/// How starting one auto-start server at boot went.
#[derive(Debug, Clone, Copy, PartialEq, Eq, Structural)]
pub enum AutoStartOutcome {
    /// A process was launched.
    Started,
    /// Skipped: already running, installing, or nothing to launch.
    Skipped,
    /// Starting failed.
    Failed,
}

/// The number of servers started among the outcomes.
pub open spec fn started_count(outcomes: Seq<AutoStartOutcome>) -> nat
    decreases outcomes.len(),
{
    if outcomes.len() == 0 {
        0
    } else {
        started_count(outcomes.drop_last()) + if outcomes.last() == AutoStartOutcome::Started { 1nat } else { 0nat }
    }
}

proof fn lemma_started_count_bound(outcomes: Seq<AutoStartOutcome>)
    ensures
        started_count(outcomes) <= outcomes.len(),
    decreases outcomes.len(),
{
    if outcomes.len() > 0 {
        lemma_started_count_bound(outcomes.drop_last());
    }
}

/// The boot summary of auto-starting servers: how many were started, out of how many.
pub fn auto_start_tally(outcomes: &Vec<AutoStartOutcome>) -> (r: (usize, usize))
    ensures
        r.0 == started_count(outcomes@),
        r.1 == outcomes@.len(),
        r.0 <= r.1,
{
    let mut started: usize = 0;
    for i in 0..outcomes.len()
        invariant
            started == started_count(outcomes@.take(i as int)),
            started <= i,
    {
        assert(outcomes@.take(i + 1).drop_last() =~= outcomes@.take(i as int));
        if outcomes[i] == AutoStartOutcome::Started {
            started = started + 1;
        }
    }
    assert(outcomes@.take(outcomes@.len() as int) =~= outcomes@);
    proof { lemma_started_count_bound(outcomes@); }
    (started, outcomes.len())
}

/// The positions of the servers whose stored status is `running`: those
/// stopped when the application shuts down.
pub fn running_servers(servers: &Vec<ServerModel>) -> (r: Vec<usize>)
    ensures
        forall|k: int| 0 <= k < r@.len() ==> r@[k] < servers@.len()
            && ServerStatus::parsed(servers@[r@[k] as int].status@) == ServerStatus::Running,
        forall|i: int| 0 <= i < servers@.len()
            && ServerStatus::parsed(#[trigger] servers@[i].status@) == ServerStatus::Running
            ==> r@.contains(i as usize),
        forall|a: int, b: int| 0 <= a < b < r@.len() ==> r@[a] < r@[b],
{
    let mut r: Vec<usize> = Vec::new();
    for i in 0..servers.len()
        invariant
            forall|k: int| 0 <= k < r@.len() ==> r@[k] < i
                && ServerStatus::parsed(servers@[r@[k] as int].status@) == ServerStatus::Running,
            forall|j: int| 0 <= j < i
                && ServerStatus::parsed(#[trigger] servers@[j].status@) == ServerStatus::Running
                ==> r@.contains(j as usize),
            forall|a: int, b: int| 0 <= a < b < r@.len() ==> r@[a] < r@[b],
    {
        if servers[i].is_running() {
            let ghost before = r@;
            r.push(i);
            assert forall|j: int| 0 <= j < i + 1
                && ServerStatus::parsed(#[trigger] servers@[j].status@) == ServerStatus::Running
                implies r@.contains(j as usize) by {
                if j < i {
                    assert(before.contains(j as usize));
                    let w = choose|w: int| 0 <= w < before.len() && before[w] == j as usize;
                    assert(r@[w] == j as usize);
                } else {
                    assert(r@[before.len() as int] == i);
                }
            }
        }
    }
    r
}

} // verus!
