//! The order in which a server's command run processes are signalled when it stops.
//!
//! The caller performs each check and signal and reports the outcome; the
//! [`Terminator`] decides what comes next.
use vstd::prelude::*;

use crate::command_runs::Model as RunModel;

verus! {

/// The next operation on the processes of a server.
#[derive(Debug, PartialEq, Eq, Structural)]
pub enum TermAction {
    /// Check whether this PID is alive.
    CheckAlive(i64),
    /// Send the termination signal to the process group led by this PID.
    SignalGroup(i64),
    /// Send the termination signal to this single PID.
    SignalPid(i64),
    /// Every run has been handled.
    Done,
}

/// Which run the terminator is handling, and how far.
#[derive(Debug, Clone, Copy, PartialEq, Eq, Structural)]
pub enum TermStage {
    /// Waiting for the liveness of run `i`'s PID.
    Probing(usize),
    /// Waiting for the result of signalling run `i`'s process group.
    Grouping(usize),
    /// Waiting for the single-PID signal of run `i` to be sent.
    Falling(usize),
    /// No run is left.
    Finished,
}

/// Stop sequence over the PIDs of a server's runs (`None` for a run without PID).
pub struct Terminator {
    pub pids: Vec<Option<i64>>,
    /// Whether a live process is first signalled through its process group.
    pub group_first: bool,
    pub stage: TermStage,
}

/// The first position at or after `from` whose run has a PID (`pids.len()` if none).
pub open spec fn next_with_pid(pids: Seq<Option<i64>>, from: int) -> int
    decreases pids.len() - from,
{
    if from < 0 || from >= pids.len() {
        pids.len() as int
    } else if pids[from] is Some {
        from
    } else {
        next_with_pid(pids, from + 1)
    }
}

/// The action that resumes the scan at position `from`: a liveness check of
/// the next run with a PID, or `Done` when none is left.
pub open spec fn resume_action(pids: Seq<Option<i64>>, from: int) -> TermAction {
    let k = next_with_pid(pids, from);
    if k < pids.len() {
        TermAction::CheckAlive(pids[k]->0)
    } else {
        TermAction::Done
    }
}

/// The stage the scan resumed at position `from` is in.
pub open spec fn resume_stage(pids: Seq<Option<i64>>, from: int) -> TermStage {
    let k = next_with_pid(pids, from);
    if k < pids.len() {
        TermStage::Probing(k as usize)
    } else {
        TermStage::Finished
    }
}

/// The action and stage that resume the scan at position `from`.
pub open spec fn resume(pids: Seq<Option<i64>>, from: int, action: TermAction, stage: TermStage) -> bool {
    let k = next_with_pid(pids, from);
    if k < pids.len() {
        action == TermAction::CheckAlive(pids[k]->0) && stage == TermStage::Probing(k as usize)
    } else {
        action == TermAction::Done && stage == TermStage::Finished
    }
}

proof fn lemma_next_with_pid_range(pids: Seq<Option<i64>>, from: int)
    requires
        0 <= from,
    ensures
        from <= next_with_pid(pids, from) <= pids.len() || (from > pids.len() && next_with_pid(pids, from) == pids.len()),
        next_with_pid(pids, from) < pids.len() ==> pids[next_with_pid(pids, from)] is Some,
    decreases pids.len() - from,
{
    if from < pids.len() && pids[from] is None {
        lemma_next_with_pid_range(pids, from + 1);
    }
}

/// A bound on the events still to come when `n` runs are handled from `stage`:
/// three per run from the current one on, fewer as the current run advances.
pub open spec fn stage_remaining(n: int, stage: TermStage) -> int {
    match stage {
        TermStage::Probing(i) => 3 * (n - i),
        TermStage::Grouping(i) => 3 * (n - i) - 1,
        TermStage::Falling(i) => 3 * (n - i) - 2,
        TermStage::Finished => 0,
    }
}

proof fn lemma_resume_remaining(pids: Seq<Option<i64>>, from: int, action: TermAction, stage: TermStage)
    requires
        0 <= from <= pids.len(),
        pids.len() <= usize::MAX,
        resume(pids, from, action, stage),
    ensures
        0 <= stage_remaining(pids.len() as int, stage) <= 3 * (pids.len() - from),
{
    lemma_next_with_pid_range(pids, from);
    let k = next_with_pid(pids, from);
    if k < pids.len() {
        assert((k as usize) as int == k);
    }
}

impl Terminator {
    /// Positions in the stage are in range and name runs that have a PID.
    pub open spec fn wf(&self) -> bool {
        match self.stage {
            TermStage::Probing(i) => i < self.pids@.len() && self.pids@[i as int] is Some,
            TermStage::Grouping(i) => i < self.pids@.len() && self.pids@[i as int] is Some,
            TermStage::Falling(i) => i < self.pids@.len() && self.pids@[i as int] is Some,
            TermStage::Finished => true,
        }
    }

    fn scan_from(&mut self, from: usize) -> (action: TermAction)
        requires
            from <= old(self).pids@.len(),
        ensures
            final(self).pids == old(self).pids,
            final(self).group_first == old(self).group_first,
            final(self).wf(),
            resume(final(self).pids@, from as int, action, final(self).stage),
    {
        let mut k = from;
        while k < self.pids.len() && self.pids[k].is_none()
            invariant
                from <= k <= self.pids@.len(),
                next_with_pid(self.pids@, from as int) == next_with_pid(self.pids@, k as int),
            decreases self.pids@.len() - k,
        {
            k = k + 1;
        }
        proof { lemma_next_with_pid_range(self.pids@, k as int); }
        if k < self.pids.len() {
            let pid = match self.pids[k] {
                Some(p) => p,
                None => 0,
            };
            self.stage = TermStage::Probing(k);
            TermAction::CheckAlive(pid)
        } else {
            self.stage = TermStage::Finished;
            TermAction::Done
        }
    }

    /// Start over `pids`: the first run with a PID is checked for liveness.
    pub fn new(pids: Vec<Option<i64>>, group_first: bool) -> (r: (Terminator, TermAction))
        ensures
            r.0.pids@ == pids@,
            r.0.group_first == group_first,
            r.0.wf(),
            resume(pids@, 0, r.1, r.0.stage),
            r.1 == resume_action(pids@, 0) && r.0.stage == resume_stage(pids@, 0),
    {
        let mut t = Terminator { pids, group_first, stage: TermStage::Finished };
        let a = t.scan_from(0);
        (t, a)
    }

    /// The PIDs of `runs`, in order.
    pub fn run_pids(runs: &[RunModel]) -> (r: Vec<Option<i64>>)
        ensures
            r@.len() == runs@.len(),
            forall|i: int| 0 <= i < runs@.len() ==> r@[i] == runs@[i].pid,
    {
        let mut r: Vec<Option<i64>> = Vec::new();
        for i in 0..runs.len()
            invariant
                r@.len() == i,
                forall|j: int| 0 <= j < i ==> r@[j] == runs@[j].pid,
        {
            r.push(runs[i].pid);
        }
        r
    }

    /// The liveness of the PID being probed: a dead process is skipped; a live one is
    /// signalled through its group when `group_first`, otherwise directly.
    pub fn on_alive(&mut self, alive: bool) -> (action: TermAction)
        requires
            old(self).wf(),
            old(self).stage matches TermStage::Probing(_),
        ensures
            final(self).pids == old(self).pids,
            final(self).group_first == old(self).group_first,
            final(self).wf(),
            old(self).stage matches TermStage::Probing(i) && {
                let pid = old(self).pids@[i as int]->0;
                if !alive {
                    resume(final(self).pids@, i + 1, action, final(self).stage)
                } else if old(self).group_first {
                    action == TermAction::SignalGroup(pid) && final(self).stage
                        == TermStage::Grouping(i)
                } else {
                    action == TermAction::SignalPid(pid) && final(self).stage == TermStage::Falling(i)
                }
            },
            0 <= stage_remaining(final(self).pids@.len() as int, final(self).stage)
                < stage_remaining(old(self).pids@.len() as int, old(self).stage),
            (action, final(self).stage) == term_step(old(self).pids@, old(self).group_first, old(self).stage, alive, 0),
    {
        let i = match self.stage {
            TermStage::Probing(i) => i,
            _ => 0,
        };
        let pid = match self.pids[i] {
            Some(p) => p,
            None => 0,
        };
        if !alive {
            let _n = self.pids.len();
            let a = self.scan_from(i + 1);
            proof { lemma_resume_remaining(self.pids@, i + 1, a, self.stage); }
            a
        } else if self.group_first {
            self.stage = TermStage::Grouping(i);
            TermAction::SignalGroup(pid)
        } else {
            self.stage = TermStage::Falling(i);
            TermAction::SignalPid(pid)
        }
    }

    /// The result of signalling the group (0 on success): on failure the single PID is
    /// signalled; otherwise the scan moves to the next run.
    pub fn on_group_signal(&mut self, ret: i32) -> (action: TermAction)
        requires
            old(self).wf(),
            old(self).stage matches TermStage::Grouping(_),
        ensures
            final(self).pids == old(self).pids,
            final(self).group_first == old(self).group_first,
            final(self).wf(),
            old(self).stage matches TermStage::Grouping(i) && if ret == 0 {
                resume(final(self).pids@, i + 1, action, final(self).stage)
            } else {
                action == TermAction::SignalPid(old(self).pids@[i as int]->0) && final(self).stage
                    == TermStage::Falling(i)
            },
            0 <= stage_remaining(final(self).pids@.len() as int, final(self).stage)
                < stage_remaining(old(self).pids@.len() as int, old(self).stage),
            (action, final(self).stage) == term_step(old(self).pids@, old(self).group_first, old(self).stage, true, ret),
    {
        let i = match self.stage {
            TermStage::Grouping(i) => i,
            _ => 0,
        };
        if ret == 0 {
            let _n = self.pids.len();
            let a = self.scan_from(i + 1);
            proof { lemma_resume_remaining(self.pids@, i + 1, a, self.stage); }
            a
        } else {
            let pid = match self.pids[i] {
                Some(p) => p,
                None => 0,
            };
            self.stage = TermStage::Falling(i);
            TermAction::SignalPid(pid)
        }
    }

    /// The single-PID signal was sent: the scan moves to the next run.
    pub fn on_pid_signal(&mut self) -> (action: TermAction)
        requires
            old(self).wf(),
            old(self).stage matches TermStage::Falling(_),
        ensures
            final(self).pids == old(self).pids,
            final(self).group_first == old(self).group_first,
            final(self).wf(),
            old(self).stage matches TermStage::Falling(i) && resume(
                final(self).pids@,
                i + 1,
                action,
                final(self).stage,
            ),
            0 <= stage_remaining(final(self).pids@.len() as int, final(self).stage)
                < stage_remaining(old(self).pids@.len() as int, old(self).stage),
            (action, final(self).stage) == term_step(old(self).pids@, old(self).group_first, old(self).stage, true, 0),
    {
        let i = match self.stage {
            TermStage::Falling(i) => i,
            _ => 0,
        };
        let _n = self.pids.len();
        let a = self.scan_from(i + 1);
        proof { lemma_resume_remaining(self.pids@, i + 1, a, self.stage); }
        a
    }
}

/// What the terminator does with an answer in `stage`: the next action and
/// stage. In `Probing`, `alive` is the liveness of the run's PID; in
/// `Grouping`, `ret` is what signalling the group returned; in `Falling` the
/// single signal was sent.
pub open spec fn term_step(
    pids: Seq<Option<i64>>,
    group_first: bool,
    stage: TermStage,
    alive: bool,
    ret: i32,
) -> (TermAction, TermStage) {
    match stage {
        TermStage::Probing(i) => if !alive {
            (resume_action(pids, i + 1), resume_stage(pids, i + 1))
        } else if group_first {
            (TermAction::SignalGroup(pids[i as int]->0), TermStage::Grouping(i))
        } else {
            (TermAction::SignalPid(pids[i as int]->0), TermStage::Falling(i))
        },
        TermStage::Grouping(i) => if ret == 0 {
            (resume_action(pids, i + 1), resume_stage(pids, i + 1))
        } else {
            (TermAction::SignalPid(pids[i as int]->0), TermStage::Falling(i))
        },
        TermStage::Falling(i) => (resume_action(pids, i + 1), resume_stage(pids, i + 1)),
        TermStage::Finished => (TermAction::Done, TermStage::Finished),
    }
}

/// A stage the terminator can be in over `pids`: finished, or at a run with
/// a PID.
pub open spec fn stage_ok(pids: Seq<Option<i64>>, stage: TermStage) -> bool {
    &&& pids.len() <= usize::MAX
    &&& match stage {
        TermStage::Probing(i) => i < pids.len() && pids[i as int] is Some,
        TermStage::Grouping(i) => i < pids.len() && pids[i as int] is Some,
        TermStage::Falling(i) => i < pids.len() && pids[i as int] is Some,
        TermStage::Finished => true,
    }
}

/// Resuming the scan at `from` lands on a stage the terminator can be in,
/// with no more events to come than the runs from `from` on allow.
pub proof fn lemma_resume_stage_ok(pids: Seq<Option<i64>>, from: int)
    requires
        0 <= from <= pids.len(),
        pids.len() <= usize::MAX,
    ensures
        stage_ok(pids, resume_stage(pids, from)),
        stage_remaining(pids.len() as int, resume_stage(pids, from)) <= 3 * (pids.len() - from),
        resume(pids, from, resume_action(pids, from), resume_stage(pids, from)),
{
    lemma_next_with_pid_range(pids, from);
    let k = next_with_pid(pids, from);
    if k < pids.len() {
        assert((k as usize) as int == k);
    }
}

/// The actions the terminator gives from `stage` on, when every liveness
/// check of run `i` is answered `alive(i)` and every group signal of run `i`
/// returns `ret(i)`.
pub open spec fn term_trace(
    pids: Seq<Option<i64>>,
    group_first: bool,
    stage: TermStage,
    alive: spec_fn(int) -> bool,
    ret: spec_fn(int) -> i32,
) -> Seq<TermAction>
    decreases stage_remaining(pids.len() as int, stage),
    when stage_ok(pids, stage)
{
    match stage {
        TermStage::Finished => seq![],
        TermStage::Probing(i) => {
            let (a, next) = term_step(pids, group_first, stage, alive(i as int), 0);
            proof {
                lemma_resume_stage_ok(pids, i + 1);
            }
            seq![a] + term_trace(pids, group_first, next, alive, ret)
        },
        TermStage::Grouping(i) => {
            let (a, next) = term_step(pids, group_first, stage, true, ret(i as int));
            proof {
                lemma_resume_stage_ok(pids, i + 1);
            }
            seq![a] + term_trace(pids, group_first, next, alive, ret)
        },
        TermStage::Falling(i) => {
            let (a, next) = term_step(pids, group_first, stage, true, 0);
            proof {
                lemma_resume_stage_ok(pids, i + 1);
            }
            seq![a] + term_trace(pids, group_first, next, alive, ret)
        },
    }
}

/// What stopping the runs from position `from` on does, run by run: a run
/// without a PID is left alone; a run with PID `p` is checked for liveness,
/// and, when alive, signalled through its group (and then directly when the
/// group signal failed) if `group_first`, or else signalled directly.
pub open spec fn run_signals(
    pids: Seq<Option<i64>>,
    from: int,
    group_first: bool,
    alive: spec_fn(int) -> bool,
    ret: spec_fn(int) -> i32,
) -> Seq<TermAction>
    decreases pids.len() - from,
{
    if from < 0 || from >= pids.len() {
        seq![]
    } else {
        let rest = run_signals(pids, from + 1, group_first, alive, ret);
        match pids[from] {
            None => rest,
            Some(p) => {
                let signals = if !alive(from) {
                    seq![]
                } else if group_first {
                    if ret(from) == 0 {
                        seq![TermAction::SignalGroup(p)]
                    } else {
                        seq![TermAction::SignalGroup(p), TermAction::SignalPid(p)]
                    }
                } else {
                    seq![TermAction::SignalPid(p)]
                };
                seq![TermAction::CheckAlive(p)] + signals + rest
            },
        }
    }
}

proof fn lemma_skip_without_pid(
    pids: Seq<Option<i64>>,
    from: int,
    group_first: bool,
    alive: spec_fn(int) -> bool,
    ret: spec_fn(int) -> i32,
)
    requires
        0 <= from <= pids.len(),
    ensures
        run_signals(pids, from, group_first, alive, ret) == run_signals(
            pids,
            next_with_pid(pids, from),
            group_first,
            alive,
            ret,
        ),
    decreases pids.len() - from,
{
    if from < pids.len() && pids[from] is None {
        lemma_skip_without_pid(pids, from + 1, group_first, alive, ret);
    }
}

proof fn lemma_trace_from(
    pids: Seq<Option<i64>>,
    from: int,
    group_first: bool,
    alive: spec_fn(int) -> bool,
    ret: spec_fn(int) -> i32,
)
    requires
        0 <= from <= pids.len(),
        pids.len() <= usize::MAX,
    ensures
        seq![resume_action(pids, from)] + term_trace(pids, group_first, resume_stage(pids, from), alive, ret)
            == run_signals(pids, from, group_first, alive, ret).push(TermAction::Done),
    decreases pids.len() - from,
{
    lemma_next_with_pid_range(pids, from);
    lemma_skip_without_pid(pids, from, group_first, alive, ret);
    lemma_resume_stage_ok(pids, from);
    let k = next_with_pid(pids, from);
    if k >= pids.len() {
        assert(run_signals(pids, k, group_first, alive, ret) == Seq::<TermAction>::empty());
        assert(seq![TermAction::Done] + Seq::<TermAction>::empty() =~= Seq::<TermAction>::empty().push(
            TermAction::Done,
        ));
    } else {
        let p = pids[k]->0;
        let ku = k as usize;
        assert(ku as int == k);
        lemma_trace_from(pids, k + 1, group_first, alive, ret);
        lemma_resume_stage_ok(pids, k + 1);
        let after = seq![resume_action(pids, k + 1)] + term_trace(
            pids,
            group_first,
            resume_stage(pids, k + 1),
            alive,
            ret,
        );
        let rest = run_signals(pids, k + 1, group_first, alive, ret);
        assert(after == rest.push(TermAction::Done));
        let probing = term_trace(pids, group_first, TermStage::Probing(ku), alive, ret);
        if !alive(k) {
            assert(probing == after);
            assert(seq![TermAction::CheckAlive(p)] + probing =~= (seq![TermAction::CheckAlive(p)]
                + Seq::<TermAction>::empty() + rest).push(TermAction::Done));
        } else if group_first {
            let grouping = term_trace(pids, group_first, TermStage::Grouping(ku), alive, ret);
            assert(probing == seq![TermAction::SignalGroup(p)] + grouping);
            if ret(k) == 0 {
                assert(grouping == after);
                assert(seq![TermAction::CheckAlive(p)] + probing =~= (seq![TermAction::CheckAlive(p)]
                    + seq![TermAction::SignalGroup(p)] + rest).push(TermAction::Done));
            } else {
                let falling = term_trace(pids, group_first, TermStage::Falling(ku), alive, ret);
                assert(grouping == seq![TermAction::SignalPid(p)] + falling);
                assert(falling == after);
                assert(seq![TermAction::CheckAlive(p)] + probing =~= (seq![TermAction::CheckAlive(p)]
                    + seq![TermAction::SignalGroup(p), TermAction::SignalPid(p)] + rest).push(
                    TermAction::Done,
                ));
            }
        } else {
            let falling = term_trace(pids, group_first, TermStage::Falling(ku), alive, ret);
            assert(probing == seq![TermAction::SignalPid(p)] + falling);
            assert(falling == after);
            assert(seq![TermAction::CheckAlive(p)] + probing =~= (seq![TermAction::CheckAlive(p)]
                + seq![TermAction::SignalPid(p)] + rest).push(TermAction::Done));
        }
    }
}

/// Stopping a server's runs, whole: started by [`Terminator::new`] and driven
/// by answering each liveness check of run `i` with `alive(i)` and each group
/// signal of run `i` with `ret(i)` (the answers the `on_*` methods take, whose
/// steps are [`term_step`]), the terminator gives, in run order, for each run
/// with PID `p`: a liveness check of `p`; then, when it is alive, a group
/// signal of `p` followed by a direct signal of `p` only if the group signal
/// failed (with `group_first`), or a direct signal of `p` (without). Runs
/// without a PID and dead processes get no signal. The last action is `Done`.
pub proof fn lemma_whole_termination(
    pids: Seq<Option<i64>>,
    group_first: bool,
    alive: spec_fn(int) -> bool,
    ret: spec_fn(int) -> i32,
)
    requires
        pids.len() <= usize::MAX,
    ensures
        seq![resume_action(pids, 0)] + term_trace(pids, group_first, resume_stage(pids, 0), alive, ret)
            == run_signals(pids, 0, group_first, alive, ret).push(TermAction::Done),
{
    lemma_trace_from(pids, 0, group_first, alive, ret);
}

/// The PIDs to send the termination signal to when stopping runs: those recorded, in order.
pub fn pids_to_signal(runs: &[RunModel]) -> (r: Vec<i64>)
    ensures
        r@ == recorded_pids(runs@),
{
    let mut r: Vec<i64> = Vec::new();
    for i in 0..runs.len()
        invariant
            r@ == recorded_pids(runs@.take(i as int)),
    {
        assert(runs@.take(i + 1).drop_last() =~= runs@.take(i as int));
        match runs[i].pid {
            Some(p) => r.push(p),
            None => {},
        }
    }
    assert(runs@.take(runs@.len() as int) =~= runs@);
    r
}

/// The recorded PIDs of `runs`, in order.
pub open spec fn recorded_pids(runs: Seq<RunModel>) -> Seq<i64>
    decreases runs.len(),
{
    if runs.len() == 0 {
        seq![]
    } else {
        let r = recorded_pids(runs.drop_last());
        match runs.last().pid {
            Some(p) => r.push(p),
            None => r,
        }
    }
}

/// Stopping a server's processes ends: nothing is left exactly when every
/// run has been handled, and each answered step leaves less (see the
/// `on_*` methods of [`Terminator`]).
pub proof fn lemma_termination_ends(t: Terminator)
    requires
        t.wf(),
    ensures
        stage_remaining(t.pids@.len() as int, t.stage) >= 0,
        (stage_remaining(t.pids@.len() as int, t.stage) == 0) == (t.stage == TermStage::Finished),
{
}

} // verus!
