//! Linux process launching and termination.
use vstd::prelude::*;

use crate::command_runs::Model as RunModel;
use crate::dirs::path_join;
use crate::installer::first_existing;
use crate::process::{
    lemma_whole_termination, resume, resume_action, resume_stage, run_signals, term_trace, TermAction,
    Terminator,
};

verus! {

/// The termination signal (`SIGTERM`).
pub const TERM_SIGNAL: i32 = 15;

#[verifier::external_type_specification]
#[verifier::external_body]
pub struct ExIoError(std::io::Error);

/// Prepare the shell command for executing a boot script: `/bin/sh -c {script}`.
/// The install directory plays no part on Linux.
pub fn prepare_boot_command(_install_dir: &str, script: &str) -> (r: Result<(String, Vec<String>), std::io::Error>)
    ensures
        r matches Ok((cmd, args)) && cmd@ == "/bin/sh"@ && args.deep_view() == seq!["-c"@, script@],
{
    let mut args: Vec<String> = Vec::new();
    args.push("-c".to_owned());
    args.push(script.to_owned());
    assert(args.deep_view() =~= seq!["-c"@, script@]);
    Ok(("/bin/sh".to_owned(), args))
}

/// The names probed for a server executable on Linux, in order: native binaries
/// first, then `.exe` variants of cross-platform installs.
pub open spec fn executable_candidates() -> Seq<Seq<char>> {
    seq![
        "srcds_run"@,
        "srcds"@,
        "hl_linux"@,
        "hlds_run"@,
        "server"@,
        "game-server"@,
        "srcds_run.exe"@,
        "srcds.exe"@,
        "server.exe"@,
        "game-server.exe"@,
    ]
}

fn candidate_list() -> (r: Vec<String>)
    ensures
        r.deep_view() == executable_candidates(),
{
    let mut r: Vec<String> = Vec::new();
    r.push("srcds_run".to_owned());
    r.push("srcds".to_owned());
    r.push("hl_linux".to_owned());
    r.push("hlds_run".to_owned());
    r.push("server".to_owned());
    r.push("game-server".to_owned());
    r.push("srcds_run.exe".to_owned());
    r.push("srcds.exe".to_owned());
    r.push("server.exe".to_owned());
    r.push("game-server.exe".to_owned());
    assert(r.deep_view() =~= executable_candidates());
    r
}

/// Find a server executable in the install directory: the first candidate name
/// at which a file exists.
pub fn find_server_executable(install_dir: &str) -> (r: Option<String>)
    ensures
        r matches Some(p) ==> exists|k: int|
            0 <= k < executable_candidates().len() && p@ == path_join(
                install_dir@,
                #[trigger] executable_candidates()[k],
            ),
{
    let names = candidate_list();
    first_existing(install_dir, &names)
}

/// Begin terminating the processes of a server's runs: each run with a live PID is
/// signalled through its process group, falling back to the single PID when that fails.
pub fn terminate_processes(runs: &[RunModel]) -> (r: (Terminator, TermAction))
    ensures
        r.0.pids@.len() == runs@.len(),
        forall|i: int| 0 <= i < runs@.len() ==> r.0.pids@[i] == runs@[i].pid,
        r.0.group_first,
        r.0.wf(),
        resume(r.0.pids@, 0, r.1, r.0.stage),
        r.1 == resume_action(r.0.pids@, 0) && r.0.stage == resume_stage(r.0.pids@, 0),
{
    Terminator::new(Terminator::run_pids(runs), true)
}

/// Stopping a server's runs on Linux, whole: starting from the terminator
/// [`terminate_processes`] returns and answering the liveness check of run `i`
/// with `alive(i)` and its group signal with `ret(i)`, each run with a live PID
/// `p` is, in run order, signalled through its process group, and then
/// directly exactly when the group signal returned non-zero; runs without a
/// PID or with a dead one get no signal; the last action is `Done`.
pub proof fn lemma_linux_termination(runs: Seq<RunModel>, alive: spec_fn(int) -> bool, ret: spec_fn(int) -> i32)
    requires
        runs.len() <= usize::MAX,
    ensures
        ({
            let pids = runs.map_values(|r: RunModel| r.pid);
            seq![resume_action(pids, 0)] + term_trace(pids, true, resume_stage(pids, 0), alive, ret)
                == run_signals(pids, 0, true, alive, ret).push(TermAction::Done)
        }),
{
    lemma_whole_termination(runs.map_values(|r: RunModel| r.pid), true, alive, ret);
}

} // verus!
