//! Windows process launching and termination.
use vstd::prelude::*;

use crate::command_runs::Model as RunModel;
use crate::dirs::{join_path, path_join};
use crate::installer::first_existing;
use crate::process::{
    lemma_whole_termination, resume, resume_action, resume_stage, run_signals, term_trace, TermAction,
    Terminator,
};
use crate::text::cat;

verus! {

/// The termination "signal" on Windows: ignored, the process is always terminated.
pub const TERM_SIGNAL: i32 = 0;

/// Where the boot script is written as a batch file: `{install_dir}/game-smith-start.bat`.
pub fn batch_file_path(install_dir: &str) -> (r: String)
    ensures
        r@ == path_join(install_dir@, "game-smith-start.bat"@),
{
    join_path(install_dir, "game-smith-start.bat")
}

/// The batch file text for a boot script: `@echo off` and CRLF, then the script.
pub fn batch_file_content(script: &str) -> (r: String)
    ensures
        r@ == "@echo off\r\n"@ + script@,
{
    cat("@echo off\r\n", script)
}

/// The command that runs a batch file: `cmd.exe /C {path}`.
pub fn batch_command(bat_path: &str) -> (r: (String, Vec<String>))
    ensures
        r.0@ == "cmd.exe"@,
        r.1.deep_view() == seq!["/C"@, bat_path@],
{
    let mut args: Vec<String> = Vec::new();
    args.push("/C".to_owned());
    args.push(bat_path.to_owned());
    assert(args.deep_view() =~= seq!["/C"@, bat_path@]);
    ("cmd.exe".to_owned(), args)
}

/// The names probed for a server executable on Windows, in order.
pub open spec fn executable_candidates() -> Seq<Seq<char>> {
    seq![
        "srcds.exe"@,
        "srcds_run.exe"@,
        "hl.exe"@,
        "hlds.exe"@,
        "hlds_run.exe"@,
        "server.exe"@,
        "srcds_run.exe"@,
        "srcds.exe"@,
        "server.exe"@,
        "game-server.exe"@,
    ]
}

fn candidate_list() -> (r: Vec<String>)
    ensures
        r.deep_view() == executable_candidates(),
{
    let mut r: Vec<String> = Vec::new();
    r.push("srcds.exe".to_owned());
    r.push("srcds_run.exe".to_owned());
    r.push("hl.exe".to_owned());
    r.push("hlds.exe".to_owned());
    r.push("hlds_run.exe".to_owned());
    r.push("server.exe".to_owned());
    r.push("srcds_run.exe".to_owned());
    r.push("srcds.exe".to_owned());
    r.push("server.exe".to_owned());
    r.push("game-server.exe".to_owned());
    assert(r.deep_view() =~= executable_candidates());
    r
}

/// Find a server executable in the install directory: the first candidate name
/// at which a file exists.
pub fn find_server_executable(install_dir: &str) -> (r: Option<String>)
    ensures
        r matches Some(p) ==> exists|k: int|
            0 <= k < executable_candidates().len() && p@ == path_join(
                install_dir@,
                #[trigger] executable_candidates()[k],
            ),
{
    let names = candidate_list();
    first_existing(install_dir, &names)
}

/// Begin terminating the processes of a server's runs: each run with a live PID is
/// terminated directly.
pub fn terminate_processes(runs: &[RunModel]) -> (r: (Terminator, TermAction))
    ensures
        r.0.pids@.len() == runs@.len(),
        forall|i: int| 0 <= i < runs@.len() ==> r.0.pids@[i] == runs@[i].pid,
        !r.0.group_first,
        r.0.wf(),
        resume(r.0.pids@, 0, r.1, r.0.stage),
        r.1 == resume_action(r.0.pids@, 0) && r.0.stage == resume_stage(r.0.pids@, 0),
{
    Terminator::new(Terminator::run_pids(runs), false)
}

/// Stopping a server's runs on Windows, whole: starting from the terminator
/// [`terminate_processes`] returns and answering the liveness check of run `i`
/// with `alive(i)`, each run with a live PID `p` is, in run order, terminated
/// directly, once; no group signal is sent; runs without a PID or with a dead
/// one are skipped; the last action is `Done`.
pub proof fn lemma_windows_termination(runs: Seq<RunModel>, alive: spec_fn(int) -> bool, ret: spec_fn(int) -> i32)
    requires
        runs.len() <= usize::MAX,
    ensures
        ({
            let pids = runs.map_values(|r: RunModel| r.pid);
            seq![resume_action(pids, 0)] + term_trace(pids, false, resume_stage(pids, 0), alive, ret)
                == run_signals(pids, 0, false, alive, ret).push(TermAction::Done)
        }),
{
    lemma_whole_termination(runs.map_values(|r: RunModel| r.pid), false, alive, ret);
}

} // verus!
