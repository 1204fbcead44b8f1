//! SteamCMD installation layout, invocation arguments, outcomes and error texts.
use vstd::prelude::*;

use crate::command_runs::Model as RunModel;
use crate::dirs::{join_path, path_join, AppDirs};
use crate::installer::path_exists;
use crate::text::{cat, decimal, decimal_string, signed_decimal, signed_decimal_string, str_trim, trim};

verus! {

/// Name of the Linux SteamCMD binary.
pub open spec fn binary_name() -> Seq<char> {
    "steamcmd.sh"@
}

/// Name of the SteamCMD directory inside the application directory.
pub open spec fn steamcmd_dir_name() -> Seq<char> {
    "steamcmd"@
}

/// The HLDS app ID; its `app_update` must run several times to fetch all engine files.
pub const HLDS_APP_ID: u32 = 90;

/// How many times `app_update` runs for HLDS.
pub const HLDS_UPDATE_RETRIES: u32 = 5;

/// Health status of the SteamCMD installation.
#[derive(Debug, Clone)]
pub enum SteamCmdHealthStatus {
    /// Health check is still running.
    Checking,
    /// The binary exists and executes successfully.
    Healthy,
    /// The binary does not exist on disk.
    NotInstalled,
    /// The binary exists but fails to start (missing deps, permissions).
    Broken(String),
}

impl SteamCmdHealthStatus {
    /// The short text of a status, for template conditionals.
    pub open spec fn text(&self) -> Seq<char> {
        match self {
            SteamCmdHealthStatus::Checking => "checking"@,
            SteamCmdHealthStatus::Healthy => "healthy"@,
            SteamCmdHealthStatus::NotInstalled => "not_installed"@,
            SteamCmdHealthStatus::Broken(_) => "broken"@,
        }
    }

    /// Returns the status as a short string suitable for template conditionals.
    pub fn as_str(&self) -> (r: &'static str)
        ensures
            r@ == self.text(),
    {
        match self {
            SteamCmdHealthStatus::Checking => "checking",
            SteamCmdHealthStatus::Healthy => "healthy",
            SteamCmdHealthStatus::NotInstalled => "not_installed",
            SteamCmdHealthStatus::Broken(_) => "broken",
        }
    }
}

/// The value of the `steamcmd_health()` template function for the stored status:
/// its text, or `checking` while none is stored.
pub fn tera_steamcmd_health(status: Option<SteamCmdHealthStatus>) -> (r: String)
    ensures
        r@ == (match status {
            Some(s) => s.text(),
            None => "checking"@,
        }),
{
    match status {
        Some(s) => s.as_str().to_owned(),
        None => "checking".to_owned(),
    }
}

/// The kind of an I/O failure that callers tell apart: a missing file or
/// program, or any other failure.
#[derive(Debug, Clone, Copy, PartialEq, Eq, Structural)]
pub enum IoErrorKind {
    NotFound,
    Other,
}

/// An I/O failure: its kind and its message.
#[derive(Debug)]
pub struct IoFailure {
    pub kind: IoErrorKind,
    pub message: String,
}

/// Errors that can occur during SteamCMD operations, each with the message of its cause.
#[derive(Debug)]
pub enum SteamCmdError {
    /// Failed to download the SteamCMD archive.
    Download(String),
    /// Failed to extract the SteamCMD archive.
    Extract(String),
    /// Failed to create a directory during installation.
    CreateDir(String),
    /// Failed to spawn the SteamCMD process.
    Spawn(IoFailure),
    /// SteamCMD exited with a non-zero status.
    ExitStatus(i32),
    /// Required 32-bit shared libraries are missing on Linux.
    MissingDependencies(String),
    /// A generic I/O error occurred.
    Io(IoFailure),
}

impl SteamCmdError {
    /// The text of an error.
    pub open spec fn text(&self) -> Seq<char> {
        match self {
            SteamCmdError::Download(s) => "failed to download SteamCMD: "@ + s@,
            SteamCmdError::Extract(s) => "failed to extract SteamCMD archive: "@ + s@,
            SteamCmdError::CreateDir(s) => "failed to create directory: "@ + s@,
            SteamCmdError::Spawn(f) => "failed to spawn SteamCMD: "@ + f.message@,
            SteamCmdError::ExitStatus(c) => "SteamCMD exited with status "@ + signed_decimal(
                *c as int,
            ),
            SteamCmdError::MissingDependencies(d) => "SteamCMD failed to start: "@ + d@
                + "\nInstall missing dependencies manually: https://developer.valvesoftware.com/wiki/SteamCMD#Manually"@,
            SteamCmdError::Io(f) => "I/O error: "@ + f.message@,
        }
    }

    /// The error message (what `Display` shows).
    pub fn message(&self) -> (r: String)
        ensures
            r@ == self.text(),
    {
        match self {
            SteamCmdError::Download(s) => cat("failed to download SteamCMD: ", s.as_str()),
            SteamCmdError::Extract(s) => cat("failed to extract SteamCMD archive: ", s.as_str()),
            SteamCmdError::CreateDir(s) => cat("failed to create directory: ", s.as_str()),
            SteamCmdError::Spawn(f) => cat("failed to spawn SteamCMD: ", f.message.as_str()),
            SteamCmdError::ExitStatus(c) => {
                let n = signed_decimal_string(*c as i64);
                cat("SteamCMD exited with status ", n.as_str())
            },
            SteamCmdError::MissingDependencies(d) => {
                let mut r = cat("SteamCMD failed to start: ", d.as_str());
                r.append(
                    "\nInstall missing dependencies manually: https://developer.valvesoftware.com/wiki/SteamCMD#Manually",
                );
                r
            },
            SteamCmdError::Io(f) => cat("I/O error: ", f.message.as_str()),
        }
    }
}

/// What an app update does next.
#[derive(Debug)]
pub enum UpdateNext {
    /// Run `app_update` once more.
    RunAgain,
    /// The update is complete.
    Done,
    /// The update failed with this error.
    Failed(SteamCmdError),
}

/// How many times `app_update` runs for an app: five times for HLDS (app 90),
/// once otherwise.
pub open spec fn update_runs(app_id: u32) -> int {
    if app_id == 90 {
        5
    } else {
        1
    }
}

/// The step of an app update after its `completed`-th run gave `result`.
pub open spec fn update_next(app_id: u32, completed: int, result: Result<(), SteamCmdError>) -> UpdateNext {
    match result {
        Err(e) => UpdateNext::Failed(e),
        Ok(()) => if completed < update_runs(app_id) {
            UpdateNext::RunAgain
        } else {
            UpdateNext::Done
        },
    }
}

/// Driving an app update from `done` runs on, where run `i` (from zero) gives
/// `outcomes[i]`: how many runs are made in all, and what the update returns.
pub open spec fn update_drive(app_id: u32, outcomes: Seq<Result<(), SteamCmdError>>, done: int) -> (int, Result<(), SteamCmdError>)
    decreases update_runs(app_id) - done,
{
    if done < 0 || done >= update_runs(app_id) {
        (done, Ok(()))
    } else {
        match update_next(app_id, done + 1, outcomes[done]) {
            UpdateNext::RunAgain => update_drive(app_id, outcomes, done + 1),
            UpdateNext::Done => (done + 1, Ok(())),
            UpdateNext::Failed(e) => (done + 1, Err(e)),
        }
    }
}

/// The first position at or after `from` and before `k` whose outcome failed
/// (`k` when none did).
pub open spec fn first_failure(outcomes: Seq<Result<(), SteamCmdError>>, from: int, k: int) -> int
    decreases k - from,
{
    if from >= k {
        k
    } else if outcomes[from] is Err {
        from
    } else {
        first_failure(outcomes, from + 1, k)
    }
}

proof fn lemma_update_drive_from(app_id: u32, outcomes: Seq<Result<(), SteamCmdError>>, done: int)
    requires
        0 <= done <= update_runs(app_id),
    ensures
        ({
            let k = update_runs(app_id);
            let j = first_failure(outcomes, done, k);
            update_drive(app_id, outcomes, done) == if j < k {
                (j + 1, outcomes[j])
            } else {
                (k, Ok::<(), SteamCmdError>(()))
            }
        }),
    decreases update_runs(app_id) - done,
{
    if done < update_runs(app_id) {
        lemma_update_drive_from(app_id, outcomes, done + 1);
    }
}

/// Updating an app, whole: driven by [`SteamCmd::update_app_step`] with run
/// `i` (from zero) giving `outcomes[i]`, `app_update` runs until the first
/// failure or until the app's number of runs is reached (five for HLDS, one
/// otherwise). The update returns the first failure, unchanged, after that
/// run; when every run succeeds it is done after exactly that number of runs.
pub proof fn lemma_update_app_runs(app_id: u32, outcomes: Seq<Result<(), SteamCmdError>>)
    ensures
        ({
            let k = update_runs(app_id);
            let j = first_failure(outcomes, 0, k);
            &&& j <= k
            &&& forall|i: int| 0 <= i < j ==> outcomes[i] is Ok
            &&& j < k ==> outcomes[j] is Err
            &&& update_drive(app_id, outcomes, 0) == if j < k {
                (j + 1, outcomes[j])
            } else {
                (k, Ok::<(), SteamCmdError>(()))
            }
        }),
{
    lemma_update_drive_from(app_id, outcomes, 0);
    lemma_first_failure(outcomes, 0, update_runs(app_id));
}

proof fn lemma_first_failure(outcomes: Seq<Result<(), SteamCmdError>>, from: int, k: int)
    requires
        from <= k,
    ensures
        from <= first_failure(outcomes, from, k) <= k,
        forall|i: int| from <= i < first_failure(outcomes, from, k) ==> outcomes[i] is Ok,
        first_failure(outcomes, from, k) < k ==> outcomes[first_failure(outcomes, from, k)] is Err,
    decreases k - from,
{
    if from < k && outcomes[from] is Ok {
        lemma_first_failure(outcomes, from + 1, k);
    }
}

/// Manages SteamCMD installation and execution paths.
pub struct SteamCmd {
    /// Base directory for SteamCMD files.
    steamcmd_dir: String,
    /// Path to the SteamCMD binary.
    binary_path: String,
    /// Optional command run record for logging progress.
    model: Option<RunModel>,
    /// The 32-bit `libgcc_s.so.1` to preload when running SteamCMD, from the
    /// hint file that the glibc workaround writes.
    ld_preload_path: Option<String>,
}

/// The name of the hint file, in the SteamCMD directory, that records the
/// library to preload.
pub open spec fn ld_preload_hint_name() -> Seq<char> {
    ".ld_preload"@
}

/// The library a hint file's text names: its text without surrounding
/// whitespace, unless that is empty.
pub open spec fn hint_library(hint: Option<Seq<char>>) -> Option<Seq<char>> {
    match hint {
        Some(h) => if trim(h).len() > 0 {
            Some(trim(h))
        } else {
            None
        },
        None => None,
    }
}

impl SteamCmd {
    /// The SteamCMD directory.
    pub closed spec fn dir_view(&self) -> Seq<char> {
        self.steamcmd_dir@
    }

    /// The SteamCMD binary path.
    pub closed spec fn binary_view(&self) -> Seq<char> {
        self.binary_path@
    }

    /// The attached command run record.
    pub closed spec fn model_view(&self) -> Option<RunModel> {
        self.model
    }

    /// The library preloaded when SteamCMD runs.
    pub closed spec fn preload_view(&self) -> Option<Seq<char>> {
        match self.ld_preload_path {
            Some(p) => Some(p@),
            None => None,
        }
    }

    /// Paths resolved from the application directories:
    /// `{app_dir}/steamcmd` and `{app_dir}/steamcmd/steamcmd.sh`.
    pub fn new(dirs: &AppDirs) -> (r: SteamCmd)
        ensures
            r.dir_view() == path_join(dirs.app_dir@, steamcmd_dir_name()),
            r.binary_view() == path_join(path_join(dirs.app_dir@, steamcmd_dir_name()), binary_name()),
            r.model_view() is None,
            r.preload_view() is None,
    {
        let steamcmd_dir = join_path(dirs.app_dir.as_str(), "steamcmd");
        let binary_path = join_path(steamcmd_dir.as_str(), "steamcmd.sh");
        SteamCmd { steamcmd_dir, binary_path, model: None, ld_preload_path: None }
    }

    /// Paths resolved as by [`SteamCmd::new`], with the text of the hint file
    /// (`{steamcmd_dir}/.ld_preload`) when it was read: the library it names,
    /// trimmed, is preloaded; a missing or blank hint preloads nothing.
    pub fn with_hint(dirs: &AppDirs, hint: Option<String>) -> (r: SteamCmd)
        ensures
            r.dir_view() == path_join(dirs.app_dir@, steamcmd_dir_name()),
            r.binary_view() == path_join(path_join(dirs.app_dir@, steamcmd_dir_name()), binary_name()),
            r.model_view() is None,
            r.preload_view() == hint_library(match hint {
                Some(h) => Some(h@),
                None => None,
            }),
    {
        let base = SteamCmd::new(dirs);
        let ld_preload_path = match hint {
            Some(h) => {
                let t = str_trim(h.as_str());
                if !t.as_str().is_empty() {
                    Some(t)
                } else {
                    None
                }
            },
            None => None,
        };
        SteamCmd { ld_preload_path, ..base }
    }

    /// Where the hint file lies: `{steamcmd_dir}/.ld_preload`.
    pub fn ld_preload_hint_path(&self) -> (r: String)
        ensures
            r@ == path_join(self.dir_view(), ld_preload_hint_name()),
    {
        join_path(self.steamcmd_dir.as_str(), ".ld_preload")
    }

    /// The environment variable set when SteamCMD runs: `LD_PRELOAD` with the
    /// hinted library, if there is one.
    pub fn preload_env(&self) -> (r: Option<(String, String)>)
        ensures
            match self.preload_view() {
                Some(p) => r matches Some(e) && e.0@ == "LD_PRELOAD"@ && e.1@ == p,
                None => r is None,
            },
    {
        match &self.ld_preload_path {
            Some(p) => Some(("LD_PRELOAD".to_owned(), p.clone())),
            None => None,
        }
    }

    /// Attach a command run record so progress is written to its log.
    pub fn with_command_run(self, model: RunModel) -> (r: SteamCmd)
        ensures
            r.dir_view() == self.dir_view(),
            r.binary_view() == self.binary_view(),
            r.model_view() == Some(model),
            r.preload_view() == self.preload_view(),
    {
        SteamCmd { model: Some(model), ..self }
    }

    /// Take the attached record, leaving none in its place.
    pub fn take_model(&mut self) -> (r: Option<RunModel>)
        ensures
            r == old(self).model_view(),
            final(self).model_view() is None,
            final(self).dir_view() == old(self).dir_view(),
            final(self).binary_view() == old(self).binary_view(),
            final(self).preload_view() == old(self).preload_view(),
    {
        self.model.take()
    }

    /// The attached record, if any.
    pub fn model(&self) -> (r: Option<&RunModel>)
        ensures
            match r {
                Some(m) => self.model_view() == Some(*m),
                None => self.model_view() is None,
            },
    {
        self.model.as_ref()
    }

    /// The SteamCMD directory.
    pub fn steamcmd_dir(&self) -> (r: &str)
        ensures
            r@ == self.dir_view(),
    {
        self.steamcmd_dir.as_str()
    }

    /// The SteamCMD binary path.
    pub fn binary_path(&self) -> (r: &str)
        ensures
            r@ == self.binary_view(),
    {
        self.binary_path.as_str()
    }

    /// Whether a file exists at [`SteamCmd::binary_path`] (`Path::exists`, asked
    /// at the moment of the call). The answer is the disk's, so no clause
    /// claims anything of it.
    pub fn is_installed(&self) -> bool {
        path_exists(self.binary_path())
    }

    /// The arguments of an `app_update` call:
    /// `+force_install_dir {dir} +app_update {app_id} +validate +quit`.
    pub fn build_update_app_args(app_id: u32, install_dir: &str) -> (r: Vec<String>)
        ensures
            r.deep_view() == seq![
                "+force_install_dir"@,
                install_dir@,
                "+app_update"@,
                decimal(app_id as nat),
                "+validate"@,
                "+quit"@,
            ],
    {
        let mut r: Vec<String> = Vec::new();
        r.push("+force_install_dir".to_owned());
        r.push(install_dir.to_owned());
        r.push("+app_update".to_owned());
        r.push(decimal_string(app_id as u64));
        r.push("+validate".to_owned());
        r.push("+quit".to_owned());
        assert(r.deep_view() =~= seq![
            "+force_install_dir"@,
            install_dir@,
            "+app_update"@,
            decimal(app_id as nat),
            "+validate"@,
            "+quit"@,
        ]);
        r
    }

    /// How many times `app_update` runs for an app: five times for HLDS, once otherwise.
    pub fn update_app_runs(app_id: u32) -> (r: u32)
        ensures
            r == (if app_id == 90 { 5u32 } else { 1u32 }),
    {
        if app_id == HLDS_APP_ID {
            HLDS_UPDATE_RETRIES
        } else {
            1
        }
    }

    /// What an app update does after its `completed`-th run of `app_update`
    /// (counting from one) gave `result`: a failure ends the update with that
    /// error; a success runs `app_update` again until the app's number of runs
    /// (see [`SteamCmd::update_app_runs`]) is reached, and then the update is done.
    pub fn update_app_step(app_id: u32, completed: u32, result: Result<(), SteamCmdError>) -> (r: UpdateNext)
        ensures
            r == update_next(app_id, completed as int, result),
    {
        match result {
            Err(e) => UpdateNext::Failed(e),
            Ok(()) => {
                if completed < SteamCmd::update_app_runs(app_id) {
                    UpdateNext::RunAgain
                } else {
                    UpdateNext::Done
                }
            },
        }
    }

    /// The error when the binary is missing before a dependency check: an I/O
    /// error of kind not-found.
    pub fn binary_not_found() -> (r: SteamCmdError)
        ensures
            r matches SteamCmdError::Io(f) && f.kind == IoErrorKind::NotFound
                && f.message@ == "steamcmd binary not found"@,
    {
        SteamCmdError::Io(IoFailure { kind: IoErrorKind::NotFound, message: "steamcmd binary not found".to_owned() })
    }

    /// The error when a command is requested but SteamCMD is not installed: a
    /// spawn error of kind not-found.
    pub fn not_installed() -> (r: SteamCmdError)
        ensures
            r matches SteamCmdError::Spawn(f) && f.kind == IoErrorKind::NotFound
                && f.message@ == "steamcmd is not installed"@,
    {
        SteamCmdError::Spawn(IoFailure { kind: IoErrorKind::NotFound, message: "steamcmd is not installed".to_owned() })
    }

    /// The outcome of a `+quit` smoke run (`Err` with the spawn failure when it
    /// could not start; else its success and captured stderr): success passes, a
    /// failed run reports its stderr as missing dependencies.
    pub fn deps_outcome(run: Result<(bool, String), IoFailure>) -> (r: Result<(), SteamCmdError>)
        ensures
            match run {
                Err(e) => r == Err::<(), SteamCmdError>(SteamCmdError::Spawn(e)),
                Ok((true, _)) => r is Ok,
                Ok((false, stderr)) => r matches Err(SteamCmdError::MissingDependencies(d))
                    && d@ == stderr@,
            },
    {
        match run {
            Err(e) => Err(SteamCmdError::Spawn(e)),
            Ok((true, _)) => Ok(()),
            Ok((false, stderr)) => Err(SteamCmdError::MissingDependencies(stderr)),
        }
    }

    /// The outcome of a finished command: success, or its exit code (-1 when it was
    /// ended by a signal).
    pub fn command_outcome(success: bool, code: Option<i32>) -> (r: Result<(), SteamCmdError>)
        ensures
            success ==> r is Ok,
            !success ==> (r matches Err(SteamCmdError::ExitStatus(c)) && c == (match code {
                Some(c) => c,
                None => -1i32,
            })),
    {
        if success {
            Ok(())
        } else {
            Err(
                SteamCmdError::ExitStatus(
                    match code {
                        Some(c) => c,
                        None => -1,
                    },
                ),
            )
        }
    }

    /// The outcome of a finished command whose stdout was captured.
    pub fn capture_outcome(success: bool, code: Option<i32>, stdout: String) -> (r: Result<String, SteamCmdError>)
        ensures
            success ==> (r matches Ok(out) && out@ == stdout@),
            !success ==> (r matches Err(SteamCmdError::ExitStatus(c)) && c == (match code {
                Some(c) => c,
                None => -1i32,
            })),
    {
        match Self::command_outcome(success, code) {
            Ok(()) => Ok(stdout),
            Err(e) => Err(e),
        }
    }

    /// The outcome of an installation, given whether the binary exists after extraction.
    pub fn extraction_outcome(installed: bool) -> (r: Result<(), SteamCmdError>)
        ensures
            installed ==> r is Ok,
            !installed ==> (r matches Err(SteamCmdError::Extract(m)) && m@
                == "binary not found after extraction"@),
    {
        if installed {
            Ok(())
        } else {
            Err(SteamCmdError::Extract("binary not found after extraction".to_owned()))
        }
    }
}

} // verus!
