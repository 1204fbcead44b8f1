//! Command run records, their public summary, and the decisions taken about them.
use vstd::prelude::*;

use crate::status::CommandStatus;
use crate::text::{cat, signed_decimal, signed_decimal_string};

verus! {

/// A persisted command run record, holding the columns the logic reads.
///
/// `args` is the stored JSON argument value: `None` when it is not an array,
/// otherwise its elements, each `Some` text when the element is a JSON string.
#[derive(Debug, Clone)]
pub struct Model {
    pub id: i32,
    pub command: String,
    pub args: Option<Vec<Option<String>>>,
    pub working_dir: Option<String>,
    pub log_path: Option<String>,
    pub status: String,
    pub exit_code: Option<i32>,
    pub server_id: Option<i64>,
    pub log_removed: bool,
    pub pid: Option<i64>,
    pub title: Option<String>,
}

impl Model {
    /// The stored status as a typed value.
    pub fn status(&self) -> (r: CommandStatus)
        ensures
            r == CommandStatus::parsed(self.status@),
    {
        CommandStatus::parse(self.status.as_str())
    }

    /// Whether this run is still in "running" status.
    pub fn is_running(&self) -> (r: bool)
        ensures
            r == (CommandStatus::parsed(self.status@) == CommandStatus::Running),
    {
        self.status() == CommandStatus::Running
    }

    /// Whether the run is still executing: the stored status is "running" and, when
    /// a PID was recorded, `pid_alive` (the liveness of that PID) holds.
    pub fn is_live(&self, pid_alive: bool) -> (r: bool)
        ensures
            r == (CommandStatus::parsed(self.status@) == CommandStatus::Running && (self.pid is None
                || pid_alive)),
    {
        if !self.is_running() {
            return false;
        }
        match self.pid {
            Some(_) => pid_alive,
            None => true,
        }
    }
}

/// The string elements of a stored JSON argument value, in order.
pub open spec fn string_args(args: Option<Seq<Option<Seq<char>>>>) -> Seq<Seq<char>> {
    match args {
        Some(items) => strings_of(items),
        None => seq![],
    }
}

/// The `Some` entries of `items`, in order.
pub open spec fn strings_of(items: Seq<Option<Seq<char>>>) -> Seq<Seq<char>>
    decreases items.len(),
{
    if items.len() == 0 {
        seq![]
    } else {
        let r = strings_of(items.drop_last());
        match items.last() {
            Some(s) => r.push(s),
            None => r,
        }
    }
}

/// Represents a command execution result with metadata.
#[derive(Debug, Clone)]
pub struct CommandRun {
    pub id: i32,
    pub command: String,
    pub args: Vec<String>,
    pub log_path: Option<String>,
    pub status: String,
    pub exit_code: Option<i32>,
}

impl CommandRun {
    /// Create a [`CommandRun`] from a database record; non-string arguments are dropped.
    pub fn from_model(model: &Model) -> (r: CommandRun)
        ensures
            r.id == model.id,
            r.command@ == model.command@,
            r.args.deep_view() == string_args(model.args.deep_view()),
            r.log_path.deep_view() == model.log_path.deep_view(),
            r.status@ == model.status@,
            r.exit_code == model.exit_code,
    {
        let mut args: Vec<String> = Vec::new();
        match &model.args {
            Some(items) => {
                let ghost iv = items.deep_view();
                for i in 0..items.len()
                    invariant
                        iv == items.deep_view(),
                        args.deep_view() == strings_of(iv.take(i as int)),
                {
                    assert(iv.take(i + 1).drop_last() =~= iv.take(i as int));
                    match &items[i] {
                        Some(s) => {
                            let ghost before = args.deep_view();
                            args.push(s.clone());
                            assert(args.deep_view() =~= before.push(s@));
                        },
                        None => {},
                    }
                }
                assert(iv.take(items@.len() as int) =~= iv);
            },
            None => {},
        }
        CommandRun {
            id: model.id,
            command: model.command.clone(),
            args,
            log_path: model.log_path.clone(),
            status: model.status.clone(),
            exit_code: model.exit_code,
        }
    }
}

/// Command run view that adds the computed `is_running` flag for templates.
#[derive(Debug)]
pub struct CommandRunView<'a> {
    /// True when this run is still in "running" status.
    pub is_running: bool,
    pub inner: &'a Model,
}

impl<'a> CommandRunView<'a> {
    /// Wrap a record with its computed `is_running` flag.
    pub fn new(run: &'a Model) -> (r: CommandRunView<'a>)
        ensures
            r.is_running == (CommandStatus::parsed(run.status@) == CommandStatus::Running),
            r.inner == run,
    {
        CommandRunView { is_running: run.is_running(), inner: run }
    }
}

/// Whether a "running" run should be marked failed by the liveness sweep:
/// it has no PID, or its PID is not alive.
pub fn should_mark_failed(pid: Option<i64>, pid_alive: bool) -> (r: bool)
    ensures
        r == (pid is None || !pid_alive),
{
    match pid {
        None => true,
        Some(_) => !pid_alive,
    }
}

/// Log label describing why a run is dead: `no PID` or `dead PID {pid}`.
pub fn dead_pid_label(pid: Option<i64>) -> (r: String)
    ensures
        r@ == (match pid {
            None => "no PID"@,
            Some(p) => "dead PID "@ + signed_decimal(p as int),
        }),
{
    match pid {
        None => "no PID".to_owned(),
        Some(p) => {
            let n = signed_decimal_string(p);
            cat("dead PID ", n.as_str())
        },
    }
}

impl Model {
    /// Records the end of the run: its status and exit code.
    pub fn finish(&mut self, exit_code: Option<i32>, status: CommandStatus)
        ensures
            final(self).status@ == status.text(),
            final(self).exit_code == exit_code,
            final(self).id == old(self).id && final(self).command == old(self).command
                && final(self).args == old(self).args && final(self).working_dir == old(self).working_dir
                && final(self).log_path == old(self).log_path && final(self).server_id == old(self).server_id
                && final(self).log_removed == old(self).log_removed && final(self).pid == old(self).pid
                && final(self).title == old(self).title,
    {
        self.status = status.as_str().to_string();
        self.exit_code = exit_code;
    }

    /// Records that the run's log file was removed.
    pub fn mark_log_removed(&mut self)
        ensures
            final(self).log_path is None,
            final(self).log_removed,
            final(self).id == old(self).id && final(self).command == old(self).command
                && final(self).args == old(self).args && final(self).working_dir == old(self).working_dir
                && final(self).status == old(self).status && final(self).exit_code == old(self).exit_code
                && final(self).server_id == old(self).server_id && final(self).pid == old(self).pid
                && final(self).title == old(self).title,
    {
        self.log_path = None;
        self.log_removed = true;
    }

    /// Records the process id of the run.
    pub fn update_pid(&mut self, pid: i64)
        ensures
            final(self).pid == Some(pid),
            final(self).id == old(self).id && final(self).command == old(self).command
                && final(self).args == old(self).args && final(self).working_dir == old(self).working_dir
                && final(self).log_path == old(self).log_path && final(self).status == old(self).status
                && final(self).exit_code == old(self).exit_code && final(self).server_id == old(self).server_id
                && final(self).log_removed == old(self).log_removed && final(self).title == old(self).title,
    {
        self.pid = Some(pid);
    }
}

/// The validation rule a command run must meet before it is saved.
#[derive(Debug)]
pub struct CommandRunsValidator {
    pub command: String,
}

impl CommandRunsValidator {
    /// A run needs a command: an empty one is refused with its message.
    pub fn validate(&self) -> (r: Result<(), &'static str>)
        ensures
            self.command@.len() > 0 ==> r is Ok,
            self.command@.len() == 0 ==> (r matches Err(m) && m@ == "Command must not be empty."@),
    {
        if self.command.as_str().is_empty() {
            Err("Command must not be empty.")
        } else {
            Ok(())
        }
    }
}

} // verus!
