//! Status values stored in the `status` columns of game servers and command runs.
use vstd::prelude::*;

use crate::text::str_eq;

verus! {

/// Possible values for the `game_servers.status` column.
#[derive(Debug, Clone, Copy, PartialEq, Eq, Structural)]
pub enum ServerStatus {
    Pending,
    Installing,
    Installed,
    Running,
    Stopped,
    Error,
}

impl ServerStatus {
    /// The canonical lowercase database text of a status.
    pub open spec fn text(self) -> Seq<char> {
        match self {
            ServerStatus::Pending => "pending"@,
            ServerStatus::Installing => "installing"@,
            ServerStatus::Installed => "installed"@,
            ServerStatus::Running => "running"@,
            ServerStatus::Stopped => "stopped"@,
            ServerStatus::Error => "error"@,
        }
    }

    /// The status a database text denotes; unknown text denotes `Pending`.
    pub open spec fn parsed(s: Seq<char>) -> ServerStatus {
        if s == "installing"@ {
            ServerStatus::Installing
        } else if s == "installed"@ {
            ServerStatus::Installed
        } else if s == "running"@ {
            ServerStatus::Running
        } else if s == "stopped"@ {
            ServerStatus::Stopped
        } else if s == "error"@ {
            ServerStatus::Error
        } else {
            ServerStatus::Pending
        }
    }

    /// Returns the canonical lowercase database representation.
    pub fn as_str(&self) -> (r: &'static str)
        ensures
            r@ == self.text(),
    {
        match self {
            ServerStatus::Pending => "pending",
            ServerStatus::Installing => "installing",
            ServerStatus::Installed => "installed",
            ServerStatus::Running => "running",
            ServerStatus::Stopped => "stopped",
            ServerStatus::Error => "error",
        }
    }

    /// Parse a database string; unknown values give `Pending`.
    pub fn parse(s: &str) -> (r: ServerStatus)
        ensures
            r == ServerStatus::parsed(s@),
    {
        if str_eq(s, "installing") {
            ServerStatus::Installing
        } else if str_eq(s, "installed") {
            ServerStatus::Installed
        } else if str_eq(s, "running") {
            ServerStatus::Running
        } else if str_eq(s, "stopped") {
            ServerStatus::Stopped
        } else if str_eq(s, "error") {
            ServerStatus::Error
        } else {
            ServerStatus::Pending
        }
    }
}

/// Reading back the text written for a status gives that status.
pub proof fn lemma_server_status_round_trip(st: ServerStatus)
    ensures
        ServerStatus::parsed(st.text()) == st,
{
    reveal_strlit("pending");
    reveal_strlit("installing");
    reveal_strlit("installed");
    reveal_strlit("running");
    reveal_strlit("stopped");
    reveal_strlit("error");
    assert("installed"@.len() != "installing"@.len());
    assert("running"@[0] != "installing"@[0]);
    assert("running"@[0] != "installed"@[0]);
    assert("stopped"@[0] != "installing"@[0]);
    assert("stopped"@[0] != "installed"@[0]);
    assert("stopped"@[0] != "running"@[0]);
    assert("error"@.len() != "installing"@.len());
    assert("error"@.len() != "installed"@.len());
    assert("error"@.len() != "running"@.len());
    assert("error"@.len() != "stopped"@.len());
    assert("pending"@[0] != "installing"@[0]);
    assert("pending"@[0] != "installed"@[0]);
    assert("pending"@[0] != "running"@[0]);
    assert("pending"@[0] != "stopped"@[0]);
    assert("pending"@.len() != "error"@.len());
}

/// Possible values for the `command_runs.status` column.
#[derive(Debug, Clone, Copy, PartialEq, Eq, Structural)]
pub enum CommandStatus {
    Running,
    Completed,
    Failed,
}

impl CommandStatus {
    /// The canonical lowercase database text of a status.
    pub open spec fn text(self) -> Seq<char> {
        match self {
            CommandStatus::Running => "running"@,
            CommandStatus::Completed => "completed"@,
            CommandStatus::Failed => "failed"@,
        }
    }

    /// The status a database text denotes; unknown text denotes `Running`.
    pub open spec fn parsed(s: Seq<char>) -> CommandStatus {
        if s == "completed"@ {
            CommandStatus::Completed
        } else if s == "failed"@ {
            CommandStatus::Failed
        } else {
            CommandStatus::Running
        }
    }

    /// Returns the canonical lowercase database representation.
    pub fn as_str(&self) -> (r: &'static str)
        ensures
            r@ == self.text(),
    {
        match self {
            CommandStatus::Running => "running",
            CommandStatus::Completed => "completed",
            CommandStatus::Failed => "failed",
        }
    }

    /// Parse a database string; unknown values give `Running`.
    pub fn parse(s: &str) -> (r: CommandStatus)
        ensures
            r == CommandStatus::parsed(s@),
    {
        if str_eq(s, "completed") {
            CommandStatus::Completed
        } else if str_eq(s, "failed") {
            CommandStatus::Failed
        } else {
            CommandStatus::Running
        }
    }
}

/// Reading back the text written for a command status gives that status.
pub proof fn lemma_command_status_round_trip(st: CommandStatus)
    ensures
        CommandStatus::parsed(st.text()) == st,
{
    reveal_strlit("running");
    reveal_strlit("completed");
    reveal_strlit("failed");
    assert("running"@[0] != "completed"@[0]);
    assert("running"@[0] != "failed"@[0]);
    assert("failed"@[0] != "completed"@[0]);
}

} // verus!
