//! The records the service keeps and answers with.
use vstd::prelude::*;

verus! {

/// The state a task is in.
#[derive(Debug, Clone, Copy, PartialEq, Eq, Structural)]
pub enum TaskStatus {
    Running,
    Stopped,
    Error,
}

impl TaskStatus {
    pub open spec fn spec_name(self) -> Seq<char> {
        match self {
            TaskStatus::Running => "running"@,
            TaskStatus::Stopped => "stopped"@,
            TaskStatus::Error => "error"@,
        }
    }

    /// The lowercase name under which the status is stored and shown.
    pub fn as_str(&self) -> (r: &'static str)
        ensures
            r@ == self.spec_name(),
    {
        match self {
            TaskStatus::Running => "running",
            TaskStatus::Stopped => "stopped",
            TaskStatus::Error => "error",
        }
    }

    /// The status with the given lowercase name.
    pub fn from_name(name: &str) -> (r: Option<TaskStatus>)
        ensures
            match r {
                Some(s) => s.spec_name() == name@,
                None => name@ != "running"@ && name@ != "stopped"@ && name@ != "error"@,
            },
    {
        let running = String::from_str("running");
        let stopped = String::from_str("stopped");
        let error = String::from_str("error");
        let n = String::from_str(name);
        if n == running {
            Some(TaskStatus::Running)
        } else if n == stopped {
            Some(TaskStatus::Stopped)
        } else if n == error {
            Some(TaskStatus::Error)
        } else {
            None
        }
    }

    /// The status of a stored name; a name that is no status reads as
    /// `Error`.
    pub fn from_stored(name: &str) -> (r: TaskStatus)
        ensures
            name@ == "running"@ ==> r == TaskStatus::Running,
            name@ == "stopped"@ ==> r == TaskStatus::Stopped,
            name@ != "running"@ && name@ != "stopped"@ ==> r == TaskStatus::Error,
    {
        proof {
            reveal_strlit("running");
            reveal_strlit("stopped");
            reveal_strlit("error");
            assert("running"@[0] != "stopped"@[0]);
            assert("running"@.len() != "error"@.len());
            assert("stopped"@.len() != "error"@.len());
        }
        match TaskStatus::from_name(name) {
            Some(s) => s,
            None => TaskStatus::Error,
        }
    }
}

/// A task: one project directory with its `dtach` session and `ttyd`
/// terminal. Times are seconds since the Unix epoch.
#[derive(Debug, Clone)]
pub struct Task {
    pub id: String,
    pub name: String,
    pub project: String,
    pub workdir: String,
    pub sock_path: String,
    pub ttyd_port: Option<i64>,
    pub dtach_pid: Option<i64>,
    pub ttyd_pid: Option<i64>,
    pub dtach_command: String,
    pub ttyd_command: Option<String>,
    pub status: TaskStatus,
    pub session_started_at: Option<i64>,
    pub terminal_started_at: Option<i64>,
}

/// The body of a request to create (or reuse) the task of a project.
#[derive(Debug, Clone)]
pub struct CreateTaskRequest {
    pub project: String,
    pub name: Option<String>,
}

/// Where the terminal of a task is reached.
#[derive(Debug, Clone)]
pub struct TerminalUrlResponse {
    pub task_id: String,
    pub path: String,
    pub url: String,
}

/// The answer to an action without a richer result.
#[derive(Debug, Clone)]
pub struct ActionResponse {
    pub ok: bool,
    pub message: String,
}

impl ActionResponse {
    /// `{ ok: true, message: "stopped" }`.
    pub fn stopped() -> (r: ActionResponse)
        ensures
            r.ok,
            r.message@ == "stopped"@,
    {
        ActionResponse { ok: true, message: String::from_str("stopped") }
    }

    /// `{ ok: true, message: "deleted" }`.
    pub fn deleted() -> (r: ActionResponse)
        ensures
            r.ok,
            r.message@ == "deleted"@,
    {
        ActionResponse { ok: true, message: String::from_str("deleted") }
    }
}

/// One entry of the audit log. `created_at` is in seconds since the Unix
/// epoch.
#[derive(Debug, Clone)]
pub struct AuditLog {
    pub id: i64,
    pub task_id: Option<String>,
    pub action: String,
    pub detail: Option<String>,
    pub created_at: i64,
}

/// An audit log row as the database returns it.
#[derive(Debug, Clone)]
pub struct AuditLogRow {
    pub id: i64,
    pub task_id: Option<String>,
    pub action: String,
    pub detail: Option<String>,
    pub created_at: i64,
}

impl From<AuditLogRow> for AuditLog {
    fn from(value: AuditLogRow) -> (r: AuditLog) {
        AuditLog {
            id: value.id,
            task_id: value.task_id,
            action: value.action,
            detail: value.detail,
            created_at: value.created_at,
        }
    }
}

impl vstd::std_specs::convert::FromSpecImpl<AuditLogRow> for AuditLog {
    open spec fn obeys_from_spec() -> bool {
        true
    }

    open spec fn from_spec(v: AuditLogRow) -> AuditLog {
        AuditLog {
            id: v.id,
            task_id: v.task_id,
            action: v.action,
            detail: v.detail,
            created_at: v.created_at,
        }
    }
}

/// An audit log entry to record: which task, what happened, and details.
#[derive(Debug, Clone)]
pub struct LogEntry {
    pub task_id: Option<String>,
    pub action: String,
    pub detail: String,
}

} // verus!

verus! {

/// A task about to be stored, with the pids of its started runtime.
#[derive(Debug, Clone)]
pub struct NewTask {
    pub id: String,
    pub name: String,
    pub project: String,
    pub workdir: String,
    pub sock_path: String,
    pub ttyd_port: i64,
    pub dtach_pid: i64,
    pub ttyd_pid: i64,
    pub status: TaskStatus,
}

/// A task found as a project directory, stored before anything runs.
#[derive(Debug, Clone)]
pub struct NewDiscoveredTask {
    pub id: String,
    pub name: String,
    pub project: String,
    pub workdir: String,
    pub sock_path: String,
    pub ttyd_port: i64,
    pub status: TaskStatus,
}

} // verus!
