//! The decisions of a task's life: starting, probing, repairing a lost
//! terminal, marking a lost session, stopping, and the periodic
//! reconciliation of all running tasks.
use vstd::prelude::*;
use crate::error::AppError;
use crate::models::{Task, TaskStatus};
use crate::routes::entries_view;
use crate::runtime::RuntimePids;
use crate::text::trim;

verus! {

/// Which of a task's processes are alive.
#[derive(Debug, Clone, Copy, PartialEq, Eq, Structural)]
pub enum RuntimeHealth {
    /// Session and terminal are alive.
    Healthy,
    /// The session is alive, the terminal is not.
    SessionOnly,
    /// The terminal is alive, the session is not.
    TerminalOnly,
    /// Neither is alive.
    Down,
}

pub open spec fn spec_runtime_health(session_alive: bool, ttyd_alive: bool) -> RuntimeHealth {
    if session_alive && ttyd_alive {
        RuntimeHealth::Healthy
    } else if session_alive {
        RuntimeHealth::SessionOnly
    } else if ttyd_alive {
        RuntimeHealth::TerminalOnly
    } else {
        RuntimeHealth::Down
    }
}

/// Classifies a task's runtime from whether its session and its terminal
/// answer.
pub fn runtime_health(session_alive: bool, ttyd_alive: bool) -> (r: RuntimeHealth)
    ensures
        r == spec_runtime_health(session_alive, ttyd_alive),
{
    if session_alive && ttyd_alive {
        RuntimeHealth::Healthy
    } else if session_alive {
        RuntimeHealth::SessionOnly
    } else if ttyd_alive {
        RuntimeHealth::TerminalOnly
    } else {
        RuntimeHealth::Down
    }
}

/// Classifies a task's runtime from its probes: `None` stands for a process
/// without a pid, which counts as not alive.
pub fn runtime_health_of(session_probe: Option<bool>, ttyd_probe: Option<bool>) -> (r: RuntimeHealth)
    ensures
        r == spec_runtime_health(session_probe == Some(true), ttyd_probe == Some(true)),
{
    let session_alive = match session_probe {
        Some(a) => a,
        None => false,
    };
    let ttyd_alive = match ttyd_probe {
        Some(a) => a,
        None => false,
    };
    runtime_health(session_alive, ttyd_alive)
}

/// The status a task is recorded with once its session is gone: stopped
/// when nothing is left, error when its terminal is still there.
pub open spec fn spec_lost_status(health: RuntimeHealth) -> TaskStatus {
    if health == RuntimeHealth::Down {
        TaskStatus::Stopped
    } else {
        TaskStatus::Error
    }
}

/// The stored port as a port number, when it is one (`u16::try_from`).
pub open spec fn spec_port_number(p: i64) -> Option<u16> {
    if 0 <= p <= 65535 {
        Some(p as u16)
    } else {
        None
    }
}

pub fn port_number(p: i64) -> (r: Option<u16>)
    ensures
        r == spec_port_number(p),
{
    if 0 <= p && p <= 65535 {
        Some(p as u16)
    } else {
        None
    }
}

/// The terminal port of a task, when one is stored and valid.
pub open spec fn spec_task_port(task: Task) -> Option<u16> {
    match task.ttyd_port {
        Some(p) => spec_port_number(p),
        None => None,
    }
}

pub fn task_port(task: &Task) -> (r: Option<u16>)
    ensures
        r == spec_task_port(*task),
{
    match task.ttyd_port {
        Some(p) => port_number(p),
        None => None,
    }
}

/// The pids and status that a change of a task's runtime records.
#[derive(Debug, Clone, Copy, PartialEq, Eq, Structural)]
pub struct RuntimeUpdate {
    pub dtach_pid: Option<i64>,
    pub ttyd_pid: Option<i64>,
    pub status: TaskStatus,
}

impl RuntimeUpdate {
    /// The update of a terminal restart on a surviving session.
    pub open spec fn spec_ttyd_restarted(task: Task, ttyd_pid: i64) -> RuntimeUpdate {
        RuntimeUpdate { dtach_pid: task.dtach_pid, ttyd_pid: Some(ttyd_pid), status: TaskStatus::Running }
    }

    /// A full start: both new pids, running.
    pub fn started(pids: RuntimePids) -> (r: RuntimeUpdate)
        ensures
            r.dtach_pid == Some(pids.dtach_pid),
            r.ttyd_pid == Some(pids.ttyd_pid),
            r.status == TaskStatus::Running,
    {
        RuntimeUpdate { dtach_pid: Some(pids.dtach_pid), ttyd_pid: Some(pids.ttyd_pid), status: TaskStatus::Running }
    }

    /// A terminal restarted on a surviving session: the session pid is kept.
    pub fn ttyd_restarted(task: &Task, ttyd_pid: i64) -> (r: RuntimeUpdate)
        ensures
            r == RuntimeUpdate::spec_ttyd_restarted(*task, ttyd_pid),
    {
        RuntimeUpdate { dtach_pid: task.dtach_pid, ttyd_pid: Some(ttyd_pid), status: TaskStatus::Running }
    }

    /// A stop asked for by the user: no pids, stopped.
    pub fn stopped() -> (r: RuntimeUpdate)
        ensures
            r.dtach_pid is None,
            r.ttyd_pid is None,
            r.status == TaskStatus::Stopped,
    {
        RuntimeUpdate { dtach_pid: None, ttyd_pid: None, status: TaskStatus::Stopped }
    }

    /// A runtime whose session is gone: no pids, with the given status.
    pub fn lost(status: TaskStatus) -> (r: RuntimeUpdate)
        ensures
            r.dtach_pid is None,
            r.ttyd_pid is None,
            r.status == status,
    {
        RuntimeUpdate { dtach_pid: None, ttyd_pid: None, status }
    }

    /// A runtime that cannot be used: no pids, error.
    pub fn failed() -> (r: RuntimeUpdate)
        ensures
            r.dtach_pid is None,
            r.ttyd_pid is None,
            r.status == TaskStatus::Error,
    {
        RuntimeUpdate { dtach_pid: None, ttyd_pid: None, status: TaskStatus::Error }
    }
}

impl Task {
    pub open spec fn with_runtime(self, u: RuntimeUpdate) -> Task {
        Task { dtach_pid: u.dtach_pid, ttyd_pid: u.ttyd_pid, status: u.status, ..self }
    }

    /// The task after `u` is recorded; everything else is unchanged.
    pub fn apply_runtime(self, u: RuntimeUpdate) -> (r: Task)
        ensures
            r == self.with_runtime(u),
    {
        Task { dtach_pid: u.dtach_pid, ttyd_pid: u.ttyd_pid, status: u.status, ..self }
    }
}

/// What refreshing a running task does, given its health.
#[derive(Debug, Clone, Copy, PartialEq, Eq, Structural)]
pub enum RefreshPlan {
    /// Nothing to repair; the route is (re)recorded when the port is valid.
    Keep { route: Option<u16> },
    /// Start a new terminal on the surviving session.
    RestartTtyd,
    /// The session is gone: stop what is left, record the task with this
    /// status and no pids, drop its route.
    MarkLost { status: TaskStatus },
}

pub open spec fn spec_plan_refresh(task: Task, health: RuntimeHealth) -> RefreshPlan {
    match health {
        RuntimeHealth::Healthy => RefreshPlan::Keep { route: spec_task_port(task) },
        RuntimeHealth::SessionOnly => RefreshPlan::RestartTtyd,
        _ => RefreshPlan::MarkLost { status: spec_lost_status(health) },
    }
}

pub fn plan_refresh(task: &Task, health: RuntimeHealth) -> (r: RefreshPlan)
    ensures
        r == spec_plan_refresh(*task, health),
{
    match health {
        RuntimeHealth::Healthy => RefreshPlan::Keep { route: task_port(task) },
        RuntimeHealth::SessionOnly => RefreshPlan::RestartTtyd,
        RuntimeHealth::TerminalOnly => RefreshPlan::MarkLost { status: TaskStatus::Error },
        RuntimeHealth::Down => RefreshPlan::MarkLost { status: TaskStatus::Stopped },
    }
}

/// The port on which a terminal is restarted, or the error when the stored
/// port is not a port number.
pub fn ttyd_restart_port(task: &Task) -> (r: Result<u16, AppError>)
    ensures
        match r {
            Ok(p) => spec_task_port(*task) == Some(p),
            Err(e) => spec_task_port(*task) is None && e is Internal && e.spec_message()
                == "invalid ttyd port in database"@,
        },
{
    match task_port(task) {
        Some(p) => Ok(p),
        None => Err(AppError::invalid_port()),
    }
}

/// What making sure a task runs does.
#[derive(Debug, Clone, Copy, PartialEq, Eq, Structural)]
pub enum EnsurePlan {
    /// It is recorded as running: refresh it.
    Refresh,
    /// Start session and terminal on this port.
    Start(u16),
}

pub fn plan_ensure_running(task: &Task) -> (r: Result<EnsurePlan, AppError>)
    ensures
        match r {
            Ok(EnsurePlan::Refresh) => task.status == TaskStatus::Running,
            Ok(EnsurePlan::Start(p)) => task.status != TaskStatus::Running && spec_task_port(*task)
                == Some(p),
            Err(e) => task.status != TaskStatus::Running && spec_task_port(*task) is None
                && e is Internal && e.spec_message() == "invalid ttyd port in database"@,
        },
{
    if task.status == TaskStatus::Running {
        return Ok(EnsurePlan::Refresh);
    }
    match task_port(task) {
        Some(p) => Ok(EnsurePlan::Start(p)),
        None => Err(AppError::invalid_port()),
    }
}

/// Deleting a running task stops its runtime first.
pub fn stops_runtime_before_delete(task: &Task) -> (r: bool)
    ensures
        r == (task.status == TaskStatus::Running),
{
    task.status == TaskStatus::Running
}

/// The port on which a task's terminal is first started: the lowest port of
/// `min..=max` that no task uses.
pub open spec fn port_used(used: Seq<i64>, p: int) -> bool {
    exists|i: int| 0 <= i < used.len() && used[i] as int == p
}

pub fn first_free_port(used: &Vec<i64>, min: u16, max: u16) -> (r: Option<u16>)
    ensures
        match r {
            Some(p) => min <= p <= max && !port_used(used@, p as int) && forall|q: int|
                min <= q < p ==> port_used(used@, q),
            None => forall|q: int| min <= q <= max ==> port_used(used@, q),
        },
{
    if min > max {
        return None;
    }
    let mut port: u32 = min as u32;
    while port <= max as u32
        invariant
            min <= port <= max as u32 + 1,
            forall|q: int| min <= q < port ==> port_used(used@, q),
        decreases max as u32 + 1 - port,
    {
        let mut found = false;
        let mut i: usize = 0;
        while i < used.len()
            invariant
                i <= used@.len(),
                found <==> exists|j: int| 0 <= j < i && used@[j] as int == port as int,
            decreases used@.len() - i,
        {
            if used[i] == port as i64 {
                found = true;
            }
            i = i + 1;
        }
        if !found {
            return Some(port as u16);
        }
        port = port + 1;
    }
    None
}

/// `first_free_port`, with `Conflict` when every port of the range is used.
pub fn allocate_port_from(used: &Vec<i64>, min: u16, max: u16) -> (r: Result<u16, AppError>)
    ensures
        match r {
            Ok(p) => min <= p <= max && !port_used(used@, p as int) && forall|q: int|
                min <= q < p ==> port_used(used@, q),
            Err(e) => (forall|q: int| min <= q <= max ==> port_used(used@, q)) && e is Conflict
                && e.spec_message() == "没有可用 ttyd 端口"@,
        },
{
    match first_free_port(used, min, max) {
        Some(p) => Ok(p),
        None => Err(AppError::Conflict(String::from_str("没有可用 ttyd 端口"))),
    }
}

} // verus!

verus! {

/// A runtime that the reconciliation keeps: its task, port and socket.
#[derive(Debug, Clone)]
pub struct KeptRuntime {
    pub id: String,
    pub port: u16,
    pub sock_path: String,
}

pub open spec fn kept_view(k: Seq<KeptRuntime>) -> Seq<(Seq<char>, u16, Seq<char>)> {
    k.map_values(|x: KeptRuntime| (x.id@, x.port, x.sock_path@))
}

/// What the reconciliation does with one task.
#[derive(Debug, Clone, Copy, PartialEq, Eq, Structural)]
pub enum ReconcileStep {
    /// Not recorded as running: left alone.
    Skip,
    /// Healthy: kept, with its route.
    KeepHealthy,
    /// Healthy but with an unusable stored port: recorded as failed.
    MarkInvalidPort,
    /// Session alive, terminal lost: restart the terminal, then report the
    /// task as it is afterwards.
    RestartTtyd,
    /// Session lost: stop what is left and record the task with this status.
    MarkLost { status: TaskStatus },
}

/// The runtimes kept by one pass of reconciliation over all tasks.
pub struct Reconciliation {
    pub kept: Vec<KeptRuntime>,
}

/// Whether a task is recorded as running: only such tasks are probed and
/// refreshed, by listing and by reconciliation.
pub fn recorded_running(task: &Task) -> (r: bool)
    ensures
        r == (task.status == TaskStatus::Running),
{
    task.status == TaskStatus::Running
}

impl Reconciliation {
    pub fn new() -> (r: Reconciliation)
        ensures
            r.kept@.len() == 0,
    {
        Reconciliation { kept: Vec::new() }
    }

    fn keep(&mut self, task: &Task, port: u16)
        ensures
            kept_view(final(self).kept@) == kept_view(old(self).kept@).push((task.id@, port, task.sock_path@)),
    {
        let ghost before = self.kept@;
        self.kept.push(KeptRuntime { id: task.id.clone(), port, sock_path: task.sock_path.clone() });
        assert(kept_view(self.kept@) =~= kept_view(before).push((task.id@, port, task.sock_path@)));
    }

    /// Decides what to do with a task given its probed health; a healthy
    /// running task with a valid port is kept.
    pub fn observe(&mut self, task: &Task, health: RuntimeHealth) -> (r: ReconcileStep)
        ensures
            task.status != TaskStatus::Running ==> r == ReconcileStep::Skip && final(self).kept@
                == old(self).kept@,
            task.status == TaskStatus::Running ==> match health {
                RuntimeHealth::Healthy => match spec_task_port(*task) {
                    Some(p) => r == ReconcileStep::KeepHealthy && kept_view(final(self).kept@)
                        == kept_view(old(self).kept@).push((task.id@, p, task.sock_path@)),
                    None => r == ReconcileStep::MarkInvalidPort && final(self).kept@ == old(
                        self,
                    ).kept@,
                },
                RuntimeHealth::SessionOnly => r == ReconcileStep::RestartTtyd && final(self).kept@
                    == old(self).kept@,
                _ => r == (ReconcileStep::MarkLost { status: spec_lost_status(health) })
                    && final(self).kept@ == old(self).kept@,
            },
    {
        if task.status != TaskStatus::Running {
            return ReconcileStep::Skip;
        }
        match health {
            RuntimeHealth::Healthy => match task_port(task) {
                Some(p) => {
                    self.keep(task, p);
                    ReconcileStep::KeepHealthy
                },
                None => ReconcileStep::MarkInvalidPort,
            },
            RuntimeHealth::SessionOnly => ReconcileStep::RestartTtyd,
            RuntimeHealth::TerminalOnly => ReconcileStep::MarkLost { status: TaskStatus::Error },
            RuntimeHealth::Down => ReconcileStep::MarkLost { status: TaskStatus::Stopped },
        }
    }

    /// Keeps a task whose terminal was restarted, when its port is valid.
    pub fn record_restarted(&mut self, updated: &Task)
        ensures
            match spec_task_port(*updated) {
                Some(p) => kept_view(final(self).kept@) == kept_view(old(self).kept@).push(
                    (updated.id@, p, updated.sock_path@),
                ),
                None => final(self).kept@ == old(self).kept@,
            },
    {
        match task_port(updated) {
            Some(p) => self.keep(updated, p),
            None => {},
        }
    }

    /// The routes of the kept runtimes, in the order they were kept.
    pub fn routes(&self) -> (r: Vec<(String, u16)>)
        ensures
            entries_view(r@) == kept_routes(self.kept@),
    {
        let mut out: Vec<(String, u16)> = Vec::new();
        let mut i: usize = 0;
        while i < self.kept.len()
            invariant
                i <= self.kept@.len(),
                out@.len() == i,
                forall|j: int| 0 <= j < i ==> #[trigger] out@[j].0@ == self.kept@[j].id@ && out@[j].1 == self.kept@[j].port,
            decreases self.kept@.len() - i,
        {
            out.push((self.kept[i].id.clone(), self.kept[i].port));
            i = i + 1;
        }
        assert(entries_view(out@) =~= kept_routes(self.kept@));
        out
    }

    /// The task ids of the kept runtimes.
    pub fn kept_ids(&self) -> (r: Vec<String>)
        ensures
            crate::text::strings_view(r@) == kept_ids_view(self.kept@),
    {
        let mut out: Vec<String> = Vec::new();
        let mut i: usize = 0;
        while i < self.kept.len()
            invariant
                i <= self.kept@.len(),
                out@.len() == i,
                forall|j: int| 0 <= j < i ==> #[trigger] out@[j]@ == self.kept@[j].id@,
            decreases self.kept@.len() - i,
        {
            out.push(self.kept[i].id.clone());
            i = i + 1;
        }
        assert(crate::text::strings_view(out@) =~= kept_ids_view(self.kept@));
        out
    }

    /// The socket paths of the kept runtimes.
    pub fn kept_socks(&self) -> (r: Vec<String>)
        ensures
            crate::text::strings_view(r@) == kept_socks_view(self.kept@),
    {
        let mut out: Vec<String> = Vec::new();
        let mut i: usize = 0;
        while i < self.kept.len()
            invariant
                i <= self.kept@.len(),
                out@.len() == i,
                forall|j: int| 0 <= j < i ==> #[trigger] out@[j]@ == self.kept@[j].sock_path@,
            decreases self.kept@.len() - i,
        {
            out.push(self.kept[i].sock_path.clone());
            i = i + 1;
        }
        assert(crate::text::strings_view(out@) =~= kept_socks_view(self.kept@));
        out
    }
}

pub open spec fn kept_routes(k: Seq<KeptRuntime>) -> Seq<(Seq<char>, u16)> {
    k.map_values(|x: KeptRuntime| (x.id@, x.port))
}

pub open spec fn kept_ids_view(k: Seq<KeptRuntime>) -> Seq<Seq<char>> {
    k.map_values(|x: KeptRuntime| x.id@)
}

pub open spec fn kept_socks_view(k: Seq<KeptRuntime>) -> Seq<Seq<char>> {
    k.map_values(|x: KeptRuntime| x.sock_path@)
}

} // verus!

verus! {

/// The socket of a task's session: `/tmp/remote_terminal/{id}.sock`.
pub open spec fn spec_sock_path(id: Seq<char>) -> Seq<char> {
    "/tmp/remote_terminal/"@ + id + ".sock"@
}

pub fn sock_path_for(id: &str) -> (r: String)
    ensures
        r@ == spec_sock_path(id@),
{
    let mut r = String::from_str("/tmp/remote_terminal/");
    r.append(id);
    r.append(".sock");
    r
}

/// A new task before its runtime exists: its id (the project), name,
/// project, working directory, socket and port.
#[derive(Debug, Clone)]
pub struct TaskDraft {
    pub id: String,
    pub name: String,
    pub project: String,
    pub workdir: String,
    pub sock_path: String,
    pub ttyd_port: u16,
}

/// Drafts the task of the directory `project` under `allowed_root` on
/// `port`: the project is its id, the given name or else the project is its
/// name.
pub fn draft_task(allowed_root: &str, project: String, name: Option<String>, port: u16) -> (r: TaskDraft)
    ensures
        r.id@ == project@,
        r.name@ == match name {
            Some(n) => n@,
            None => project@,
        },
        r.project@ == project@,
        r.workdir@ == crate::text::join_path(allowed_root@, project@),
        r.sock_path@ == spec_sock_path(r.id@),
        r.ttyd_port == port,
{
    let id = project.clone();
    let workdir = crate::project::project_workdir(allowed_root, project.as_str());
    let sock_path = sock_path_for(id.as_str());
    let name = match name {
        Some(n) => n,
        None => project.clone(),
    };
    TaskDraft { id, name, project, workdir, sock_path, ttyd_port: port }
}

impl TaskDraft {
    /// The record of a created task, once its runtime has started: it is
    /// running.
    pub fn with_runtime(self, pids: RuntimePids) -> (r: crate::models::NewTask)
        ensures
            r.id@ == self.id@,
            r.name@ == self.name@,
            r.project@ == self.project@,
            r.workdir@ == self.workdir@,
            r.sock_path@ == self.sock_path@,
            r.ttyd_port == self.ttyd_port as i64,
            r.dtach_pid == pids.dtach_pid,
            r.ttyd_pid == pids.ttyd_pid,
            r.status == TaskStatus::Running,
    {
        crate::models::NewTask {
            id: self.id,
            name: self.name,
            project: self.project,
            workdir: self.workdir,
            sock_path: self.sock_path,
            ttyd_port: self.ttyd_port as i64,
            dtach_pid: pids.dtach_pid,
            ttyd_pid: pids.ttyd_pid,
            status: TaskStatus::Running,
        }
    }

    /// The record of a task found as a project directory: nothing runs yet,
    /// it is stopped.
    pub fn discovered(self) -> (r: crate::models::NewDiscoveredTask)
        ensures
            r.id@ == self.id@,
            r.name@ == self.name@,
            r.project@ == self.project@,
            r.workdir@ == self.workdir@,
            r.sock_path@ == self.sock_path@,
            r.ttyd_port == self.ttyd_port as i64,
            r.status == TaskStatus::Stopped,
    {
        crate::models::NewDiscoveredTask {
            id: self.id,
            name: self.name,
            project: self.project,
            workdir: self.workdir,
            sock_path: self.sock_path,
            ttyd_port: self.ttyd_port as i64,
            status: TaskStatus::Stopped,
        }
    }
}

/// The task of an accepted project is reached under `/term/{project}/`: its
/// id, the trimmed project name, is a non-empty plain path segment, so a
/// terminal path built from it names it again.
pub proof fn lemma_project_task_is_routable(project: Seq<char>, suffix: Seq<char>)
    requires
        crate::project::project_accepted(project),
    ensures
        crate::routes::spec_task_id_of_term_path(crate::routes::spec_terminal_path(trim(project)) + suffix)
            == Some(trim(project)),
{
    crate::project::lemma_accepted_project_is_plain_segment(project);
    crate::routes::lemma_terminal_path_names_task(trim(project), suffix);
}

} // verus!

verus! {

/// A task whose session is alive and whose terminal is not is repaired by a
/// new terminal only: the plan is a terminal restart, and the recorded task
/// keeps its session pid, gets the new terminal pid, runs again, and is
/// otherwise unchanged.
pub proof fn lemma_surviving_session_restarts_only_terminal(task: Task, new_ttyd_pid: i64)
    ensures
        spec_plan_refresh(task, spec_runtime_health(true, false)) == RefreshPlan::RestartTtyd,
        ({
            let after = task.with_runtime(RuntimeUpdate::spec_ttyd_restarted(task, new_ttyd_pid));
            &&& after.dtach_pid == task.dtach_pid
            &&& after.ttyd_pid == Some(new_ttyd_pid)
            &&& after.status == TaskStatus::Running
            &&& after.id == task.id
            &&& after.sock_path == task.sock_path
            &&& after.ttyd_port == task.ttyd_port
        }),
{
}

/// A task whose session is gone is recorded by what is left: stopped when
/// neither process is alive, error when its terminal still is; either way it
/// keeps no pid.
pub proof fn lemma_lost_session_status(task: Task, ttyd_alive: bool)
    ensures
        ({
            let plan = spec_plan_refresh(task, spec_runtime_health(false, ttyd_alive));
            let status = if ttyd_alive { TaskStatus::Error } else { TaskStatus::Stopped };
            &&& plan == (RefreshPlan::MarkLost { status })
            &&& task.with_runtime(RuntimeUpdate { dtach_pid: None, ttyd_pid: None, status }).dtach_pid is None
            &&& task.with_runtime(RuntimeUpdate { dtach_pid: None, ttyd_pid: None, status }).ttyd_pid is None
            &&& task.with_runtime(RuntimeUpdate { dtach_pid: None, ttyd_pid: None, status }).status == status
        }),
{
}

/// The socket of every task lies where the orphan scan looks: the session
/// search pattern for it extends the scan pattern.
pub proof fn lemma_task_socket_is_scanned(id: Seq<char>)
    ensures
        crate::runtime::spec_session_pattern(spec_sock_path(id)) == "dtach -n /tmp/remote_terminal/"@ + id
            + ".sock"@,
{
    reveal_strlit("dtach -n ");
    reveal_strlit("/tmp/remote_terminal/");
    reveal_strlit("dtach -n /tmp/remote_terminal/");
    assert("dtach -n "@ + "/tmp/remote_terminal/"@ =~= "dtach -n /tmp/remote_terminal/"@);
    assert(crate::runtime::spec_session_pattern(spec_sock_path(id)) =~= "dtach -n /tmp/remote_terminal/"@ + id
        + ".sock"@);
}

} // verus!

verus! {

/// After a reconciliation pass the route table routes exactly the kept
/// runtimes, each to the port it was kept with (the last one, should a task
/// be kept twice).
pub proof fn lemma_reconciled_routes(kept: Seq<KeptRuntime>)
    ensures
        forall|id: Seq<char>|
            crate::routes::routes_of(kept_routes(kept)).contains_key(id) <==> exists|i: int|
                0 <= i < kept.len() && #[trigger] kept[i].id@ == id,
{
    let e = kept_routes(kept);
    crate::routes::lemma_routes_of_domain(e);
    assert forall|id: Seq<char>|
        crate::routes::routes_of(e).contains_key(id) <==> exists|i: int|
            0 <= i < kept.len() && #[trigger] kept[i].id@ == id by {
        if crate::routes::routes_of(e).contains_key(id) {
            let i = choose|i: int| 0 <= i < e.len() && #[trigger] e[i].0 == id;
            assert(kept[i].id@ == id);
        }
        if exists|i: int| 0 <= i < kept.len() && #[trigger] kept[i].id@ == id {
            let i = choose|i: int| 0 <= i < kept.len() && #[trigger] kept[i].id@ == id;
            assert(e[i].0 == id);
        }
    }
}

} // verus!

verus! {

/// How creating a new task ends, once its record was (or was not) stored.
pub enum CreateFinish {
    /// Stored: route the terminal, log the creation, answer with the task.
    Created { task: Task, route: (String, u16), log: crate::models::LogEntry },
    /// Not stored: stop the runtime that was started for it and fail.
    Failed { stop: RuntimePids, error: AppError },
}

/// Decides how a create request ends after the store answered: a stored
/// task gets its route and a `create` log entry; a failed store stops the
/// runtime just started and ends in an internal error with the store's
/// message.
pub fn finish_create(task_id: &str, port: u16, pids: RuntimePids, stored: Result<Task, String>) -> (r: CreateFinish)
    ensures
        match stored {
            Ok(t) => match r {
                CreateFinish::Created { task, route, log } => task == t && route.0@ == task_id@
                    && route.1 == port && log.is_entry(task_id@, "create"@, "created task for project="@ + t.project@),
                _ => false,
            },
            Err(m) => match r {
                CreateFinish::Failed { stop, error } => stop == pids && error is Internal
                    && error.spec_message() == m@,
                _ => false,
            },
        },
{
    match stored {
        Ok(task) => {
            let log = crate::models::LogEntry::created(task_id, task.project.as_str());
            CreateFinish::Created { task, route: (String::from_str(task_id), port), log }
        },
        Err(m) => CreateFinish::Failed { stop: pids, error: AppError::Internal(m) },
    }
}

} // verus!

verus! {

/// What to do for a project, given the task stored for it, if any.
pub enum ProjectPlan {
    /// The project has its task: use it (a create reuses it, discovery
    /// leaves it).
    Reuse(Task),
    /// The project has no task yet: make one.
    New,
}

/// A project's stored task is always reused: creating it again, or finding
/// its directory again, never makes a second task.
pub fn plan_for_project(existing: Option<Task>) -> (r: ProjectPlan)
    ensures
        match existing {
            Some(t) => r matches ProjectPlan::Reuse(u) && u == t,
            None => r is New,
        },
{
    match existing {
        Some(t) => ProjectPlan::Reuse(t),
        None => ProjectPlan::New,
    }
}

} // verus!
