//! The runtime of a task: a `dtach` session running the agent, and a `ttyd`
//! terminal attached to it. This module holds what is decided about them;
//! the processes themselves are started and probed by the caller.
use vstd::prelude::*;

verus! {

/// The pids of a freshly started runtime.
#[derive(Debug, Clone, Copy, PartialEq, Eq, Structural)]
pub struct RuntimePids {
    pub dtach_pid: i64,
    pub ttyd_pid: i64,
}

/// A running terminal process and the port it listens on.
#[derive(Debug, Clone, Copy, PartialEq, Eq, Structural)]
pub struct TtydProcess {
    pub pid: i64,
    pub port: u16,
}

impl Default for TtydProcess {
    fn default() -> (r: TtydProcess)
        ensures
            r == (TtydProcess { pid: 0, port: 0 }),
    {
        TtydProcess { pid: 0, port: 0 }
    }
}

} // verus!

verus! {

/// A failure of the runtime.
#[derive(Debug, Clone)]
pub enum RuntimeError {
    Command(String),
    Io(String),
}

impl RuntimeError {
    pub open spec fn spec_message(self) -> Seq<char> {
        match self {
            RuntimeError::Command(m) => "runtime command failed: "@ + m@,
            RuntimeError::Io(m) => "io error: "@ + m@,
        }
    }

    /// The text the error is shown as.
    pub fn message(&self) -> (r: String)
        ensures
            r@ == self.spec_message(),
    {
        match self {
            RuntimeError::Command(m) => {
                let mut r = String::from_str("runtime command failed: ");
                r.append(m.as_str());
                r
            },
            RuntimeError::Io(m) => {
                let mut r = String::from_str("io error: ");
                r.append(m.as_str());
                r
            },
        }
    }

    /// An internal error of a request carrying this error's text.
    pub fn to_app_error(&self) -> (r: crate::error::AppError)
        ensures
            r is Internal,
            r.spec_message() == self.spec_message(),
    {
        crate::error::AppError::Internal(self.message())
    }
}

/// `s` with each `'` written as `'"'"'`, so that it can stand inside a
/// single-quoted shell word.
pub open spec fn escape_single_quotes(s: Seq<char>) -> Seq<char>
    decreases s.len(),
{
    if s.len() == 0 {
        Seq::empty()
    } else {
        escape_single_quotes(s.drop_last()) + if s.last() == '\'' {
            seq!['\'', '"', '\'', '"', '\'']
        } else {
            seq![s.last()]
        }
    }
}

/// The shell command the session runs: enter the working directory, run the
/// agent, then stay in an interactive shell.
pub open spec fn spec_session_command(workdir: Seq<char>) -> Seq<char> {
    "export TERM=xterm-256color COLORTERM=truecolor; cd '"@ + escape_single_quotes(workdir)
        + "' && codex; exec bash -i"@
}

/// What `pgrep -f` is asked for to find the session on a socket.
pub open spec fn spec_session_pattern(sock_path: Seq<char>) -> Seq<char> {
    "dtach -n "@ + sock_path
}

/// The `ttyd` listing pattern: a `pgrep` line with pid, then `ttyd ... -b
/// /term/{id} ... -p {port}`.
pub open spec fn ttyd_listing_line_pattern() -> Seq<char> {
    "^\\s*(\\d+)\\s+.*\\bttyd\\b.*-b\\s+/term/([A-Za-z0-9._-]{1,64}).*-p\\s+(\\d+)"@
}

/// The `(task id, process)` a listing line gives: the pid (group 1) and the
/// port (group 3) must read as numbers and the task id (group 2) must be
/// there.
pub open spec fn ttyd_entry_of_captures(caps: Option<Option<Seq<Option<Seq<char>>>>>) -> Option<(Seq<char>, TtydProcess)> {
    match caps {
        Some(Some(g)) => match (crate::cleanup::group_at(g, 1), crate::cleanup::group_at(g, 2), crate::cleanup::group_at(g, 3)) {
            (Some(p), Some(id), Some(port)) => match (crate::text::parse_i64_spec(p), crate::text::parse_u16_spec(port)) {
                (Some(pid), Some(port)) => Some((id, TtydProcess { pid, port })),
                _ => None,
            },
            _ => None,
        },
        _ => None,
    }
}

pub open spec fn ttyd_list_view(v: Seq<(String, TtydProcess)>) -> Seq<(Seq<char>, TtydProcess)> {
    v.map_values(|x: (String, TtydProcess)| (x.0@, x.1))
}

/// The terminals found in listing lines, in line order.
pub open spec fn ttyd_entries(lines: Seq<Seq<char>>) -> Seq<(Seq<char>, TtydProcess)>
    decreases lines.len(),
{
    if lines.len() == 0 {
        Seq::empty()
    } else {
        let prev = ttyd_entries(lines.drop_last());
        match ttyd_entry_of_captures(crate::external::regex_captures_of(ttyd_listing_line_pattern(), lines.last())) {
            Some(e) => prev.push(e),
            None => prev,
        }
    }
}

/// The process of the first listed terminal of a task.
pub open spec fn first_ttyd_of(list: Seq<(Seq<char>, TtydProcess)>, task_id: Seq<char>) -> Option<TtydProcess>
    decreases list.len(),
{
    if list.len() == 0 {
        None
    } else if list[0].0 == task_id {
        Some(list[0].1)
    } else {
        first_ttyd_of(list.drop_first(), task_id)
    }
}

/// The largest pid among the lines of `pgrep` output that read as numbers
/// once trimmed.
pub open spec fn newest_listed_pid(lines: Seq<Seq<char>>) -> Option<i64>
    decreases lines.len(),
{
    if lines.len() == 0 {
        None
    } else {
        let prev = newest_listed_pid(lines.drop_last());
        match crate::text::parse_i64_spec(crate::text::trim(lines.last())) {
            Some(p) => match prev {
                Some(q) => Some(if p > q { p } else { q }),
                None => Some(p),
            },
            None => prev,
        }
    }
}

/// The text of `ps` output for one process: trimmed, `None` when empty.
pub open spec fn spec_process_text(stdout: Seq<char>) -> Option<Seq<char>> {
    let t = crate::text::trim(stdout);
    if t.len() == 0 {
        None
    } else {
        Some(t)
    }
}

/// The `ps` start-time format, e.g. `Mon Jan  1 10:00:00 2024`.
pub open spec fn lstart_format() -> Seq<char> {
    "%a %b %e %H:%M:%S %Y"@
}

/// Runs task runtimes with `dtach` and `ttyd` through the shell.
#[derive(Debug, Clone, Copy)]
pub struct ShellRuntimeManager;

impl Default for ShellRuntimeManager {
    fn default() -> (r: ShellRuntimeManager)
        ensures
            r == ShellRuntimeManager,
    {
        ShellRuntimeManager
    }
}

/// How a wait for a process to exit goes on after one probe.
#[derive(Debug, Clone, Copy, PartialEq, Eq, Structural)]
pub enum KillStep {
    /// It has exited.
    Exited,
    /// Wait, then probe again.
    WaitThenProbe,
    /// Wait, then kill it by force.
    WaitThenForceKill,
}

/// How a wait for a new session goes on after one attempt.
#[derive(Debug, Clone, Copy, PartialEq, Eq, Structural)]
pub enum SessionWait {
    /// Its pid was found.
    Found(i64),
    /// Wait, then look again.
    WaitThenRetry,
    /// Give up: the session did not stay alive.
    GiveUp,
}

/// What starting a task came to, and the session to stop when the terminal
/// could not be started.
pub struct StartOutcome {
    pub result: Result<RuntimePids, RuntimeError>,
    pub stop_session: Option<i64>,
}

impl ShellRuntimeManager {
    /// The number of times a terminated process is probed before it is killed.
    pub fn stop_probe_limit(&self) -> (r: u32)
        ensures
            r == 20,
    {
        20
    }

    /// The number of looks for a new session's pid.
    pub fn session_wait_limit(&self) -> (r: u32)
        ensures
            r == 40,
    {
        40
    }

    /// The shell command the session runs in `workdir`.
    pub fn session_command(&self, workdir: &str) -> (r: String)
        ensures
            r@ == spec_session_command(workdir@),
    {
        let v = crate::text::chars_of(workdir);
        let mut esc = String::new();
        let mut i: usize = 0;
        while i < v.len()
            invariant
                i <= v@.len(),
                esc@ == escape_single_quotes(v@.subrange(0, i as int)),
            decreases v@.len() - i,
        {
            let c = v[i];
            let ghost before = esc@;
            if c == '\'' {
                crate::external::push_char(&mut esc, '\'');
                crate::external::push_char(&mut esc, '"');
                crate::external::push_char(&mut esc, '\'');
                crate::external::push_char(&mut esc, '"');
                crate::external::push_char(&mut esc, '\'');
            } else {
                crate::external::push_char(&mut esc, c);
            }
            assert(v@.subrange(0, i + 1).drop_last() =~= v@.subrange(0, i as int));
            assert(esc@ =~= before + if c == '\'' {
                seq!['\'', '"', '\'', '"', '\'']
            } else {
                seq![c]
            });
            i = i + 1;
        }
        assert(v@.subrange(0, v@.len() as int) =~= v@);
        let mut cmd = String::from_str("export TERM=xterm-256color COLORTERM=truecolor; cd '");
        cmd.append(esc.as_str());
        cmd.append("' && codex; exec bash -i");
        cmd
    }

    /// The arguments of `dtach` that start the session on `sock_path`.
    pub fn session_args(&self, sock_path: &str, workdir: &str) -> (r: Vec<String>)
        ensures
            crate::text::strings_view(r@) == seq![
                "-n"@,
                sock_path@,
                "bash"@,
                "-lc"@,
                spec_session_command(workdir@),
            ],
    {
        let mut r: Vec<String> = Vec::new();
        r.push(String::from_str("-n"));
        r.push(String::from_str(sock_path));
        r.push(String::from_str("bash"));
        r.push(String::from_str("-lc"));
        r.push(self.session_command(workdir));
        assert(crate::text::strings_view(r@) =~= seq![
            "-n"@,
            sock_path@,
            "bash"@,
            "-lc"@,
            spec_session_command(workdir@),
        ]);
        r
    }

    /// What `pgrep -f` is asked for to find the session on `sock_path`.
    pub fn session_pattern(&self, sock_path: &str) -> (r: String)
        ensures
            r@ == spec_session_pattern(sock_path@),
    {
        let mut r = String::from_str("dtach -n ");
        r.append(sock_path);
        r
    }

    /// The arguments of `ttyd` that serve the terminal of `task_id` on
    /// `port`, attached to the session on `sock_path`.
    pub fn ttyd_args(&self, task_id: &str, sock_path: &str, port: u16) -> (r: Vec<String>)
        ensures
            crate::text::strings_view(r@) == seq![
                "-i"@,
                "127.0.0.1"@,
                "-T"@,
                "xterm-256color"@,
                "-W"@,
                "-b"@,
                "/term/"@ + task_id@,
                "-p"@,
                crate::text::decimal(port as nat),
                "dtach"@,
                "-a"@,
                sock_path@,
            ],
    {
        let mut base = String::from_str("/term/");
        base.append(task_id);
        let mut port_text = String::new();
        crate::text::push_decimal(&mut port_text, port as u64);
        let mut r: Vec<String> = Vec::new();
        r.push(String::from_str("-i"));
        r.push(String::from_str("127.0.0.1"));
        r.push(String::from_str("-T"));
        r.push(String::from_str("xterm-256color"));
        r.push(String::from_str("-W"));
        r.push(String::from_str("-b"));
        r.push(base);
        r.push(String::from_str("-p"));
        r.push(port_text);
        r.push(String::from_str("dtach"));
        r.push(String::from_str("-a"));
        r.push(String::from_str(sock_path));
        assert(crate::text::strings_view(r@) =~= seq![
            "-i"@,
            "127.0.0.1"@,
            "-T"@,
            "xterm-256color"@,
            "-W"@,
            "-b"@,
            "/term/"@ + task_id@,
            "-p"@,
            crate::text::decimal(port as nat),
            "dtach"@,
            "-a"@,
            sock_path@,
        ]);
        r
    }

    /// What `pgrep -af` is asked for to list the terminals.
    pub fn ttyd_listing_pattern(&self) -> (r: &'static str)
        ensures
            r@ == "ttyd -i 127\\.0\\.0\\.1 .* -b /term/"@,
    {
        "ttyd -i 127\\.0\\.0\\.1 .* -b /term/"
    }
}

} // verus!

verus! {

impl ShellRuntimeManager {
    /// The terminals found in `pgrep -af` lines.
    pub fn ttyd_processes_in(&self, lines: &Vec<String>) -> (r: Vec<(String, TtydProcess)>)
        ensures
            ttyd_list_view(r@) == ttyd_entries(crate::text::strings_view(lines@)),
    {
        let pattern = "^\\s*(\\d+)\\s+.*\\bttyd\\b.*-b\\s+/term/([A-Za-z0-9._-]{1,64}).*-p\\s+(\\d+)";
        let ghost lv = crate::text::strings_view(lines@);
        let mut out: Vec<(String, TtydProcess)> = Vec::new();
        let mut i: usize = 0;
        while i < lines.len()
            invariant
                i <= lines@.len(),
                lv == crate::text::strings_view(lines@),
                pattern@ == ttyd_listing_line_pattern(),
                ttyd_list_view(out@) == ttyd_entries(lv.subrange(0, i as int)),
            decreases lines@.len() - i,
        {
            let caps = crate::external::regex_captures(pattern, lines[i].as_str());
            let e = ttyd_entry_from_captures(&caps);
            assert(lv.subrange(0, i + 1).drop_last() =~= lv.subrange(0, i as int));
            assert(lv.subrange(0, i + 1).last() == lines@[i as int]@);
            let ghost before = out@;
            match e {
                Some(x) => {
                    let ghost xv = (x.0@, x.1);
                    out.push(x);
                    assert(ttyd_list_view(out@) =~= ttyd_list_view(before).push(xv));
                },
                None => {},
            }
            i = i + 1;
        }
        assert(lv.subrange(0, lines@.len() as int) =~= lv);
        out
    }

    /// The first listed terminal of `task_id`.
    pub fn find_ttyd_process_in(&self, list: &Vec<(String, TtydProcess)>, task_id: &str) -> (r: Option<TtydProcess>)
        ensures
            r == first_ttyd_of(ttyd_list_view(list@), task_id@),
    {
        let ghost lv = ttyd_list_view(list@);
        let mut i: usize = 0;
        assert(lv.subrange(0, lv.len() as int) =~= lv);
        while i < list.len()
            invariant
                i <= list@.len(),
                lv == ttyd_list_view(list@),
                first_ttyd_of(lv, task_id@) == first_ttyd_of(lv.subrange(i as int, lv.len() as int), task_id@),
            decreases list@.len() - i,
        {
            let ghost rest = lv.subrange(i as int, lv.len() as int);
            assert(rest[0] == lv[i as int]);
            if crate::text::str_equal(list[i].0.as_str(), task_id) {
                return Some(list[i].1);
            }
            assert(rest.drop_first() =~= lv.subrange(i + 1, lv.len() as int));
            i = i + 1;
        }
        None
    }

    /// The largest pid that `pgrep -f` printed.
    pub fn newest_pid_in_output(&self, stdout: &str) -> (r: Option<i64>)
        ensures
            r == newest_listed_pid(crate::text::lines(stdout@)),
    {
        let lines = crate::text::split_lines(stdout);
        let ghost lv = crate::text::strings_view(lines@);
        let mut best: Option<i64> = None;
        let mut i: usize = 0;
        while i < lines.len()
            invariant
                i <= lines@.len(),
                lv == crate::text::strings_view(lines@),
                best == newest_listed_pid(lv.subrange(0, i as int)),
            decreases lines@.len() - i,
        {
            assert(lv.subrange(0, i + 1).drop_last() =~= lv.subrange(0, i as int));
            assert(lv.subrange(0, i + 1).last() == lines@[i as int]@);
            match crate::text::parse_i64(crate::text::trim_str(lines[i].as_str())) {
                Some(p) => {
                    best = match best {
                        Some(q) => Some(if p > q { p } else { q }),
                        None => Some(p),
                    };
                },
                None => {},
            }
            i = i + 1;
        }
        assert(lv.subrange(0, lines@.len() as int) =~= lv);
        best
    }

    /// The text `ps` printed for a process, trimmed; `None` when empty.
    pub fn process_text(&self, stdout: &str) -> (r: Option<String>)
        ensures
            match r {
                Some(t) => spec_process_text(stdout@) == Some(t@),
                None => spec_process_text(stdout@) is None,
            },
    {
        let t = crate::text::trim_str(stdout);
        if t.unicode_len() == 0 {
            None
        } else {
            Some(String::from_str(t))
        }
    }

    /// The start time that `ps -o lstart=` printed, in seconds since the
    /// Unix epoch.
    pub fn process_start_time(&self, stdout: &str) -> (r: Option<i64>)
        ensures
            r == match spec_process_text(stdout@) {
                Some(t) => crate::external::utc_timestamp_of(t, lstart_format()),
                None => None,
            },
    {
        let t = crate::text::trim_str(stdout);
        if t.unicode_len() == 0 {
            None
        } else {
            crate::external::parse_utc_timestamp(t, "%a %b %e %H:%M:%S %Y")
        }
    }

    /// Pids 0 and 1, and negative ones, are never probed: they count as not
    /// alive.
    pub fn may_probe_pid(&self, pid: i64) -> (r: bool)
        ensures
            r == (pid > 1),
    {
        pid > 1
    }

    /// The pid of a spawned child, or the error when it has none.
    pub fn child_pid(&self, id: Option<u32>) -> (r: Result<i64, RuntimeError>)
        ensures
            match r {
                Ok(p) => id == Some(p as u32) && 0 <= p,
                Err(e) => id is None && e.spec_message() == "runtime command failed: "@
                    + "failed to capture child pid"@,
            },
    {
        match id {
            Some(i) => Ok(i as i64),
            None => Err(RuntimeError::Command(String::from_str("failed to capture child pid"))),
        }
    }

    /// How waiting for a terminated process goes on after probe number
    /// `probes_done` (counted from 0) of `probe_limit`.
    pub fn kill_step(&self, probes_done: u32, probe_limit: u32, alive: bool) -> (r: KillStep)
        ensures
            !alive ==> r == KillStep::Exited,
            alive && probes_done + 1 < probe_limit ==> r == KillStep::WaitThenProbe,
            alive && probes_done + 1 >= probe_limit ==> r == KillStep::WaitThenForceKill,
    {
        if !alive {
            KillStep::Exited
        } else if (probes_done as u64) + 1 < probe_limit as u64 {
            KillStep::WaitThenProbe
        } else {
            KillStep::WaitThenForceKill
        }
    }

    /// How waiting for a new session goes on after attempt number `attempt`
    /// (counted from 0) of `limit`; `found` is the pid seen once its socket
    /// exists.
    pub fn session_wait_step(&self, attempt: u32, limit: u32, found: Option<i64>) -> (r: SessionWait)
        ensures
            found is Some ==> r == SessionWait::Found(found->0),
            found is None && attempt + 1 < limit ==> r == SessionWait::WaitThenRetry,
            found is None && attempt + 1 >= limit ==> r == SessionWait::GiveUp,
    {
        match found {
            Some(p) => SessionWait::Found(p),
            None => if (attempt as u64) + 1 < limit as u64 {
                SessionWait::WaitThenRetry
            } else {
                SessionWait::GiveUp
            },
        }
    }

    /// The error of a session that did not come up.
    pub fn session_lost_error(&self) -> (r: RuntimeError)
        ensures
            r.spec_message() == "runtime command failed: "@ + "dtach process did not stay alive"@,
    {
        RuntimeError::Command(String::from_str("dtach process did not stay alive"))
    }

    /// The error of a terminal that exited right after it started.
    pub fn ttyd_lost_error(&self) -> (r: RuntimeError)
        ensures
            r.spec_message() == "runtime command failed: "@ + "ttyd process did not stay alive"@,
    {
        RuntimeError::Command(String::from_str("ttyd process did not stay alive"))
    }

    /// Starting a task: with the session up, the terminal's result decides;
    /// when the terminal fails, the session is stopped again.
    pub fn finish_start(&self, dtach_pid: i64, ttyd: Result<i64, RuntimeError>) -> (r: StartOutcome)
        ensures
            match ttyd {
                Ok(t) => r.result == Ok::<RuntimePids, RuntimeError>(RuntimePids { dtach_pid, ttyd_pid: t })
                    && r.stop_session is None,
                Err(e) => r.result == Err::<RuntimePids, RuntimeError>(e) && r.stop_session == Some(dtach_pid),
            },
    {
        match ttyd {
            Ok(t) => StartOutcome { result: Ok(RuntimePids { dtach_pid, ttyd_pid: t }), stop_session: None },
            Err(e) => StartOutcome { result: Err(e), stop_session: Some(dtach_pid) },
        }
    }
}

/// The `(task id, process)` a matched listing line gives.
pub fn ttyd_entry_from_captures(caps: &Option<Option<Vec<Option<String>>>>) -> (r: Option<(String, TtydProcess)>)
    ensures
        match r {
            Some(x) => ttyd_entry_of_captures(crate::external::captures_view(*caps)) == Some((x.0@, x.1)),
            None => ttyd_entry_of_captures(crate::external::captures_view(*caps)) is None,
        },
{
    match caps {
        Some(Some(g)) => {
            let ghost gv = crate::external::groups_view(g@);
            if g.len() < 4 {
                proof {
                    if g@.len() < 4 {
                        assert(crate::cleanup::group_at(gv, 3) is None);
                    }
                }
                return None;
            }
            assert(gv[1] == match g@[1] { Some(x) => Some(x@), None => None });
            assert(gv[2] == match g@[2] { Some(x) => Some(x@), None => None });
            assert(gv[3] == match g@[3] { Some(x) => Some(x@), None => None });
            match (&g[1], &g[2], &g[3]) {
                (Some(p), Some(id), Some(port)) => {
                    match (crate::text::parse_i64(p.as_str()), crate::text::parse_u16(port.as_str())) {
                        (Some(pid), Some(port)) => Some((id.clone(), TtydProcess { pid, port })),
                        _ => None,
                    }
                },
                _ => None,
            }
        },
        _ => None,
    }
}

} // verus!
