use remote_terminal::cleanup::{orphan_kill_probe_limit, plan_orphan_cleanup};
use remote_terminal::config::{AppConfig, EnvSnapshot};
use remote_terminal::error::AppError;
use remote_terminal::lifecycle::{
    allocate_port_from, draft_task, finish_create, plan_for_project, CreateFinish, ProjectPlan, first_free_port, plan_ensure_running, plan_refresh, port_number, runtime_health_of,
    recorded_running, runtime_health, sock_path_for, stops_runtime_before_delete, task_port,
    ttyd_restart_port, EnsurePlan, Reconciliation, ReconcileStep, RefreshPlan, RuntimeHealth,
    RuntimeUpdate,
};
use remote_terminal::logs::{clamp_log_limit, normalize_log_query, plan_log_retention};
use remote_terminal::models::{
    ActionResponse, AuditLog, AuditLogRow, LogEntry, Task, TaskStatus, TerminalUrlResponse,
};
use remote_terminal::project::{discoverable_projects, new_projects, project_workdir, tasks_of_directories, validate_project};
use remote_terminal::routes::{
    check_terminal_available, extract_task_id_from_term_path, resolve_proxy_target, select_subprotocol,
    terminal_access_target, terminal_path, upstream_ws_url, websocket_port, RouteMap,
};
use remote_terminal::runtime::{
    KillStep, RuntimeError, RuntimePids, SessionWait, ShellRuntimeManager, TtydProcess,
};
use remote_terminal::text::{
    join_paths, parse_i64, parse_u16, split_lines, trim_end_matches_char, trim_start_matches_char,
    trim_str,
};

fn task(id: &str, status: TaskStatus, port: Option<i64>) -> Task {
    Task {
        id: id.to_string(),
        name: "demo".to_string(),
        project: "demo".to_string(),
        workdir: "/tmp/code/demo".to_string(),
        sock_path: format!("/tmp/remote_terminal/{id}.sock"),
        ttyd_port: port,
        dtach_pid: Some(100),
        ttyd_pid: Some(101),
        dtach_command: String::new(),
        ttyd_command: None,
        status,
        session_started_at: None,
        terminal_started_at: None,
    }
}

#[test]
fn term_path_names_task() {
    assert_eq!(extract_task_id_from_term_path("/term/abc/"), Some("abc"));
    assert_eq!(extract_task_id_from_term_path("/term/abc"), Some("abc"));
    assert_eq!(extract_task_id_from_term_path("/term/abc/ws/x"), Some("abc"));
    assert_eq!(extract_task_id_from_term_path("/term/not-exists/"), Some("not-exists"));
    assert_eq!(extract_task_id_from_term_path("/term/"), None);
    assert_eq!(extract_task_id_from_term_path("/term//x"), None);
    assert_eq!(extract_task_id_from_term_path("/api/tasks"), None);
    assert_eq!(extract_task_id_from_term_path(""), None);
    assert_eq!(extract_task_id_from_term_path("/terms/abc"), None);
}

#[test]
fn terminal_path_round_trip() {
    let p = terminal_path("abc-1");
    assert_eq!(p, "/term/abc-1/");
    assert_eq!(extract_task_id_from_term_path(&p), Some("abc-1"));
    let r = TerminalUrlResponse::for_task("http://localhost:8080///", "abc-1");
    assert_eq!(r.task_id, "abc-1");
    assert_eq!(r.path, "/term/abc-1/");
    assert_eq!(r.url, "http://localhost:8080/term/abc-1/");
}

#[test]
fn reject_invalid_project_names() {
    let e = validate_project("../bad").unwrap_err();
    assert_eq!(e.status_code(), 400);
    assert!(matches!(e, AppError::BadRequest(_)));
    assert_eq!(e.message(), "project 仅允许 1-64 位字母、数字、点、下划线、短横线");
    let e = validate_project("..").unwrap_err();
    assert_eq!(e.message(), "project 名称非法");
    assert!(validate_project(".").is_err());
    assert!(validate_project("").is_err());
    assert!(validate_project("a/b").is_err());
    assert!(validate_project(&"x".repeat(65)).is_err());
    assert!(validate_project("bad name").is_err());
}

#[test]
fn accept_project_names_trimmed() {
    assert_eq!(validate_project("  demo\n").unwrap(), "demo");
    assert_eq!(validate_project("same-project").unwrap(), "same-project");
    assert_eq!(validate_project("a.b_c-1").unwrap(), "a.b_c-1");
    assert_eq!(validate_project(&"x".repeat(64)).unwrap(), "x".repeat(64));
    assert_eq!(validate_project("...").unwrap(), "...");
    let once = validate_project(" p1 ").unwrap();
    assert_eq!(validate_project(&once).unwrap(), once);
}

#[test]
fn discovered_projects_sorted_unique() {
    let names = vec![
        "zeta".to_string(),
        "alpha".to_string(),
        " alpha ".to_string(),
        "..".to_string(),
        "bad/name".to_string(),
        "Beta".to_string(),
    ];
    let found = discoverable_projects(&names);
    assert_eq!(found, vec!["Beta".to_string(), "alpha".to_string(), "zeta".to_string()]);
    assert!(discoverable_projects(&Vec::new()).is_empty());
}

#[test]
fn workdir_and_path_join() {
    assert_eq!(project_workdir("/tmp/code", "demo"), "/tmp/code/demo");
    assert_eq!(project_workdir("/tmp/code/", "demo"), "/tmp/code/demo");
    assert_eq!(join_paths("", "demo"), "demo");
    assert_eq!(join_paths("/a", "/b"), "/b");
}

#[test]
fn text_helpers() {
    assert_eq!(trim_str(" \t x y \u{3000}"), "x y");
    assert_eq!(trim_str("   "), "");
    assert_eq!(trim_start_matches_char("//a/b", '/'), "a/b");
    assert_eq!(trim_end_matches_char("http://x//", '/'), "http://x");
    assert_eq!(parse_u16("65535"), Some(65535));
    assert_eq!(parse_u16("65536"), None);
    assert_eq!(parse_u16("+12"), Some(12));
    assert_eq!(parse_u16("-1"), None);
    assert_eq!(parse_u16(""), None);
    assert_eq!(parse_u16(" 1"), None);
    assert_eq!(parse_i64("-9223372036854775808"), Some(i64::MIN));
    assert_eq!(parse_i64("9223372036854775807"), Some(i64::MAX));
    assert_eq!(parse_i64("9223372036854775808"), None);
    assert_eq!(parse_i64("-"), None);
    assert_eq!(parse_i64("12x"), None);
    assert_eq!(split_lines("a\nb\r\n\nc\n"), vec!["a", "b", "", "c"]);
    assert!(split_lines("").is_empty());
    assert_eq!(split_lines("a\r"), vec!["a\r"]);
    assert_eq!(split_lines("a\r\nb"), vec!["a", "b"]);
}

#[test]
fn route_map_operations() {
    let mut routes = RouteMap::new();
    routes.insert("t1".to_string(), 12000);
    assert_eq!(routes.get("t1"), Some(12000));
    assert!(routes.contains("t1"));
    routes.remove("t1");
    assert_eq!(routes.get("t1"), None);
    routes.replace_with(&vec![("a".to_string(), 1), ("b".to_string(), 2), ("a".to_string(), 3)]);
    assert_eq!(routes.len(), 2);
    assert_eq!(routes.get("a"), Some(3));
    routes.replace_from_rows(&vec![("x".to_string(), 70000), ("y".to_string(), 10001), ("z".to_string(), -1)]);
    assert_eq!(routes.len(), 1);
    assert_eq!(routes.get("y"), Some(10001));
}

#[test]
fn proxy_target_for_routes() {
    let mut routes = RouteMap::new();
    routes.insert("t1".to_string(), 12000);
    let params = vec![("id".to_string(), "t1".to_string())];
    assert_eq!(resolve_proxy_target(&routes, &params, None), "http://127.0.0.1:12000/term/t1/");
    let params = vec![("id".to_string(), "t1".to_string()), ("rest".to_string(), "//js/app.js".to_string())];
    assert_eq!(
        resolve_proxy_target(&routes, &params, Some("a=1")),
        "http://127.0.0.1:12000/term/t1/js/app.js?a=1"
    );
    let params = vec![("id".to_string(), "nope".to_string())];
    assert_eq!(resolve_proxy_target(&routes, &params, None), "http://127.0.0.1:9/not-found");
    assert_eq!(resolve_proxy_target(&routes, &Vec::new(), None), "http://127.0.0.1:9/not-found");
}

#[test]
fn websocket_upstream() {
    assert_eq!(upstream_ws_url(12000, "t1", Some("x=2")), "ws://127.0.0.1:12000/term/t1/ws?x=2");
    assert_eq!(upstream_ws_url(7, "t1", None), "ws://127.0.0.1:7/term/t1/ws");
    assert_eq!(select_subprotocol(Some(" tty , other")), Some("tty".to_string()));
    assert_eq!(select_subprotocol(Some(" ,x")), None);
    assert_eq!(select_subprotocol(None), None);
    let mut routes = RouteMap::new();
    routes.insert("t1".to_string(), 5);
    assert_eq!(websocket_port(&routes, "t1").unwrap(), 5);
    let e = websocket_port(&routes, "t2").unwrap_err();
    assert_eq!(e.status_code(), 404);
    assert_eq!(e.message(), "task t2 not found");
}

#[test]
fn terminal_guard_needs_route() {
    let mut routes = RouteMap::new();
    routes.insert("t1".to_string(), 5);
    assert_eq!(terminal_access_target(&routes, "/term/t1/"), Some("t1"));
    assert_eq!(terminal_access_target(&routes, "/term/not-exists/"), None);
    assert_eq!(terminal_access_target(&routes, "/api/tasks"), None);
    let entry = LogEntry::terminal_access("t1", "GET", "/term/t1/");
    assert_eq!(entry.task_id.as_deref(), Some("t1"));
    assert_eq!(entry.action, "terminal_access");
    assert_eq!(entry.detail, "GET /term/t1/");
}

#[test]
fn terminal_url_only_while_running() {
    assert!(check_terminal_available(&task("t1", TaskStatus::Running, Some(1))).is_ok());
    let e = check_terminal_available(&task("t1", TaskStatus::Stopped, Some(1))).unwrap_err();
    assert_eq!(e.status_code(), 409);
    assert_eq!(e.message(), "task t1 is not running");
}

#[test]
fn health_classification() {
    assert_eq!(runtime_health(true, true), RuntimeHealth::Healthy);
    assert_eq!(runtime_health(true, false), RuntimeHealth::SessionOnly);
    assert_eq!(runtime_health(false, true), RuntimeHealth::TerminalOnly);
    assert_eq!(runtime_health(false, false), RuntimeHealth::Down);
    assert_eq!(runtime_health_of(None, Some(true)), RuntimeHealth::TerminalOnly);
    assert_eq!(runtime_health_of(Some(true), None), RuntimeHealth::SessionOnly);
    assert_eq!(runtime_health_of(None, None), RuntimeHealth::Down);
}

#[test]
fn session_survives_terminal_restart() {
    let t = task("t1", TaskStatus::Running, Some(12000));
    assert_eq!(plan_refresh(&t, runtime_health(true, false)), RefreshPlan::RestartTtyd);
    assert_eq!(ttyd_restart_port(&t).unwrap(), 12000);
    let after = t.clone().apply_runtime(RuntimeUpdate::ttyd_restarted(&t, 555));
    assert_eq!(after.dtach_pid, Some(100));
    assert_eq!(after.ttyd_pid, Some(555));
    assert_eq!(after.status, TaskStatus::Running);
}

#[test]
fn refresh_and_ensure_plans() {
    let t = task("t1", TaskStatus::Running, Some(12000));
    assert_eq!(plan_refresh(&t, RuntimeHealth::Healthy), RefreshPlan::Keep { route: Some(12000) });
    assert_eq!(plan_refresh(&t, RuntimeHealth::Down), RefreshPlan::MarkLost { status: TaskStatus::Stopped });
    assert_eq!(plan_refresh(&t, runtime_health(false, true)), RefreshPlan::MarkLost { status: TaskStatus::Error });
    let bad = task("t2", TaskStatus::Running, Some(70000));
    assert_eq!(plan_refresh(&bad, RuntimeHealth::Healthy), RefreshPlan::Keep { route: None });
    let e = ttyd_restart_port(&bad).unwrap_err();
    assert_eq!(e.status_code(), 500);
    assert_eq!(e.message(), "invalid ttyd port in database");
    assert_eq!(plan_ensure_running(&t).unwrap(), EnsurePlan::Refresh);
    let stopped = task("t3", TaskStatus::Stopped, Some(12001));
    assert_eq!(plan_ensure_running(&stopped).unwrap(), EnsurePlan::Start(12001));
    assert!(plan_ensure_running(&task("t4", TaskStatus::Error, None)).is_err());
    assert!(stops_runtime_before_delete(&t));
    assert!(!stops_runtime_before_delete(&stopped));
    assert_eq!(port_number(65535), Some(65535));
    assert_eq!(port_number(-1), None);
    assert_eq!(task_port(&task("t5", TaskStatus::Stopped, None)), None);
}

#[test]
fn runtime_updates() {
    let t = task("t1", TaskStatus::Running, Some(1));
    let stopped = t.clone().apply_runtime(RuntimeUpdate::stopped());
    assert_eq!(stopped.status, TaskStatus::Stopped);
    assert_eq!(stopped.dtach_pid, None);
    let lost = t.clone().apply_runtime(RuntimeUpdate::lost(TaskStatus::Stopped));
    assert_eq!((lost.status, lost.dtach_pid, lost.ttyd_pid), (TaskStatus::Stopped, None, None));
    let failed = t.clone().apply_runtime(RuntimeUpdate::failed());
    assert_eq!(failed.status, TaskStatus::Error);
    assert_eq!(failed.ttyd_pid, None);
    let started = t.apply_runtime(RuntimeUpdate::started(RuntimePids { dtach_pid: 7, ttyd_pid: 8 }));
    assert_eq!((started.dtach_pid, started.ttyd_pid), (Some(7), Some(8)));
}

#[test]
fn port_allocation() {
    assert_eq!(first_free_port(&vec![12000, 12001, 12003], 12000, 12010), Some(12002));
    assert_eq!(first_free_port(&vec![], 12000, 12010), Some(12000));
    assert_eq!(first_free_port(&vec![1, 2], 1, 2), None);
    assert_eq!(first_free_port(&vec![], 5, 4), None);
    assert_eq!(first_free_port(&vec![], 65535, 65535), Some(65535));
    let e = allocate_port_from(&vec![1, 2], 1, 2).unwrap_err();
    assert_eq!(e.status_code(), 409);
    assert_eq!(e.message(), "没有可用 ttyd 端口");
}

#[test]
fn reconciliation_keeps_healthy() {
    let mut rec = Reconciliation::new();
    let healthy = task("a", TaskStatus::Running, Some(12000));
    let stopped = task("b", TaskStatus::Stopped, Some(12001));
    let bad_port = task("c", TaskStatus::Running, Some(-5));
    let lost = task("d", TaskStatus::Running, Some(12002));
    assert!(recorded_running(&healthy));
    assert!(!recorded_running(&stopped));
    assert_eq!(rec.observe(&healthy, RuntimeHealth::Healthy), ReconcileStep::KeepHealthy);
    assert_eq!(rec.observe(&stopped, RuntimeHealth::Healthy), ReconcileStep::Skip);
    assert_eq!(rec.observe(&bad_port, RuntimeHealth::Healthy), ReconcileStep::MarkInvalidPort);
    assert_eq!(rec.observe(&lost, RuntimeHealth::Down), ReconcileStep::MarkLost { status: TaskStatus::Stopped });
    assert_eq!(rec.observe(&lost, RuntimeHealth::TerminalOnly), ReconcileStep::MarkLost { status: TaskStatus::Error });
    assert_eq!(rec.observe(&lost, RuntimeHealth::SessionOnly), ReconcileStep::RestartTtyd);
    rec.record_restarted(&task("e", TaskStatus::Running, Some(12004)));
    assert_eq!(rec.routes(), vec![("a".to_string(), 12000), ("e".to_string(), 12004)]);
    assert_eq!(rec.kept_ids(), vec!["a".to_string(), "e".to_string()]);
    assert_eq!(rec.kept_socks(), vec!["/tmp/remote_terminal/a.sock".to_string(), "/tmp/remote_terminal/e.sock".to_string()]);
    let mut routes = RouteMap::new();
    routes.insert("old".to_string(), 1);
    routes.replace_with(&rec.routes());
    assert_eq!(routes.get("old"), None);
    assert_eq!(routes.get("e"), Some(12004));
}

#[test]
fn orphan_cleanup_plan() {
    let dtach = vec![
        "200 dtach -n /tmp/remote_terminal/keep.sock bash -lc x".to_string(),
        "300 dtach -n /tmp/remote_terminal/keep.sock bash -lc x".to_string(),
        "400 dtach -n /tmp/remote_terminal/gone.sock bash -lc x".to_string(),
        "1 dtach -n /tmp/remote_terminal/init.sock".to_string(),
        "garbage".to_string(),
    ];
    let ttyd = vec![
        "500 ttyd -i 127.0.0.1 -T xterm-256color -W -b /term/demo -p 12000 dtach -a s".to_string(),
        "600 ttyd -i 127.0.0.1 -T xterm-256color -W -b /term/demo -p 12001 dtach -a s".to_string(),
        "700 ttyd -i 127.0.0.1 -b /term/other.x -p 1".to_string(),
        "800 ttyd -i 127.0.0.1 -b /term/ -p 1".to_string(),
    ];
    let plan = plan_orphan_cleanup(&dtach, &ttyd, &vec!["demo".to_string()], &vec!["/tmp/remote_terminal/keep.sock".to_string()]);
    assert_eq!(plan.session_kills, vec![200, 400]);
    assert_eq!(plan.socket_removals, vec!["/tmp/remote_terminal/gone.sock".to_string()]);
    assert_eq!(plan.terminal_kills, vec![500, 700]);
    let none_kept = plan_orphan_cleanup(&dtach, &ttyd, &Vec::new(), &Vec::new());
    assert_eq!(none_kept.session_kills, vec![200, 300, 400]);
    assert_eq!(none_kept.terminal_kills, vec![500, 600, 700]);
    assert_eq!(orphan_kill_probe_limit(), 10);
}

#[test]
fn task_drafts() {
    let d = draft_task("/tmp/code", "demo".to_string(), None, 12000);
    assert_eq!(d.id, "demo");
    assert_eq!(d.project, "demo");
    assert_eq!(d.name, "demo");
    assert_eq!(d.workdir, "/tmp/code/demo");
    assert_eq!(d.sock_path, "/tmp/remote_terminal/demo.sock");
    assert_eq!(extract_task_id_from_term_path(&terminal_path(&d.id)), Some("demo"));
    let other = draft_task("/tmp/code", "npu_test".to_string(), Some("Demo".to_string()), 12001);
    assert_eq!(other.id, "npu_test");
    assert_eq!(other.name, "Demo");
    let new_task = d.with_runtime(RuntimePids { dtach_pid: 1, ttyd_pid: 2 });
    assert_eq!((new_task.id.as_str(), new_task.ttyd_port, new_task.dtach_pid, new_task.ttyd_pid), ("demo", 12000, 1, 2));
    assert_eq!(new_task.status, TaskStatus::Running);
    let found = other.discovered();
    assert_eq!(found.ttyd_port, 12001);
    assert_eq!(found.sock_path, "/tmp/remote_terminal/npu_test.sock");
    assert_eq!(found.status, TaskStatus::Stopped);
    assert_eq!(sock_path_for("x"), "/tmp/remote_terminal/x.sock");
}

#[test]
fn stored_task_is_reused() {
    let t = task("same-project", TaskStatus::Running, Some(12000));
    match plan_for_project(Some(t)) {
        ProjectPlan::Reuse(u) => assert_eq!(u.id, "same-project"),
        ProjectPlan::New => panic!("expected reuse"),
    }
    assert!(matches!(plan_for_project(None), ProjectPlan::New));
}

#[test]
fn listing_follows_directories() {
    let tasks = vec![
        task("a", TaskStatus::Running, Some(1)),
        Task { project: "gone".to_string(), ..task("b", TaskStatus::Stopped, Some(2)) },
        task("c", TaskStatus::Error, Some(3)),
        Task { project: "other".to_string(), ..task("d", TaskStatus::Stopped, Some(4)) },
    ];
    let listed = tasks_of_directories(tasks, &vec!["demo".to_string(), "other".to_string()]);
    let ids: Vec<&str> = listed.iter().map(|t| t.id.as_str()).collect();
    assert_eq!(ids, vec!["a", "d"]);
    assert!(tasks_of_directories(vec![task("a", TaskStatus::Running, None)], &Vec::new()).is_empty());
}

#[test]
fn second_discovery_adds_nothing() {
    let found = vec!["alpha".to_string(), "beta".to_string(), "gamma".to_string()];
    let stored = vec!["beta".to_string()];
    let added = new_projects(&found, &stored);
    assert_eq!(added, vec!["alpha".to_string(), "gamma".to_string()]);
    let mut all = stored.clone();
    all.extend(added);
    assert!(new_projects(&found, &all).is_empty());
}

#[test]
fn log_retention_keeps_newest_hundred() {
    let ids: Vec<i64> = (1..=150).collect();
    let plan = plan_log_retention(&ids);
    assert_eq!(plan.keep, (51..=150).rev().collect::<Vec<i64>>());
    let mut deleted = plan.delete.clone();
    deleted.sort();
    assert_eq!(deleted, (1..=50).collect::<Vec<i64>>());
    let few = plan_log_retention(&vec![5, 9, 7]);
    assert_eq!(few.keep, vec![9, 7, 5]);
    assert!(few.delete.is_empty());
    assert!(plan_log_retention(&Vec::new()).keep.is_empty());
}

#[test]
fn shell_runtime_commands() {
    let m = ShellRuntimeManager::default();
    assert_eq!(
        m.session_command("/tmp/it's"),
        "export TERM=xterm-256color COLORTERM=truecolor; cd '/tmp/it'\"'\"'s' && codex; exec bash -i"
    );
    assert_eq!(
        m.session_args("/tmp/s.sock", "/w"),
        vec!["-n", "/tmp/s.sock", "bash", "-lc", "export TERM=xterm-256color COLORTERM=truecolor; cd '/w' && codex; exec bash -i"]
    );
    assert_eq!(m.session_pattern("/tmp/s.sock"), "dtach -n /tmp/s.sock");
    assert_eq!(
        m.ttyd_args("t1", "/tmp/s.sock", 12000),
        vec!["-i", "127.0.0.1", "-T", "xterm-256color", "-W", "-b", "/term/t1", "-p", "12000", "dtach", "-a", "/tmp/s.sock"]
    );
    assert_eq!(m.stop_probe_limit(), 20);
    assert_eq!(m.session_wait_limit(), 40);
}

#[test]
fn shell_runtime_parsing() {
    let m = ShellRuntimeManager;
    assert_eq!(m.newest_pid_in_output(" 12\n7\nx\n 40 \n"), Some(40));
    assert_eq!(m.newest_pid_in_output(""), None);
    let lines = vec![
        "500 ttyd -i 127.0.0.1 -T xterm-256color -W -b /term/demo -p 12000 dtach -a /tmp/remote_terminal/demo.sock".to_string(),
        "bogus".to_string(),
        "501 ttyd -i 127.0.0.1 -b /term/other -p 99999".to_string(),
    ];
    let list = m.ttyd_processes_in(&lines);
    assert_eq!(list.len(), 1);
    assert_eq!(list[0].0, "demo");
    assert_eq!((list[0].1.pid, list[0].1.port), (500, 12000));
    let found = m.find_ttyd_process_in(&list, "demo").unwrap();
    assert_eq!(found.port, 12000);
    assert!(m.find_ttyd_process_in(&list, "none").is_none());
    assert_eq!(m.process_text("  ttyd -p 1 \n"), Some("ttyd -p 1".to_string()));
    assert_eq!(m.process_text("  \n"), None);
    assert_eq!(m.process_start_time("Thu Jan  1 00:01:00 1970\n"), Some(60));
    assert_eq!(m.process_start_time("Mon Jan  1 10:00:00 2024"), Some(1704103200));
    assert_eq!(m.process_start_time("yesterday"), None);
    assert!(!m.may_probe_pid(1));
    assert!(m.may_probe_pid(2));
    assert_eq!(m.child_pid(Some(42)).unwrap(), 42);
    assert_eq!(m.child_pid(None).unwrap_err().message(), "runtime command failed: failed to capture child pid");
    assert_eq!(TtydProcess::default(), TtydProcess { pid: 0, port: 0 });
}

#[test]
fn kill_and_wait_steps() {
    let m = ShellRuntimeManager;
    assert_eq!(m.kill_step(0, 20, false), KillStep::Exited);
    assert_eq!(m.kill_step(0, 20, true), KillStep::WaitThenProbe);
    assert_eq!(m.kill_step(19, 20, true), KillStep::WaitThenForceKill);
    assert_eq!(m.session_wait_step(0, 40, Some(9)), SessionWait::Found(9));
    assert_eq!(m.session_wait_step(3, 40, None), SessionWait::WaitThenRetry);
    assert_eq!(m.session_wait_step(39, 40, None), SessionWait::GiveUp);
    let ok = m.finish_start(10, Ok(11));
    assert_eq!((ok.result.unwrap().ttyd_pid, ok.stop_session), (11, None));
    let failed = m.finish_start(10, Err(m.ttyd_lost_error()));
    assert_eq!(failed.stop_session, Some(10));
    assert_eq!(failed.result.unwrap_err().message(), "runtime command failed: ttyd process did not stay alive");
    assert_eq!(m.session_lost_error().message(), "runtime command failed: dtach process did not stay alive");
    let io = RuntimeError::Io("boom".to_string());
    assert_eq!(io.message(), "io error: boom");
    assert_eq!(io.to_app_error().status_code(), 500);
}

#[test]
fn config_from_environment() {
    let env = EnvSnapshot {
        bind_addr: None,
        data_dir: None,
        allowed_root: None,
        home: Some("/home/u".to_string()),
        public_base_url: None,
        frontend_dist: None,
        ttyd_port_min: Some("12000".to_string()),
        ttyd_port_max: Some("bogus".to_string()),
    };
    let cfg = AppConfig::from_env_snapshot(&env, "/srv/app");
    assert_eq!(cfg.bind_addr, "0.0.0.0:8080");
    assert_eq!(cfg.db_url, "sqlite:///srv/app/./data/tasks.db");
    assert_eq!(cfg.allowed_root, "/home/u/code");
    assert_eq!(cfg.public_base_url, "http://localhost:8080");
    assert_eq!(cfg.frontend_dist, "../frontend/dist");
    assert_eq!((cfg.min_port, cfg.max_port), (12000, 10999));
    let abs = EnvSnapshot {
        bind_addr: Some("127.0.0.1:1".to_string()),
        data_dir: Some("/var/data/".to_string()),
        allowed_root: Some("/code".to_string()),
        home: None,
        public_base_url: Some("https://x".to_string()),
        frontend_dist: Some("/dist".to_string()),
        ttyd_port_min: None,
        ttyd_port_max: None,
    };
    let cfg = AppConfig::from_env_snapshot(&abs, "/ignored");
    assert_eq!(cfg.db_url, "sqlite:///var/data/tasks.db");
    assert_eq!(cfg.allowed_root, "/code");
    assert_eq!((cfg.min_port, cfg.max_port), (10000, 10999));
    assert_eq!(abs.data_dir(), "/var/data/");
    let bare = EnvSnapshot { home: None, ..env };
    assert_eq!(AppConfig::from_env_snapshot(&bare, "/").allowed_root, "/tmp/code");
}

#[test]
fn log_rules() {
    assert_eq!(clamp_log_limit(0), 1);
    assert_eq!(clamp_log_limit(20), 20);
    assert_eq!(clamp_log_limit(10_000), 500);
    assert_eq!(normalize_log_query(Some("  ".to_string()), None), (None, 100));
    assert_eq!(normalize_log_query(Some(" t1".to_string()), Some(20)), (Some(" t1".to_string()), 20));
    let e = LogEntry::created("t1", "demo");
    assert_eq!((e.action.as_str(), e.detail.as_str()), ("create", "created task for project=demo"));
    let e = LogEntry::create_reused("t1", "demo");
    assert_eq!(e.detail, "reuse existing task for project=demo");
    assert_eq!(LogEntry::started("t").detail, "task started");
    assert_eq!(LogEntry::stopped("t").action, "stop");
    assert_eq!(LogEntry::deleted("t").detail, "task deleted");
    assert_eq!(LogEntry::ttyd_restarted("t").action, "ttyd_restart");
    assert_eq!(LogEntry::terminal_url("t", "u").detail, "u");
    let e = LogEntry::reconcile_failed("t");
    assert_eq!((e.action.as_str(), e.detail.as_str()), ("reconcile_mark_error", "dtach session down, marked error"));
    assert_eq!(LogEntry::discovered("t", "p").detail, "discovered project directory=p");
}

#[test]
fn models_and_errors() {
    assert_eq!(TaskStatus::Running.as_str(), "running");
    assert_eq!(TaskStatus::from_name("error"), Some(TaskStatus::Error));
    assert_eq!(TaskStatus::from_name("Running"), None);
    assert_eq!(TaskStatus::from_stored("stopped"), TaskStatus::Stopped);
    assert_eq!(TaskStatus::from_stored("bogus"), TaskStatus::Error);
    assert_eq!(ActionResponse::stopped().message, "stopped");
    assert!(ActionResponse::deleted().ok);
    let log: AuditLog = AuditLogRow {
        id: 3,
        task_id: Some("t".to_string()),
        action: "a".to_string(),
        detail: None,
        created_at: 9,
    }
    .into();
    assert_eq!((log.id, log.created_at), (3, 9));
    assert_eq!(AppError::task_not_found("x").status_code(), 404);
    assert_eq!(AppError::Conflict("c".to_string()).status_code(), 409);
    assert_eq!(AppError::Internal("i".to_string()).message(), "i");
}

#[test]
fn create_finishes_or_rolls_back() {
    let pids = RuntimePids { dtach_pid: 3, ttyd_pid: 4 };
    match finish_create("t1", 12000, pids, Ok(task("t1", TaskStatus::Running, Some(12000)))) {
        CreateFinish::Created { task, route, log } => {
            assert_eq!(task.id, "t1");
            assert_eq!(route, ("t1".to_string(), 12000));
            assert_eq!(log.detail, "created task for project=demo");
        }
        CreateFinish::Failed { .. } => panic!("expected a created task"),
    }
    match finish_create("t1", 12000, pids, Err("disk full".to_string())) {
        CreateFinish::Failed { stop, error } => {
            assert_eq!(stop, pids);
            assert_eq!(error.status_code(), 500);
            assert_eq!(error.message(), "disk full");
        }
        CreateFinish::Created { .. } => panic!("expected a failure"),
    }
}
