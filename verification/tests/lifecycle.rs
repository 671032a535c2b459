use node_supervisor::config::ProjectConfig;
use node_supervisor::log::StreamError;
use node_supervisor::project::{Project, SpawnOutcome, Status, StopError};
use node_supervisor::resolver::{ConfigurationError, EnvInfo};
use node_supervisor::runtime::{DispatchError, Supervisor};

fn cfg(name: &str, command: &str, mem: u32, version: Option<&str>) -> ProjectConfig {
    ProjectConfig {
        name: name.to_string(),
        path: format!("/srv/{}", name),
        start_command: command.to_string(),
        min_memory_usage: mem,
        node_version: version.map(|v| v.to_string()),
    }
}

fn no_env() -> EnvInfo {
    EnvInfo { home: None, path_var: None }
}

/// Drives one whole start attempt for `name`, reporting `pid` as the spawn
/// outcome, and attaches the streamer.
fn start_with_pid(sup: &mut Supervisor, name: &str, pid: u32, now_ms: u64) {
    let name = name.to_string();
    let prep = sup.begin_start_one(&name, &no_env()).unwrap();
    assert!(prep.plan.is_ok());
    sup.finish_start_one(&name, SpawnOutcome::Spawned { pid }, now_ms)
        .unwrap();
    sup.attach_one(&name).unwrap();
}

#[test]
fn fresh_registration_is_stopped() {
    let mut sup = Supervisor::new();
    sup.register(cfg("api", "node index.js", 256, None));
    assert_eq!(sup.entries.len(), 1);
    let p = &sup.entries[0].project;
    assert_eq!(p.status, Status::Stopped);
    assert!(p.process.is_none());
    assert!(p.pid.is_none());
    assert_eq!(sup.entries[0].status, Status::Unknown);
}

#[test]
fn duplicate_registration_last_wins() {
    let mut sup = Supervisor::new();
    sup.register(cfg("api", "node one.js", 128, None));
    sup.register(cfg("web", "node web.js", 0, None));
    sup.register(cfg("api", "node two.js", 256, None));
    assert_eq!(sup.entries.len(), 2);
    assert_eq!(sup.entries[0].project.project_info.start_command, "node two.js");
    assert_eq!(sup.entries[0].project.project_info.min_memory_usage, 256);
    assert_eq!(sup.entries[1].project.project_info.name, "web");
}

#[test]
fn scenario_api_start_and_stop() {
    // Descriptor: name "api", path "/srv/api", command "node index.js",
    // memory budget 256 MB, no version pin.
    let mut sup = Supervisor::new();
    sup.register(cfg("api", "node index.js", 256, None));
    let name = "api".to_string();

    let prep = sup.begin_start_one(&name, &no_env()).unwrap();
    assert_eq!(prep.kill_pid, None);
    let plan = prep.plan.unwrap();
    assert_eq!(plan.program, "node");
    assert_eq!(plan.args, vec!["index.js".to_string()]);
    assert_eq!(plan.env_overrides.len(), 1);
    assert_eq!(plan.env_overrides[0].key, "NODE_OPTIONS");
    assert_eq!(plan.env_overrides[0].value, "--max_old_space_size=256");
    assert_eq!(sup.entries[0].project.project_info.path, "/srv/api");

    sup.finish_start_one(&name, SpawnOutcome::Spawned { pid: 4242 }, 17)
        .unwrap();
    assert_eq!(sup.entries[0].project.status, Status::Running);
    assert_eq!(sup.entries[0].project.pid, Some(4242));
    assert_eq!(sup.entries[0].project.last_run_time, Some(17));
    sup.attach_one(&name).unwrap();
    assert_eq!(sup.entries[0].status, Status::Running);

    sup.stop_one(&name, true).unwrap();
    assert_eq!(sup.entries[0].project.status, Status::Stopped);
    assert!(sup.entries[0].project.pid.is_none());
    assert!(sup.entries[0].project.process.is_none());
}

#[test]
fn scenario_stop_one_ghost_not_found() {
    let mut sup = Supervisor::new();
    let r = sup.stop_one(&"ghost".to_string(), true);
    assert!(matches!(r, Err(DispatchError::NotFound)));
    assert!(sup.entries.is_empty());
}

#[test]
fn scenario_rapid_restarts_serialize() {
    let mut sup = Supervisor::new();
    sup.register(cfg("api", "node index.js", 0, None));
    let name = "api".to_string();
    start_with_pid(&mut sup, "api", 100, 1);
    assert_eq!(sup.entries[0].project.pid, Some(100));

    // First restart: the stop phase fully completes (the prior pid is handed
    // back for the kill and the handle passes through Stopped) before the new
    // spawn is recorded.
    let prep = sup.begin_start_one(&name, &no_env()).unwrap();
    assert_eq!(prep.kill_pid, Some(100));
    assert_eq!(sup.entries[0].project.status, Status::Stopped);
    assert!(sup.entries[0].project.pid.is_none());
    sup.finish_start_one(&name, SpawnOutcome::Spawned { pid: 101 }, 2)
        .unwrap();
    sup.attach_one(&name).unwrap();
    assert_eq!(sup.entries[0].project.pid, Some(101));

    // Second restart begins only afterwards and sees exactly the first
    // restart's pid: the pid sequence 100, 101, 102 has no gaps or overlaps.
    let prep = sup.begin_start_one(&name, &no_env()).unwrap();
    assert_eq!(prep.kill_pid, Some(101));
    assert_eq!(sup.entries[0].project.status, Status::Stopped);
    sup.finish_start_one(&name, SpawnOutcome::Spawned { pid: 102 }, 3)
        .unwrap();
    sup.attach_one(&name).unwrap();
    assert_eq!(sup.entries[0].project.pid, Some(102));
    assert_eq!(sup.entries[0].project.status, Status::Running);
}

#[test]
fn restart_running_project_replaces_pid() {
    let mut sup = Supervisor::new();
    sup.register(cfg("api", "node index.js", 0, None));
    start_with_pid(&mut sup, "api", 10, 1);
    let old_pid = sup.entries[0].project.pid;
    start_with_pid(&mut sup, "api", 11, 2);
    assert_ne!(sup.entries[0].project.pid, old_pid);
    assert_eq!(sup.entries[0].project.pid, Some(11));
}

#[test]
fn stop_is_idempotent() {
    let mut sup = Supervisor::new();
    sup.register(cfg("api", "node index.js", 0, None));
    let name = "api".to_string();
    assert!(sup.stop_one(&name, true).is_ok());
    assert_eq!(sup.entries[0].project.status, Status::Stopped);
    assert!(sup.stop_one(&name, true).is_ok());
    assert_eq!(sup.entries[0].project.status, Status::Stopped);
    assert!(sup.entries[0].project.pid.is_none());
}

#[test]
fn failed_kill_preserves_ownership() {
    let mut sup = Supervisor::new();
    sup.register(cfg("api", "node index.js", 0, None));
    start_with_pid(&mut sup, "api", 77, 1);
    let r = sup.stop_one(&"api".to_string(), false);
    assert!(matches!(r, Err(DispatchError::Stop(StopError::KillFailed))));
    assert_eq!(sup.entries[0].project.status, Status::Running);
    assert_eq!(sup.entries[0].project.pid, Some(77));
    assert!(sup.entries[0].project.process.is_some());
    // A retry with a successful kill goes through.
    assert!(sup.stop_one(&"api".to_string(), true).is_ok());
    assert_eq!(sup.entries[0].project.status, Status::Stopped);
}

#[test]
fn spawn_failure_leaves_failed_status() {
    let mut sup = Supervisor::new();
    sup.register(cfg("api", "bad command", 0, None));
    let name = "api".to_string();
    let prep = sup.begin_start_one(&name, &no_env()).unwrap();
    assert!(prep.plan.is_ok());
    let r = sup.finish_start_one(
        &name,
        SpawnOutcome::SpawnFailed { message: "no such file".to_string() },
        1,
    );
    match r {
        Err(DispatchError::Spawn(e)) => assert_eq!(e.message, "no such file"),
        _ => panic!("expected a spawn error"),
    }
    assert_eq!(sup.entries[0].project.status, Status::Failed);
    assert!(sup.entries[0].project.process.is_none());
}

#[test]
fn start_attempts_end_running_or_failed() {
    // One project spawns fine, the other fails: afterwards every status is
    // Running or Failed, never Stopped or Unknown.
    let mut sup = Supervisor::new();
    let cfgs = vec![
        cfg("good", "node a.js", 0, None),
        cfg("bad", "node b.js", 0, None),
    ];
    sup.register_all(cfgs);
    let good = "good".to_string();
    let bad = "bad".to_string();

    let prep = sup.begin_start_one(&good, &no_env()).unwrap();
    assert!(prep.plan.is_ok());
    sup.finish_start_one(&good, SpawnOutcome::Spawned { pid: 1000 }, 1)
        .unwrap();
    sup.attach_one(&good).unwrap();

    let prep = sup.begin_start_one(&bad, &no_env()).unwrap();
    assert!(prep.plan.is_ok());
    let _ = sup.finish_start_one(
        &bad,
        SpawnOutcome::SpawnFailed { message: "denied".to_string() },
        1,
    );

    for entry in &sup.entries {
        let s = entry.project.status;
        assert!(s == Status::Running || s == Status::Failed);
    }
    assert_eq!(sup.entries[0].project.status, Status::Running);
    assert_eq!(sup.entries[1].project.status, Status::Failed);
}

#[test]
fn attach_twice_reports_pipe_unavailable() {
    let mut sup = Supervisor::new();
    sup.register(cfg("api", "node index.js", 0, None));
    start_with_pid(&mut sup, "api", 8, 1);
    let r = sup.attach_one(&"api".to_string());
    assert!(matches!(
        r,
        Err(DispatchError::Stream(StreamError::PipeUnavailable))
    ));
    assert_eq!(sup.entries[0].project.status, Status::Failed);
    assert_eq!(sup.entries[0].status, Status::Failed);
}

#[test]
fn shutdown_all_collects_failures() {
    let mut sup = Supervisor::new();
    sup.register(cfg("a", "node a.js", 0, None));
    sup.register(cfg("b", "node b.js", 0, None));
    sup.register(cfg("c", "node c.js", 0, None));
    start_with_pid(&mut sup, "a", 1, 1);
    start_with_pid(&mut sup, "b", 2, 1);
    start_with_pid(&mut sup, "c", 3, 1);

    let failures = sup.shutdown_all(&vec![true, false, true]);
    assert_eq!(failures, vec![1]);
    assert_eq!(sup.entries[0].project.status, Status::Stopped);
    assert_eq!(sup.entries[1].project.status, Status::Running);
    assert_eq!(sup.entries[1].project.pid, Some(2));
    assert_eq!(sup.entries[2].project.status, Status::Stopped);
}

#[test]
fn project_direct_lifecycle() {
    let mut p = Project::new(cfg("api", "node index.js", 0, None));
    assert_eq!(p.status, Status::Stopped);
    let prep = p.start(&no_env());
    assert_eq!(prep.kill_pid, None);
    assert!(prep.plan.is_ok());
    assert!(p.finish_start(SpawnOutcome::Spawned { pid: 9 }, 5).is_ok());
    assert_eq!(p.status, Status::Running);
    assert_eq!(p.pid, Some(9));
    assert_eq!(p.last_run_time, Some(5));
    assert!(p.stop(true).is_ok());
    assert_eq!(p.status, Status::Stopped);
    assert!(p.pid.is_none());
}

#[test]
fn setters_behave_like_the_fields() {
    let mut p = Project::new(cfg("api", "node index.js", 0, None));
    p.set_pid(0);
    assert!(p.pid.is_none());
    p.set_pid(12);
    assert_eq!(p.pid, Some(12));
    p.set_last_run_time(99);
    assert_eq!(p.last_run_time, Some(99));
    p.set_process(None);
    assert!(p.process.is_none());
}

#[test]
fn begin_start_with_pin_and_no_home_fails_entry() {
    let mut sup = Supervisor::new();
    sup.register(cfg("api", "node index.js", 0, Some("18.17.0")));
    let prep = sup
        .begin_start_one(&"api".to_string(), &no_env())
        .unwrap();
    assert!(matches!(prep.plan, Err(ConfigurationError::MissingHome)));
    assert_eq!(sup.entries[0].project.status, Status::Failed);
    assert!(sup.entries[0].project.process.is_none());
}
