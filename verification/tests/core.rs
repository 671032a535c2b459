use node_supervisor::config::ProjectConfig;
use node_supervisor::log::{format_log_line, LogSource, NodeLog, StreamError, MAX_LOGS};
use node_supervisor::project::{CommandType, ProcessRecord, Project, Status};
use node_supervisor::resolver::{
    get_node_version_command, get_npm_version_command, get_specific_version_node_path,
    resolve_invocation, ConfigurationError, EnvInfo,
};
use node_supervisor::runtime::format_memory_report;
use node_supervisor::text::{split_tokens, u64_to_dec};

fn cfg(name: &str, command: &str, mem: u32, version: Option<&str>) -> ProjectConfig {
    ProjectConfig {
        name: name.to_string(),
        path: format!("/srv/{}", name),
        start_command: command.to_string(),
        min_memory_usage: mem,
        node_version: version.map(|v| v.to_string()),
    }
}

#[test]
fn dec_rendering() {
    assert_eq!(u64_to_dec(0), "0");
    assert_eq!(u64_to_dec(7), "7");
    assert_eq!(u64_to_dec(256), "256");
    assert_eq!(u64_to_dec(18446744073709551615), "18446744073709551615");
}

#[test]
fn token_splitting() {
    let tokens = split_tokens(&"node index.js".to_string());
    assert_eq!(tokens, vec!["node".to_string(), "index.js".to_string()]);
    let tokens = split_tokens(&"  a \t bb\nc ".to_string());
    assert_eq!(tokens, vec!["a".to_string(), "bb".to_string(), "c".to_string()]);
    let tokens = split_tokens(&"".to_string());
    assert!(tokens.is_empty());
    let tokens = split_tokens(&"   ".to_string());
    assert!(tokens.is_empty());
}

#[test]
fn version_paths() {
    let home = "/home/u".to_string();
    let version = "18.17.0".to_string();
    assert_eq!(
        get_specific_version_node_path(&home, &version),
        "/home/u/.nvm/versions/node/v18.17.0/bin"
    );
    assert_eq!(
        get_node_version_command(&home, &version),
        "/home/u/.nvm/versions/node/v18.17.0/bin/npm"
    );
    match get_npm_version_command(&home, &version) {
        CommandType::Specific(p) => {
            assert_eq!(p, "/home/u/.nvm/versions/node/v18.17.0/bin");
        }
        CommandType::Default(_) => panic!("expected a version-specific command"),
    }
}

#[test]
fn resolve_without_pin_sets_heap_hint() {
    let env = EnvInfo { home: None, path_var: None };
    let plan = resolve_invocation(&None, 256, &"node index.js".to_string(), &env).unwrap();
    assert_eq!(plan.program, "node");
    assert_eq!(plan.args, vec!["index.js".to_string()]);
    assert_eq!(plan.env_overrides.len(), 1);
    assert_eq!(plan.env_overrides[0].key, "NODE_OPTIONS");
    assert_eq!(plan.env_overrides[0].value, "--max_old_space_size=256");
}

#[test]
fn resolve_zero_memory_has_no_hint() {
    let env = EnvInfo { home: None, path_var: None };
    let plan = resolve_invocation(&None, 0, &"node app.js".to_string(), &env).unwrap();
    assert!(plan.env_overrides.is_empty());
}

#[test]
fn resolve_empty_command_defaults_to_npm() {
    let env = EnvInfo { home: None, path_var: None };
    let plan = resolve_invocation(&None, 0, &"".to_string(), &env).unwrap();
    assert_eq!(plan.program, "npm");
    assert!(plan.args.is_empty());
}

#[test]
fn resolve_with_pin_prepends_search_path() {
    let env = EnvInfo {
        home: Some("/home/u".to_string()),
        path_var: Some("/usr/bin:/bin".to_string()),
    };
    let plan = resolve_invocation(
        &Some("18.17.0".to_string()),
        512,
        &"npm run dev".to_string(),
        &env,
    )
    .unwrap();
    assert_eq!(plan.program, "npm");
    assert_eq!(plan.args, vec!["run".to_string(), "dev".to_string()]);
    assert_eq!(plan.env_overrides.len(), 2);
    assert_eq!(plan.env_overrides[0].key, "PATH");
    assert_eq!(
        plan.env_overrides[0].value,
        "/home/u/.nvm/versions/node/v18.17.0/bin:/usr/bin:/bin"
    );
    assert_eq!(plan.env_overrides[1].key, "NODE_OPTIONS");
    assert_eq!(plan.env_overrides[1].value, "--max_old_space_size=512");
}

#[test]
fn resolve_with_pin_missing_home_fails() {
    let env = EnvInfo { home: None, path_var: Some("/usr/bin".to_string()) };
    let err = resolve_invocation(&Some("18.17.0".to_string()), 0, &"node a.js".to_string(), &env)
        .unwrap_err();
    assert_eq!(err, ConfigurationError::MissingHome);
}

#[test]
fn resolve_with_pin_missing_path_fails() {
    let env = EnvInfo { home: Some("/home/u".to_string()), path_var: None };
    let err = resolve_invocation(&Some("18.17.0".to_string()), 0, &"node a.js".to_string(), &env)
        .unwrap_err();
    assert_eq!(err, ConfigurationError::MissingPath);
}

#[test]
fn log_line_tagging() {
    let name = "api".to_string();
    assert_eq!(
        format_log_line(&name, LogSource::Stdout, &"listening".to_string()),
        "[api] out: listening"
    );
    assert_eq!(
        format_log_line(&name, LogSource::Stderr, &"boom".to_string()),
        "[api] err: boom"
    );
}

#[test]
fn memory_report_formatting() {
    assert_eq!(format_memory_report(1024, 8192), "free memory: 1024 MB of 8192 MB");
    assert_eq!(format_memory_report(0, 0), "free memory: 0 MB of 0 MB");
}

#[test]
fn ring_buffer_evicts_oldest_beyond_capacity() {
    let mut lg = NodeLog::new(Project::new(cfg("api", "node a.js", 0, None)));
    let total: usize = MAX_LOGS + 500;
    for i in 0..total {
        lg.append_log(format!("line{}", i));
    }
    assert_eq!(lg.log_list.len(), MAX_LOGS);
    assert_eq!(lg.log_list.front().unwrap(), "line500");
    assert_eq!(lg.log_list.back().unwrap(), &format!("line{}", total - 1));
    for (k, entry) in lg.log_list.iter().enumerate() {
        assert_eq!(entry, &format!("line{}", 500 + k));
    }
}

#[test]
fn attach_claims_pipes_exactly_once() {
    let mut p = Project::new(cfg("api", "node a.js", 0, None));
    p.process = Some(ProcessRecord { pid: 41, stdout_available: true, stderr_available: true });
    p.pid = Some(41);
    p.status = Status::Running;
    let mut lg = NodeLog::new(p);
    assert!(lg.log_start().is_ok());
    assert_eq!(lg.status, Status::Running);
    let err = lg.log_start().unwrap_err();
    assert_eq!(err, StreamError::PipeUnavailable);
    assert_eq!(lg.status, Status::Failed);
    assert_eq!(lg.project.status, Status::Failed);
    assert!(lg.project.process.is_none());
}

#[test]
fn attach_without_process_fails() {
    let mut lg = NodeLog::new(Project::new(cfg("api", "node a.js", 0, None)));
    let err = lg.log_start().unwrap_err();
    assert_eq!(err, StreamError::NoProcess);
    assert_eq!(lg.status, Status::Failed);
    assert_eq!(lg.project.status, Status::Failed);
}
