use nix_sandbox_mcp_daemon::backend::ExecutionResult;
use nix_sandbox_mcp_daemon::config::{BackendType, EnvironmentMeta, SessionConfigToml};
use nix_sandbox_mcp_daemon::protocol::AgentResponse;
use nix_sandbox_mcp_daemon::session::{
    env_to_interpreter, result_of_response, ExecuteStep, Session, SessionConfig, SessionError,
    SessionManager,
};

fn meta_with_interpreter_type(itype: Option<&str>) -> EnvironmentMeta {
    EnvironmentMeta {
        backend: BackendType::Jail,
        exec_path: "/bin/test".to_string(),
        session_exec: None,
        timeout_seconds: 30,
        memory_mb: 512,
        interpreter_type: itype.map(String::from),
    }
}

fn meta_with_session_exec(path: &str) -> EnvironmentMeta {
    EnvironmentMeta {
        backend: BackendType::Jail,
        exec_path: "/bin/test".to_string(),
        session_exec: Some(path.to_string()),
        timeout_seconds: 30,
        memory_mb: 512,
        interpreter_type: None,
    }
}

#[test]
fn test_env_to_interpreter() {
    let meta_none = meta_with_interpreter_type(None);
    assert_eq!(env_to_interpreter("python", &meta_none), "python");
    assert_eq!(env_to_interpreter("shell", &meta_none), "bash");
    assert_eq!(env_to_interpreter("node", &meta_none), "node");
    assert_eq!(env_to_interpreter("custom", &meta_none), "custom");
}

#[test]
fn test_env_to_interpreter_with_interpreter_type() {
    let meta_python = meta_with_interpreter_type(Some("python"));
    // An explicit interpreter tag overrides name-based matching.
    assert_eq!(env_to_interpreter("data-science", &meta_python), "python");

    let meta_bash = meta_with_interpreter_type(Some("bash"));
    assert_eq!(env_to_interpreter("rust-dev", &meta_bash), "bash");
}

#[test]
fn test_session_config_defaults() {
    let config = SessionConfig::default();
    assert_eq!(config.idle_timeout, 300);
    assert_eq!(config.max_lifetime, 3600);
    assert_eq!(config.agent_ready_timeout, 30);
    assert_eq!(config.reaper_interval, 60);
}

#[test]
fn test_session_config_from_env_defaults() {
    // With no overrides set, from_env uses the same defaults.
    let config = SessionConfig::from_env(None, None);
    assert_eq!(config.idle_timeout, 300);
    assert_eq!(config.max_lifetime, 3600);
    assert_eq!(config.agent_ready_timeout, 30);
    assert_eq!(config.reaper_interval, 60);
}

#[test]
fn test_session_config_from_env_overrides() {
    let config = SessionConfig::from_env(Some(5), Some(100));
    assert_eq!(config.idle_timeout, 5);
    assert_eq!(config.max_lifetime, 100);
}

#[test]
fn test_session_config_from_toml() {
    let toml = SessionConfigToml {
        idle_timeout_seconds: 120,
        max_lifetime_seconds: 1800,
    };
    let config = SessionConfig::from_toml(&toml);
    assert_eq!(config.idle_timeout, 120);
    assert_eq!(config.max_lifetime, 1800);
}

#[test]
fn session_expiry_predicates() {
    let mut s = Session::new("s1".to_string(), "python".to_string(), 1, 100);
    assert_eq!(s.created_at, 100);
    assert_eq!(s.last_used, 100);
    assert!(!s.is_idle_expired(300, 400));
    assert!(s.is_idle_expired(300, 401));
    assert!(!s.is_lifetime_expired(3600, 3700));
    assert!(s.is_lifetime_expired(3600, 3701));
    s.touch(250);
    assert_eq!(s.last_used, 250);
    assert_eq!(s.created_at, 100);
    // A stale clock reading never moves last_used backwards.
    s.touch(200);
    assert_eq!(s.last_used, 250);
    assert!(!s.is_idle_expired(300, 550));
    assert!(s.is_idle_expired(300, 551));
}

#[test]
fn prepare_execute_spawns_then_uses_existing() {
    let mut manager = SessionManager::new(SessionConfig::default());
    let meta = meta_with_session_exec("/bin/session-run");

    let step = manager.prepare_execute("s1", "python", &meta).unwrap();
    match step {
        ExecuteStep::SpawnNew { session_exec } => {
            assert_eq!(session_exec, "/bin/session-run")
        }
        _ => panic!("expected a spawn for an unknown session id"),
    }

    manager.insert_session("s1", "python", 7, 10);
    let step = manager.prepare_execute("s1", "python", &meta).unwrap();
    match step {
        ExecuteStep::UseExisting { transport } => assert_eq!(transport, 7),
        _ => panic!("expected the existing session to be used"),
    }
}

#[test]
fn prepare_execute_rejects_affinity_mismatch() {
    let mut manager = SessionManager::new(SessionConfig::default());
    manager.insert_session("s1", "python", 7, 10);
    // The same session id under another environment is refused, naming both.
    let err = manager
        .prepare_execute("s1", "shell", &meta_with_session_exec("/bin/session-run"))
        .unwrap_err();
    match err {
        SessionError::AffinityMismatch {
            session_id,
            bound_env,
            requested_env,
        } => {
            assert_eq!(session_id, "s1");
            assert_eq!(bound_env, "python");
            assert_eq!(requested_env, "shell");
        }
        _ => panic!("expected an affinity mismatch"),
    }
    // The session itself is untouched.
    let step = manager
        .prepare_execute("s1", "python", &meta_with_session_exec("/bin/session-run"))
        .unwrap();
    assert!(matches!(step, ExecuteStep::UseExisting { transport: 7 }));
}

#[test]
fn test_session_without_session_exec() {
    let mut manager = SessionManager::new(SessionConfig::default());
    let meta = meta_with_interpreter_type(None);
    // "x = 42" in environment "test" under session "mysession": the
    // environment declares no session wrapper, so the call errs and no
    // session is created.
    let err = manager.prepare_execute("mysession", "test", &meta).unwrap_err();
    match err {
        SessionError::NoSessionSupport { env_name } => assert_eq!(env_name, "test"),
        _ => panic!("expected the session to be refused"),
    }
    assert!(manager.cleanup_expired(u64::MAX).is_empty());
    assert!(manager.destroy_all().is_empty());
}

#[test]
fn cleanup_removes_only_expired() {
    let config = SessionConfig {
        idle_timeout: 100,
        max_lifetime: 1000,
        agent_ready_timeout: 30,
        reaper_interval: 60,
    };
    let mut manager = SessionManager::new(config);
    manager.insert_session("idle", "python", 1, 0);
    manager.insert_session("old", "python", 3, 0);
    assert!(manager.touch_session("old", 150));
    assert!(!manager.touch_session("absent", 150));

    // At 200: "idle" (last used 0) is over the idle timeout; "old" (last used
    // 150) is within both deadlines.
    let removed = manager.cleanup_expired(200);
    assert_eq!(removed.len(), 1);
    assert_eq!(removed[0].id, "idle");
    assert_eq!(removed[0].transport, 1);

    manager.insert_session("fresh", "python", 2, 500);
    assert!(manager.touch_session("old", 1050));
    assert!(manager.touch_session("fresh", 1050));

    // At 1100: "old" (created at 0) is over its lifetime though recently
    // used; "fresh" (created at 500, last used 1050) is within both.
    let removed = manager.cleanup_expired(1100);
    assert_eq!(removed.len(), 1);
    assert_eq!(removed[0].id, "old");

    let remaining = manager.destroy_all();
    assert_eq!(remaining.len(), 1);
    assert_eq!(remaining[0].id, "fresh");
    assert!(manager.destroy_all().is_empty());
}

#[test]
fn cleanup_after_removal_allows_recreation() {
    let config = SessionConfig {
        idle_timeout: 1,
        max_lifetime: 1000,
        agent_ready_timeout: 30,
        reaper_interval: 60,
    };
    let mut manager = SessionManager::new(config);
    manager.insert_session("s1", "python", 1, 0);
    let removed = manager.cleanup_expired(5);
    assert_eq!(removed.len(), 1);
    // A new call for the same id now creates a fresh session.
    let meta = meta_with_session_exec("/bin/session-run");
    let step = manager.prepare_execute("s1", "python", &meta).unwrap();
    assert!(matches!(step, ExecuteStep::SpawnNew { .. }));
    manager.insert_session("s1", "python", 2, 6);
    let step = manager.prepare_execute("s1", "python", &meta).unwrap();
    assert!(matches!(step, ExecuteStep::UseExisting { transport: 2 }));
}

#[test]
fn result_of_response_passes_results_through() {
    let resp = AgentResponse::Result {
        id: "s1".to_string(),
        stdout: "42\n".to_string(),
        stderr: String::new(),
        exit_code: 0,
    };
    let r: ExecutionResult = result_of_response(resp).unwrap();
    assert_eq!(r.exit_code, 0);
    assert_eq!(r.stdout, "42\n");
    assert_eq!(r.stderr, "");
}

#[test]
fn result_of_response_maps_agent_errors() {
    let resp = AgentResponse::Error {
        message: "boom".to_string(),
    };
    let r = result_of_response(resp).unwrap();
    assert_eq!(r.exit_code, 1);
    assert_eq!(r.stdout, "");
    assert_eq!(r.stderr, "boom");
}

#[test]
fn result_of_response_refuses_unexpected_tags() {
    let err = result_of_response(AgentResponse::Pong).unwrap_err();
    assert!(matches!(
        err,
        SessionError::UnexpectedResponse {
            response: AgentResponse::Pong
        }
    ));
    let err = result_of_response(AgentResponse::Ready).unwrap_err();
    assert!(matches!(err, SessionError::UnexpectedResponse { .. }));
}
