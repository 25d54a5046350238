use nix_sandbox_mcp_daemon::backend::{ExecutionResult, JailBackend};
use nix_sandbox_mcp_daemon::protocol::AgentResponse;
use nix_sandbox_mcp_daemon::transport::{StartupError, TransportState};

#[test]
fn startup_accepts_ready() {
    let t = TransportState::startup(AgentResponse::Ready).unwrap();
    assert!(t.is_alive());
    assert!(t.may_request());
}

#[test]
fn startup_rejects_any_other_first_message() {
    let err = TransportState::startup(AgentResponse::Pong).unwrap_err();
    assert!(matches!(
        err,
        StartupError::NotReady {
            response: AgentResponse::Pong
        }
    ));
    let err = TransportState::startup(AgentResponse::Error {
        message: "bad start".to_string(),
    })
    .unwrap_err();
    assert!(matches!(err, StartupError::NotReady { .. }));
}

#[test]
fn shutdown_kills_exactly_once() {
    let mut t = TransportState::startup(AgentResponse::Ready).unwrap();
    assert!(t.shutdown());
    assert!(!t.is_alive());
    assert!(!t.may_request());
    // Idempotent: every further attempt kills nothing.
    assert!(!t.shutdown());
    assert!(!t.shutdown());
    assert!(!t.is_alive());
}

#[test]
fn ready_predicate_matches_only_ready() {
    assert!(AgentResponse::Ready.is_ready());
    assert!(!AgentResponse::Pong.is_ready());
    assert!(!AgentResponse::Result {
        id: "1".to_string(),
        stdout: String::new(),
        stderr: String::new(),
        exit_code: 0,
    }
    .is_ready());
}

#[test]
fn jail_result_defaults_missing_exit_code() {
    let _backend = JailBackend::new();
    let r: ExecutionResult =
        JailBackend::result_from_wait(Some(3), "out".to_string(), "err".to_string());
    assert_eq!(r.exit_code, 3);
    assert_eq!(r.stdout, "out");
    assert_eq!(r.stderr, "err");
    // Killed by a signal: no exit code, reported as -1.
    let r = JailBackend::result_from_wait(None, String::new(), String::new());
    assert_eq!(r.exit_code, -1);
}
