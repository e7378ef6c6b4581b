use tc_agent::errors::CommandError;
use tc_agent::sidecar::{SidecarEvent, SidecarState, status_channel};
use tc_agent::state::{
    AppState, sidecar_status, start_sidecar_commit, start_sidecar_request, stop_sidecar_commit,
    stop_sidecar_request, store_config_commit,
};
use tc_agent::config::DesktopConfig;

#[test]
fn fresh_state_is_stopped() {
    let st = AppState::new();
    assert!(!sidecar_status(&st));
    assert_eq!(st.sidecar.child, None);
    let d = SidecarState::default();
    assert!(!d.running);
    assert_eq!(d.child, None);
}

#[test]
fn start_builds_the_exact_command_line() {
    let st = AppState::new();
    let plan = start_sidecar_request(&st, "T", "U").unwrap();
    assert_eq!(plan.program, "binaries/tc-connector");
    assert_eq!(plan.args, vec!["--token", "T", "--api-url", "U"]);
}

#[test]
fn start_twice_spawns_once() {
    let mut st = AppState::new();
    let first = start_sidecar_request(&st, "tok", "url");
    assert!(first.is_some());
    let ev = start_sidecar_commit(&mut st, Ok(41)).unwrap();
    assert!(matches!(ev, SidecarEvent::Running));
    assert!(sidecar_status(&st));
    // The second request asks for no spawn at all and changes nothing.
    assert!(start_sidecar_request(&st, "tok", "url").is_none());
    assert!(sidecar_status(&st));
    assert_eq!(st.sidecar.child, Some(41));
}

#[test]
fn failed_spawn_leaves_state_stopped() {
    let mut st = AppState::new();
    assert!(start_sidecar_request(&st, "t", "u").is_some());
    let r = start_sidecar_commit(&mut st, Err("no such binary".to_string()));
    match r {
        Err(CommandError::Spawn(d)) => assert_eq!(d, "no such binary"),
        _ => panic!("expected a spawn error"),
    }
    assert!(!sidecar_status(&st));
    assert_eq!(st.sidecar.child, None);
}

#[test]
fn stop_when_stopped_succeeds() {
    let mut st = AppState::new();
    assert_eq!(stop_sidecar_request(&st), None);
    let ev = stop_sidecar_commit(&mut st, Ok(())).unwrap();
    assert!(matches!(ev, SidecarEvent::Stopped));
    assert!(!sidecar_status(&st));
    assert_eq!(st.sidecar.child, None);
}

#[test]
fn status_reflects_last_transition() {
    let mut st = AppState::new();
    assert!(!sidecar_status(&st));
    start_sidecar_request(&st, "t", "u").unwrap();
    start_sidecar_commit(&mut st, Ok(7)).unwrap();
    assert!(sidecar_status(&st));
    assert_eq!(stop_sidecar_request(&st), Some(7));
    stop_sidecar_commit(&mut st, Ok(())).unwrap();
    assert!(!sidecar_status(&st));
}

#[test]
fn failed_kill_leaves_record_unchanged() {
    let mut st = AppState::new();
    start_sidecar_request(&st, "t", "u").unwrap();
    start_sidecar_commit(&mut st, Ok(9)).unwrap();
    assert_eq!(stop_sidecar_request(&st), Some(9));
    let r = stop_sidecar_commit(&mut st, Err("kill failed".to_string()));
    match r {
        Err(CommandError::Kill(d)) => assert_eq!(d, "kill failed"),
        _ => panic!("expected a kill error"),
    }
    assert!(sidecar_status(&st));
    assert_eq!(st.sidecar.child, Some(9));
}

#[test]
fn event_labels_and_channel() {
    assert_eq!(SidecarEvent::Running.label(), "running");
    assert_eq!(SidecarEvent::Stopped.label(), "stopped");
    assert_eq!(status_channel(), "sidecar-status");
}

#[test]
fn sidecar_commands_do_not_touch_the_config() {
    let mut st = AppState::new();
    store_config_commit(
        &mut st,
        DesktopConfig {
            api_url: Some("a".to_string()),
            mcp_token: None,
            clerk_session: None,
            auto_start: None,
        },
    );
    start_sidecar_request(&st, "t", "u").unwrap();
    start_sidecar_commit(&mut st, Ok(3)).unwrap();
    stop_sidecar_commit(&mut st, Ok(())).unwrap();
    assert_eq!(st.config.api_url.as_deref(), Some("a"));
}

#[test]
fn error_messages_are_prefixed() {
    assert_eq!(
        CommandError::Spawn("x".to_string()).message(),
        "failed to spawn sidecar: x"
    );
    assert_eq!(
        CommandError::Kill("y".to_string()).message(),
        "failed to kill sidecar: y"
    );
    assert_eq!(
        CommandError::Format("z".to_string()).message(),
        "invalid config format: z"
    );
    assert_eq!(CommandError::Lock("w".to_string()).message(), "lock failure: w");
}
