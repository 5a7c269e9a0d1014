use siggy::backend::demo::DemoBackend;
use siggy::backend::native::send::SendCommand;
use siggy::backend::native::supervisor::EngineStatus;
use siggy::backend::native::{
    bump_wire_ts, next_wire_ts, plan_message_send, status_effect, NativeSendPlan, StatusEffect,
};
use siggy::backend::signal_cli::{disconnect_message, link_state_from_probe};
use siggy::backend::ReconnectPolicy;
use siggy::types::LinkState;
use std::time::Duration;

/// Test double standing in for an engine under test: it only names itself.
struct MockBackend;

impl MockBackend {
    fn display_name(&self) -> &'static str {
        "mock"
    }

    fn supports_group_admin(&self) -> bool {
        true
    }
}

#[test]
fn display_names_identify_engines() {
    assert_eq!(DemoBackend.display_name(), "demo");
    assert_eq!(MockBackend.display_name(), "mock");
}

#[test]
fn group_admin_capability_defaults_to_supported() {
    assert!(DemoBackend.supports_group_admin());
    assert!(MockBackend.supports_group_admin());
}

#[test]
fn demo_backend_never_reconnects() {
    assert!(!DemoBackend.supports_reconnect());
}

#[test]
fn reconnect_policy_backoff_is_exponential_and_capped() {
    let policy = ReconnectPolicy::default();
    assert_eq!(policy.backoff(1), Duration::from_secs(2));
    assert_eq!(policy.backoff(2), Duration::from_secs(4));
    assert_eq!(policy.backoff(3), Duration::from_secs(8));
    assert_eq!(policy.backoff(4), Duration::from_secs(16));
    assert_eq!(policy.backoff(5), Duration::from_secs(30));
    assert_eq!(policy.backoff(6), Duration::from_secs(30));
    assert_eq!(policy.backoff(100), Duration::from_secs(30));
}

#[test]
fn reconnect_policy_defaults_to_signal_cli_attempt_cap() {
    assert_eq!(ReconnectPolicy::default().max_attempts, 6);
    assert_eq!(ReconnectPolicy::default(), ReconnectPolicy { max_attempts: 6 });
}

#[test]
fn reconnect_backoff_of_attempt_zero_is_one_second() {
    assert_eq!(ReconnectPolicy::default().backoff(0), Duration::from_secs(1));
    assert_eq!(
        ReconnectPolicy::default().backoff(u32::MAX),
        Duration::from_secs(30)
    );
}

#[test]
fn link_state_from_probe_maps_registration_outcomes() {
    assert_eq!(link_state_from_probe(Ok(true)), LinkState::Linked);
    assert_eq!(link_state_from_probe(Ok(false)), LinkState::Unlinked);
    assert_eq!(
        link_state_from_probe(Err(anyhow::Error::msg("spawn failed"))),
        LinkState::Unlinked
    );
}

#[test]
fn wire_timestamps_strictly_increase() {
    assert_eq!(bump_wire_ts(100, 50), 100);
    assert_eq!(bump_wire_ts(100, 100), 101);
    assert_eq!(bump_wire_ts(90, 100), 101);
    let mut last: i64 = 0;
    let a = next_wire_ts(&mut last);
    let b = next_wire_ts(&mut last);
    let c = next_wire_ts(&mut last);
    assert!(a < b && b < c);
    assert_eq!(last, c);
}

#[test]
fn disconnect_message_prefers_the_last_stderr_line() {
    assert_eq!(
        disconnect_message("starting\nERROR: account not registered\n", Some(Some(1))),
        "signal-cli: ERROR: account not registered"
    );
    assert_eq!(
        disconnect_message("first\r\nlast\r\n", None),
        "signal-cli: last"
    );
    assert_eq!(disconnect_message("only", None), "signal-cli: only");
}

#[test]
fn disconnect_message_falls_back_to_exit_status() {
    assert_eq!(
        disconnect_message("", Some(Some(2))),
        "signal-cli exited with code 2"
    );
    assert_eq!(
        disconnect_message("noise\n\n", Some(Some(-1))),
        "signal-cli exited with code -1"
    );
    assert_eq!(disconnect_message("", Some(None)), "signal-cli killed by signal");
    assert_eq!(disconnect_message("", None), "signal-cli disconnected");
}

#[test]
fn native_sends_refuse_attachments_and_missing_engine() {
    let mut last: i64 = 41;
    match plan_message_send("+1", "hi".into(), false, true, true, &mut last) {
        NativeSendPlan::Refuse { status } => {
            assert_eq!(status, "native engine: attachments not implemented yet (#642 U14)")
        }
        NativeSendPlan::Send { .. } => panic!("attachment must be refused"),
    }
    match plan_message_send("+1", "hi".into(), false, false, false, &mut last) {
        NativeSendPlan::Refuse { status } => assert_eq!(status, "native engine: not connected"),
        NativeSendPlan::Send { .. } => panic!("no engine, no send"),
    }
    assert_eq!(last, 41, "refused sends leave the wire clock alone");
}

#[test]
fn dispatch_routes_sends_with_strictly_increasing_wire_timestamps() {
    let mut last: i64 = 0;
    let mut seen: Vec<u64> = Vec::new();
    for is_group in [false, true, false] {
        match plan_message_send("dest", "body".into(), is_group, false, true, &mut last) {
            NativeSendPlan::Send { token, command } => match command {
                SendCommand::Message { token: t, recipient, body, timestamp_ms } => {
                    assert!(!is_group);
                    assert_eq!(t.0, token.0);
                    assert_eq!(recipient, "dest");
                    assert_eq!(body, "body");
                    assert_eq!(token.0, timestamp_ms.to_string());
                    seen.push(timestamp_ms);
                }
                SendCommand::GroupMessage { token: t, group_id, body, timestamp_ms } => {
                    assert!(is_group);
                    assert_eq!(t.0, token.0);
                    assert_eq!(group_id, "dest");
                    assert_eq!(body, "body");
                    assert_eq!(token.0, timestamp_ms.to_string());
                    seen.push(timestamp_ms);
                }
                SendCommand::ResolveUsername { .. } => panic!("wrong command"),
            },
            NativeSendPlan::Refuse { status } => panic!("refused: {status}"),
        }
    }
    assert!(seen[0] < seen[1] && seen[1] < seen[2]);
    assert_eq!(last as u64, seen[2]);
}

#[test]
fn engine_status_maps_to_app_effects() {
    assert!(matches!(
        status_effect(&EngineStatus::Connecting),
        StatusEffect::StartupStatus(s) if s == "Connecting to Signal..."
    ));
    assert!(matches!(status_effect(&EngineStatus::Connected), StatusEffect::Connected));
    assert!(matches!(
        status_effect(&EngineStatus::Reconnecting { attempt: 12 }),
        StatusEffect::Reconnecting(s) if s == "native engine: reconnecting (attempt 12)..."
    ));
    assert!(matches!(
        status_effect(&EngineStatus::Terminal("relink needed".into())),
        StatusEffect::Failed(s) if s == "relink needed"
    ));
}
