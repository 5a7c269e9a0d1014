use siggy::backend::signal_cli::{cli_effects, join_names_exec, quote_for_send, CliRequest, CliStatus};

fn text(s: &CliStatus) -> Option<&str> {
    match s {
        CliStatus::Text(t) => Some(t.as_str()),
        _ => None,
    }
}

fn err(e: &str) -> Option<String> {
    Some(e.to_string())
}

#[test]
fn cli_message_success_tracks_the_send_and_keeps_the_paste() {
    let req = CliRequest::Message { attachment: Some("/tmp/siggy-paste/a.png".to_string()) };
    let fx = cli_effects(&req, "/tmp/siggy-paste", &None);
    assert!(matches!(fx.status, CliStatus::Unchanged));
    assert!(fx.track_send);
    assert!(fx.register_paste_cleanup);
    assert!(!fx.delete_paste_now);
    assert!(!fx.mark_send_failed);
}

#[test]
fn cli_message_failure_marks_failed_and_deletes_the_paste() {
    let req = CliRequest::Message { attachment: Some("/tmp/siggy-paste/a.png".to_string()) };
    let fx = cli_effects(&req, "/tmp/siggy-paste", &err("broken pipe"));
    assert_eq!(text(&fx.status), Some("send error: broken pipe"));
    assert!(fx.mark_send_failed);
    assert!(fx.delete_paste_now);
    assert!(!fx.track_send);
    assert!(!fx.register_paste_cleanup);
}

#[test]
fn cli_message_outside_the_paste_dir_is_left_alone() {
    let req = CliRequest::Message { attachment: Some("/home/me/a.png".to_string()) };
    let fx = cli_effects(&req, "/tmp/siggy-paste", &err("x"));
    assert!(!fx.delete_paste_now);
    // A sibling whose name merely starts with the directory's name is not under it.
    let sib = CliRequest::Message { attachment: Some("/tmp/siggy-paste2/a.png".to_string()) };
    assert!(!cli_effects(&sib, "/tmp/siggy-paste", &None).register_paste_cleanup);
    let none = CliRequest::Message { attachment: None };
    assert!(!cli_effects(&none, "/tmp/siggy-paste", &None).register_paste_cleanup);
}

#[test]
fn cli_error_labels_per_request() {
    let cases: Vec<(CliRequest, &str)> = vec![
        (CliRequest::Reaction, "reaction error: e"),
        (CliRequest::Edit, "edit error: e"),
        (CliRequest::RemoteDelete, "delete error: e"),
        (CliRequest::UpdateExpiration { seconds: 60 }, "expiration error: e"),
        (CliRequest::CreateGroup { name: "g".to_string() }, "create group error: e"),
        (CliRequest::AddGroupMembers { names: vec![] }, "add member error: e"),
        (CliRequest::RemoveGroupMembers { names: vec![] }, "remove member error: e"),
        (CliRequest::RenameGroup { name: "g".to_string() }, "rename group error: e"),
        (CliRequest::LeaveGroup { name: "g".to_string() }, "leave group error: e"),
        (CliRequest::Block, "block error: e"),
        (CliRequest::Unblock, "unblock error: e"),
        (CliRequest::Pin, "pin error: e"),
        (CliRequest::Unpin, "unpin error: e"),
        (CliRequest::PollCreate, "poll error: e"),
        (CliRequest::PollVote, "vote error: e"),
        (CliRequest::PollTerminate, "end poll error: e"),
        (CliRequest::MessageRequestResponse { response_type: "accept".to_string() }, "message request error: e"),
        (CliRequest::TrustIdentity { display: "Alice".to_string() }, "trust error: e"),
        (CliRequest::UpdateProfile, "profile error: e"),
        (CliRequest::ResolveUsername, "Username lookup failed: e"),
    ];
    for (req, want) in cases {
        assert_eq!(text(&cli_effects(&req, "/p", &err("e")).status), Some(want));
    }
    for quiet in [CliRequest::Typing, CliRequest::ReadReceipt, CliRequest::ListIdentities] {
        assert!(matches!(cli_effects(&quiet, "/p", &err("e")).status, CliStatus::Unchanged));
    }
}

#[test]
fn cli_poll_and_username_failures() {
    let fx = cli_effects(&CliRequest::PollCreate, "/p", &err("e"));
    assert!(fx.mark_send_failed);
    assert!(cli_effects(&CliRequest::PollCreate, "/p", &None).track_send);
    assert!(cli_effects(&CliRequest::Edit, "/p", &None).track_send);
    assert!(!cli_effects(&CliRequest::Edit, "/p", &err("e")).mark_send_failed);
    assert!(cli_effects(&CliRequest::ResolveUsername, "/p", &err("e")).clear_username_resolve);
    assert!(!cli_effects(&CliRequest::ResolveUsername, "/p", &None).clear_username_resolve);
}

#[test]
fn cli_success_copy() {
    let ok = |req: CliRequest| cli_effects(&req, "/p", &None);
    assert_eq!(text(&ok(CliRequest::UpdateExpiration { seconds: 0 }).status), Some("Disappearing messages disabled"));
    assert!(matches!(ok(CliRequest::UpdateExpiration { seconds: 3600 }).status, CliStatus::ExpirationSet(3600)));
    let created = ok(CliRequest::CreateGroup { name: "Team".to_string() });
    assert_eq!(text(&created.status), Some("Created group \"Team\""));
    assert!(created.refresh_groups);
    let added = ok(CliRequest::AddGroupMembers { names: vec!["Alice".to_string(), "+15550002222".to_string()] });
    assert_eq!(text(&added.status), Some("Added Alice, +15550002222"));
    assert!(added.refresh_groups);
    let removed = ok(CliRequest::RemoveGroupMembers { names: vec!["Bob".to_string()] });
    assert_eq!(text(&removed.status), Some("Removed Bob"));
    let renamed = ok(CliRequest::RenameGroup { name: "New".to_string() });
    assert_eq!(text(&renamed.status), Some("Renamed group to \"New\""));
    assert!(renamed.rename_locally && renamed.refresh_groups);
    let left = ok(CliRequest::LeaveGroup { name: "Old".to_string() });
    assert_eq!(text(&left.status), Some("Left group \"Old\""));
    assert!(left.forget_group && !left.refresh_groups);
    assert_eq!(text(&ok(CliRequest::MessageRequestResponse { response_type: "accept".to_string() }).status), Some("Message request accepted"));
    assert_eq!(text(&ok(CliRequest::MessageRequestResponse { response_type: "delete".to_string() }).status), Some("Message request deleted"));
    assert_eq!(text(&ok(CliRequest::MessageRequestResponse { response_type: "block".to_string() }).status), Some(""));
    let trusted = ok(CliRequest::TrustIdentity { display: "Alice".to_string() });
    assert_eq!(text(&trusted.status), Some("Verified Alice"));
    assert!(trusted.refresh_identities);
    assert_eq!(text(&ok(CliRequest::UpdateProfile).status), Some("Profile updated"));
    assert!(matches!(ok(CliRequest::Block).status, CliStatus::Unchanged));
    assert!(matches!(ok(CliRequest::Message { attachment: None }).status, CliStatus::Unchanged));
}

#[test]
fn cli_join_names_edges() {
    assert_eq!(join_names_exec(&vec![]), "");
    assert_eq!(join_names_exec(&vec!["a".to_string()]), "a");
    assert_eq!(join_names_exec(&vec!["a".to_string(), "b".to_string(), "c".to_string()]), "a, b, c");
}

#[test]
fn cli_quote_needs_author_timestamp_and_body() {
    assert_eq!(
        quote_for_send(Some("+1".to_string()), Some(5), Some("hi".to_string())),
        Some(("+1".to_string(), 5, "hi".to_string()))
    );
    assert_eq!(quote_for_send(Some("+1".to_string()), None, Some("hi".to_string())), None);
    assert_eq!(quote_for_send(None, Some(5), Some("hi".to_string())), None);
    assert_eq!(quote_for_send(Some("+1".to_string()), Some(5), None), None);
}
