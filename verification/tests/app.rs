use siggy::app::{
    action_menu_items, action_outcome, classify_file_open, extract_file_uri, extract_http_url, file_uri_to_path,
    floor_char_boundary, group_menu_items, sync_should_end, ActionMenuHint, FocusedMessage,
    GroupMenuHint, InputMode, OpenFileDecision, OverlayKind, WireQuote,
};
use siggy::app::{overlay_after_autocomplete, try_open_overlay, ActionOutcome};

#[test]
fn action_menu_hint_roundtrips_through_char() {
    let all = [
        ActionMenuHint::Reply,
        ActionMenuHint::Edit,
        ActionMenuHint::React,
        ActionMenuHint::Forward,
        ActionMenuHint::Copy,
        ActionMenuHint::Delete,
        ActionMenuHint::PinToggle,
        ActionMenuHint::Vote,
        ActionMenuHint::EndPoll,
        ActionMenuHint::OpenAttachment,
        ActionMenuHint::OpenLink,
    ];
    for hint in all {
        let c = hint.key_char();
        assert_eq!(
            ActionMenuHint::from_char(c),
            Some(hint),
            "round-trip failed for {hint:?} (char {c})"
        );
    }

    let chars: Vec<char> = all.iter().map(|h| h.key_char()).collect();
    let unique: std::collections::HashSet<&char> = chars.iter().collect();
    assert_eq!(
        unique.len(),
        chars.len(),
        "ActionMenuHint variants must map to distinct keys; got {chars:?}"
    );

    assert_eq!(ActionMenuHint::from_char('z'), None);
    assert_eq!(ActionMenuHint::from_char(' '), None);
}

#[test]
fn group_menu_hint_char_roundtrip() {
    for hint in [
        GroupMenuHint::Members,
        GroupMenuHint::AddMember,
        GroupMenuHint::RemoveMember,
        GroupMenuHint::Rename,
        GroupMenuHint::Leave,
        GroupMenuHint::Create,
    ] {
        assert_eq!(GroupMenuHint::from_char(hint.key_char()), Some(hint));
    }
    assert_eq!(GroupMenuHint::from_char('z'), None);
}

#[test]
fn menu_hint_keys_are_the_documented_letters() {
    assert_eq!(ActionMenuHint::Reply.key_char(), 'q');
    assert_eq!(ActionMenuHint::OpenLink.key_char(), 'l');
    assert_eq!(GroupMenuHint::Rename.key_char(), 'n');
    assert_eq!(GroupMenuHint::from_char('c'), Some(GroupMenuHint::Create));
}

#[test]
fn extract_file_uri_from_image_body() {
    let body = "[image: photo.jpg](file:///home/user/photo.jpg)";
    assert_eq!(
        extract_file_uri(body),
        Some("file:///home/user/photo.jpg".to_string())
    );
}

#[test]
fn extract_file_uri_from_attachment_body() {
    let body = "[attachment: doc.pdf](file:///home/user/doc.pdf)";
    assert_eq!(
        extract_file_uri(body),
        Some("file:///home/user/doc.pdf".to_string())
    );
}

#[test]
fn extract_file_uri_none_for_plain_text() {
    assert_eq!(extract_file_uri("hello world"), None);
}

#[test]
fn extract_file_uri_stops_at_white_space_and_takes_the_first() {
    let body = "a file:///x/y.png b file:///z.png";
    assert_eq!(extract_file_uri(body), Some("file:///x/y.png".to_string()));
    assert_eq!(extract_file_uri("file:///"), Some("file:///".to_string()));
    assert_eq!(extract_file_uri("file://host/x"), None);
}

#[test]
fn extract_http_url_from_body() {
    let body = "check this out https://example.com/page and more text";
    assert_eq!(
        extract_http_url(body),
        Some("https://example.com/page".to_string())
    );
}

#[test]
fn extract_http_url_skips_file_uri() {
    let body = "[image: photo.jpg](file:///home/user/photo.jpg) see https://example.com";
    assert_eq!(
        extract_http_url(body),
        Some("https://example.com".to_string())
    );
}

#[test]
fn extract_http_url_none_for_plain_text() {
    assert_eq!(extract_http_url("hello world"), None);
}

#[test]
fn extract_http_url_with_trailing_paren() {
    let body = "link (https://example.com/path) here";
    assert_eq!(
        extract_http_url(body),
        Some("https://example.com/path".to_string())
    );
}

#[test]
fn extract_http_url_takes_the_earlier_scheme() {
    let body = "old http://a.example then https://b.example";
    assert_eq!(extract_http_url(body), Some("http://a.example".to_string()));
    let body = "new https://b.example then http://a.example";
    assert_eq!(extract_http_url(body), Some("https://b.example".to_string()));
    assert_eq!(
        extract_http_url("tab\thttps://c.example\tend"),
        Some("https://c.example".to_string())
    );
}

#[test]
fn file_uri_to_path_keeps_the_unix_root() {
    assert_eq!(file_uri_to_path("file:///home/u/a.png"), "/home/u/a.png");
    assert_eq!(file_uri_to_path("  file:///tmp/x  "), "/tmp/x");
    assert_eq!(file_uri_to_path("file://relative/y"), "relative/y");
    assert_eq!(file_uri_to_path("/plain/path"), "/plain/path");
    assert_eq!(file_uri_to_path("   "), "");
}

#[test]
fn classify_file_open_allows_safe_type_in_download_dir() {
    assert_eq!(
        classify_file_open(Some("/dl/photo.jpg".to_string()), Some("/dl")),
        OpenFileDecision::Allow("/dl/photo.jpg".to_string())
    );
}

#[test]
fn classify_file_open_allows_uppercase_extension() {
    assert_eq!(
        classify_file_open(Some("/dl/PHOTO.JPG".to_string()), Some("/dl")),
        OpenFileDecision::Allow("/dl/PHOTO.JPG".to_string())
    );
}

#[test]
fn classify_file_open_rejects_path_outside_download_dir() {
    assert_eq!(
        classify_file_open(Some("/elsewhere/doc.pdf".to_string()), Some("/dl")),
        OpenFileDecision::OutsideDownloadDir
    );
    // Component-wise prefix: a sibling dir sharing a name prefix is outside.
    assert_eq!(
        classify_file_open(Some("/dl2/doc.pdf".to_string()), Some("/dl")),
        OpenFileDecision::OutsideDownloadDir
    );
}

#[test]
fn classify_file_open_rejects_executable_and_unknown_types() {
    for name in [
        "evil.hta", "evil.exe", "evil.lnk", "evil.bat", "evil.ps1", "noext",
    ] {
        assert_eq!(
            classify_file_open(Some(format!("/dl/{name}")), Some("/dl")),
            OpenFileDecision::UnsafeType,
            "expected UnsafeType for {name}"
        );
    }
}

#[test]
fn classify_file_open_missing_file_is_not_found() {
    assert_eq!(
        classify_file_open(None, Some("/dl")),
        OpenFileDecision::NotFound
    );
}

#[test]
fn classify_file_open_rejects_everything_when_download_dir_unset() {
    assert_eq!(
        classify_file_open(Some("/dl/photo.jpg".to_string()), None),
        OpenFileDecision::OutsideDownloadDir
    );
}

#[test]
fn floor_char_boundary_snaps_back_inside_a_char() {
    let s = "a\u{1F600}b";
    assert_eq!(floor_char_boundary(s, 0), 0);
    assert_eq!(floor_char_boundary(s, 1), 1);
    assert_eq!(floor_char_boundary(s, 2), 1);
    assert_eq!(floor_char_boundary(s, 4), 1);
    assert_eq!(floor_char_boundary(s, 5), 5);
    assert_eq!(floor_char_boundary(s, 6), 6);
    assert_eq!(floor_char_boundary(s, 100), 6);
    assert_eq!(floor_char_boundary("", 3), 0);
}

#[test]
fn sync_ends_after_ten_seconds_and_a_quiet_spell() {
    assert!(!sync_should_end(9, None));
    assert!(sync_should_end(10, None));
    assert!(!sync_should_end(12, Some(2)));
    assert!(sync_should_end(12, Some(3)));
    assert!(!sync_should_end(0, Some(100)));
}

#[test]
fn overlay_and_input_modes_compare_by_variant() {
    assert_eq!(OverlayKind::Settings, OverlayKind::Settings);
    assert_ne!(OverlayKind::Help, OverlayKind::About);
    assert_ne!(InputMode::Normal, InputMode::Insert);
    let q = WireQuote::default();
    assert!(q.author.is_none() && q.body.is_none() && q.timestamp.is_none());
}

#[test]
fn group_menu_items_in_group() {
    let items = group_menu_items(true);
    assert_eq!(items.len(), 5);
    assert_eq!(items[0].label, "Members");
    assert_eq!(items[items.len() - 1].label, "Leave");
}

#[test]
fn group_menu_items_not_in_group() {
    let items = group_menu_items(false);
    assert_eq!(items.len(), 1);
    assert_eq!(items[0].label, "Create group");
    assert_eq!(items[0].key_hint, GroupMenuHint::Create);
}

fn message(body: &str) -> FocusedMessage {
    FocusedMessage {
        is_system: false,
        is_deleted: false,
        is_outgoing: false,
        is_pinned: false,
        poll_closed: None,
        body: body.to_string(),
    }
}

fn labels(focused: Option<&FocusedMessage>) -> Vec<&'static str> {
    action_menu_items(focused).iter().map(|a| a.label).collect()
}

#[test]
fn action_menu_shows_open_attachment() {
    let m = message("[attachment: doc.pdf](file:///tmp/doc.pdf)");
    assert!(labels(Some(&m)).contains(&"Open attachment"));
}

#[test]
fn action_menu_shows_open_link() {
    let m = message("check https://example.com");
    assert!(labels(Some(&m)).contains(&"Open link"));
}

#[test]
fn action_menu_shows_both_open_items() {
    let m = message("see https://example.com [image: photo.png](file:///tmp/photo.png)");
    let items = labels(Some(&m));
    assert!(items.contains(&"Open link"));
    assert!(items.contains(&"Open attachment"));
}

#[test]
fn action_menu_no_open_for_plain_text() {
    let m = message("just a regular message");
    let items = labels(Some(&m));
    assert!(!items.contains(&"Open attachment"));
    assert!(!items.contains(&"Open link"));
}

#[test]
fn action_menu_full_order_for_own_open_poll() {
    let mut m = message("poll");
    m.is_outgoing = true;
    m.is_pinned = true;
    m.poll_closed = Some(false);
    assert_eq!(
        labels(Some(&m)),
        vec!["Reply", "Edit", "React", "Forward", "Copy", "Delete", "Unpin", "Vote", "End Poll"]
    );
}

#[test]
fn action_menu_for_system_deleted_and_absent_messages() {
    let mut m = message("https://example.com");
    m.is_system = true;
    assert_eq!(labels(Some(&m)), vec!["Copy", "Open link"]);
    let mut d = message("https://example.com");
    d.is_deleted = true;
    assert_eq!(labels(Some(&d)), vec!["React", "Copy"]);
    assert!(labels(None).is_empty());
    let mut closed = message("x");
    closed.poll_closed = Some(true);
    assert_eq!(labels(Some(&closed)), vec!["Reply", "React", "Forward", "Copy", "Delete", "Pin"]);
}

#[test]
fn action_menu_keys_match_their_hints() {
    let m = message("hi");
    for item in action_menu_items(Some(&m)) {
        assert_eq!(ActionMenuHint::from_char(item.key_hint.key_char()), Some(item.key_hint));
    }
}

#[test]
fn action_outcomes_follow_the_focused_message() {
    let mut m = message("see https://example.com and [f](file:///tmp/a.pdf)");
    assert!(matches!(
        action_outcome(ActionMenuHint::OpenLink, Some(&m), true),
        ActionOutcome::OpenUrl(u) if u == "https://example.com"
    ));
    assert!(matches!(
        action_outcome(ActionMenuHint::OpenAttachment, Some(&m), true),
        ActionOutcome::OpenFile(u) if u == "file:///tmp/a.pdf"
    ));
    assert!(matches!(
        action_outcome(ActionMenuHint::Reply, Some(&m), true),
        ActionOutcome::KeyAction(ActionMenuHint::Reply)
    ));
    assert!(matches!(action_outcome(ActionMenuHint::Copy, None, false), ActionOutcome::CopyMessage));
    assert!(matches!(action_outcome(ActionMenuHint::Vote, Some(&m), true), ActionOutcome::Nothing));
    m.poll_closed = Some(false);
    assert!(matches!(action_outcome(ActionMenuHint::Vote, Some(&m), true), ActionOutcome::OpenPollVote));
    assert!(matches!(action_outcome(ActionMenuHint::EndPoll, Some(&m), true), ActionOutcome::Nothing));
    m.is_outgoing = true;
    assert!(matches!(action_outcome(ActionMenuHint::EndPoll, Some(&m), true), ActionOutcome::EndPoll));
    assert!(matches!(action_outcome(ActionMenuHint::EndPoll, Some(&m), false), ActionOutcome::Nothing));
    assert!(matches!(action_outcome(ActionMenuHint::OpenLink, None, true), ActionOutcome::Nothing));
}

#[test]
fn autocomplete_overlay_never_displaces_another() {
    assert_eq!(overlay_after_autocomplete(None, true), Some(OverlayKind::Autocomplete));
    assert_eq!(overlay_after_autocomplete(Some(OverlayKind::Help), true), Some(OverlayKind::Help));
    assert_eq!(overlay_after_autocomplete(Some(OverlayKind::Help), false), Some(OverlayKind::Help));
    assert_eq!(overlay_after_autocomplete(Some(OverlayKind::Autocomplete), false), None);
    assert_eq!(overlay_after_autocomplete(None, false), None);
    assert_eq!(try_open_overlay(Some(OverlayKind::Search), OverlayKind::Search), Some(OverlayKind::Search));
}
