use siggy::conversation::{insert_message, prepend_page, sweep_expired, ConversationModel, MessageModel};

fn msg(ts: i64, expires: i64, start: i64) -> MessageModel {
    MessageModel {
        timestamp_ms: ts,
        expires_in_seconds: expires,
        expiration_start_ms: start,
        sender: "+1".to_string(),
        body: format!("m{ts}"),
        is_system: false,
    }
}

fn stamps(c: &ConversationModel) -> Vec<i64> {
    c.messages.iter().map(|m| m.timestamp_ms).collect()
}

#[test]
fn insert_ordered_lands_after_equal_timestamps_and_bumps_marker() {
    let mut c = ConversationModel { messages: vec![msg(10, 0, 0), msg(20, 0, 0), msg(30, 0, 0)], archived: true };
    let mut read = Some(1);
    let mut expiring = 0;
    let (pos, was_archived) = insert_message(&mut c, &mut read, &mut expiring, msg(20, 60, 5), true);
    assert_eq!(pos, 2);
    assert!(was_archived && !c.archived);
    assert_eq!(stamps(&c), vec![10, 20, 20, 30]);
    assert_eq!(read, Some(1));
    assert_eq!(expiring, 1);
    let (pos, _) = insert_message(&mut c, &mut read, &mut expiring, msg(5, 0, 0), true);
    assert_eq!(pos, 0);
    assert_eq!(read, Some(2));
    assert_eq!(expiring, 1);
}

#[test]
fn insert_unordered_appends_and_keeps_marker() {
    let mut c = ConversationModel { messages: vec![msg(10, 0, 0), msg(20, 0, 0)], archived: false };
    let mut read = Some(0);
    let mut expiring = 3;
    let (pos, was_archived) = insert_message(&mut c, &mut read, &mut expiring, msg(1, 0, 0), false);
    assert_eq!((pos, was_archived), (2, false));
    assert_eq!(stamps(&c), vec![10, 20, 1]);
    assert_eq!(read, Some(0));
    assert_eq!(expiring, 3);
}

#[test]
fn sweep_drops_expired_and_remaps_marker_and_focus() {
    // now = 10_000: message 2 (start 1_000 + 5 s) and message 4 expired.
    let mut c = ConversationModel {
        messages: vec![msg(1, 0, 0), msg(2, 5, 1_000), msg(3, 60, 1_000), msg(4, 1, 2_000), msg(5, 0, 0)],
        archived: false,
    };
    let mut read = Some(4);
    let mut focus = Some(2);
    let mut expiring = 3;
    let removed = sweep_expired(&mut c, 10_000, &mut read, &mut focus, &mut expiring);
    assert_eq!(removed, 2);
    assert_eq!(stamps(&c), vec![1, 3, 5]);
    assert_eq!(read, Some(2));
    assert_eq!(focus, Some(1));
    assert_eq!(c.messages[1].timestamp_ms, 3);
    assert_eq!(expiring, 1);
}

#[test]
fn sweep_drops_focus_on_removed_message_and_clamps_marker() {
    let mut c = ConversationModel { messages: vec![msg(1, 5, 1_000), msg(2, 0, 0)], archived: false };
    let mut read = Some(9);
    let mut focus = Some(0);
    let mut expiring = 0;
    assert_eq!(sweep_expired(&mut c, 10_000, &mut read, &mut focus, &mut expiring), 1);
    assert_eq!(focus, None);
    assert_eq!(read, Some(1));
    assert_eq!(expiring, 0);
}

#[test]
fn sweep_without_expired_messages_changes_nothing() {
    // Unstarted timers never expire.
    let mut c = ConversationModel { messages: vec![msg(1, 5, 0), msg(2, 0, 0)], archived: true };
    let mut read = Some(7);
    let mut focus = Some(1);
    let mut expiring = 1;
    assert_eq!(sweep_expired(&mut c, 10_000, &mut read, &mut focus, &mut expiring), 0);
    assert_eq!((read, focus), (Some(7), Some(1)));
    assert_eq!(stamps(&c), vec![1, 2]);
    assert!(c.archived);
}

#[test]
fn prepend_page_shifts_marker_and_focus() {
    let mut c = ConversationModel { messages: vec![msg(10, 0, 0), msg(20, 0, 0)], archived: false };
    let mut read = Some(1);
    let mut focus = Some(0);
    let more = prepend_page(&mut c, vec![msg(1, 0, 0), msg(2, 0, 0), msg(3, 0, 0)], &mut read, &mut focus);
    assert!(!more);
    assert_eq!(stamps(&c), vec![1, 2, 3, 10, 20]);
    assert_eq!((read, focus), (Some(4), Some(3)));
    assert_eq!(c.messages[3].timestamp_ms, 10);
    let full: Vec<MessageModel> = (0..100).map(|i| msg(-i, 0, 0)).collect();
    let mut none_read = None;
    let mut none_focus = None;
    assert!(prepend_page(&mut c, full, &mut none_read, &mut none_focus));
    assert_eq!(c.messages.len(), 105);
    assert_eq!((none_read, none_focus), (None, None));
}
