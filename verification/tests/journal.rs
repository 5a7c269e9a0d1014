use siggy::backend::native::journal::JournalEvent;
use siggy::clock::ts_utc;
use siggy::types::{ReceiptKind, SignalEvent, SignalMessage, StyleType, TextStyle};

fn sample_message() -> SignalMessage {
    SignalMessage {
        source: "+15550001111".into(),
        source_name: Some("Ada".into()),
        source_uuid: Some("aaaaaaaa-bbbb-cccc-dddd-eeeeeeeeeeee".into()),
        timestamp: ts_utc(1_700_000_000_123),
        body: Some("hello *world*".into()),
        attachments: vec![],
        group_id: Some("Z3JvdXBpZA==".into()),
        group_name: None,
        is_outgoing: false,
        destination: None,
        mentions: vec![],
        text_styles: vec![TextStyle {
            start: 6,
            length: 5,
            style: StyleType::Bold,
        }],
        quote: Some((5, "+15552223333".into(), "quoted".into())),
        expires_in_seconds: 3600,
        previews: vec![],
    }
}

fn roundtrip(event: &SignalEvent) -> SignalEvent {
    let journaled = JournalEvent::from_signal(event).expect("journalable");
    journaled.into_signal()
}

#[test]
fn message_roundtrips_with_full_fidelity() {
    let event = SignalEvent::MessageReceived(sample_message());
    match roundtrip(&event) {
        SignalEvent::MessageReceived(msg) => {
            let expected = sample_message();
            assert_eq!(msg.source, expected.source);
            assert_eq!(msg.source_name, expected.source_name);
            assert_eq!(msg.timestamp, expected.timestamp);
            assert_eq!(msg.body, expected.body);
            assert_eq!(msg.group_id, expected.group_id);
            assert_eq!(msg.quote, expected.quote);
            assert_eq!(msg.expires_in_seconds, expected.expires_in_seconds);
            assert_eq!(msg.text_styles.len(), 1);
        }
        other => panic!("wrong variant: {other:?}"),
    }
}

#[test]
fn every_persistent_variant_roundtrips() {
    let events = vec![
        SignalEvent::ReceiptReceived {
            sender: "+15550001111".into(),
            receipt_type: ReceiptKind::Read,
            timestamps: vec![1, 2],
        },
        SignalEvent::ReactionReceived {
            conv_id: "+15550001111".into(),
            emoji: "\u{1F44D}".into(),
            sender: "+15550001111".into(),
            sender_name: None,
            target_author: "+15552223333".into(),
            target_timestamp: 42,
            is_remove: false,
        },
        SignalEvent::EditReceived {
            conv_id: "+15550001111".into(),
            sender: "+15550001111".into(),
            sender_name: None,
            target_timestamp: 42,
            new_body: "edited".into(),
            new_timestamp: 43,
            is_outgoing: false,
        },
        SignalEvent::RemoteDeleteReceived {
            conv_id: "+15550001111".into(),
            sender: "+15550001111".into(),
            target_timestamp: 42,
        },
        SignalEvent::ExpirationTimerChanged {
            conv_id: "+15550001111".into(),
            seconds: 3600,
            body: "Disappearing messages set to 1 hour".into(),
            timestamp: ts_utc(9),
            timestamp_ms: 9,
        },
        SignalEvent::SystemMessage {
            conv_id: "+15550001111".into(),
            body: "sys".into(),
            timestamp: ts_utc(9),
            timestamp_ms: 9,
        },
        SignalEvent::ReadSyncReceived {
            read_messages: vec![("+15550001111".into(), 42)],
        },
    ];
    for event in &events {
        let back = roundtrip(event);
        assert_eq!(
            std::mem::discriminant(event),
            std::mem::discriminant(&back),
            "variant changed across journal roundtrip: {event:?} -> {back:?}"
        );
    }
}

#[test]
fn transient_events_are_not_journaled() {
    for event in [
        SignalEvent::SyncComplete,
        SignalEvent::Disconnected,
        SignalEvent::Error("x".into()),
        SignalEvent::TypingIndicator {
            sender: "+15550001111".into(),
            sender_name: None,
            is_typing: true,
            group_id: None,
        },
        SignalEvent::ContactList(vec![]),
        SignalEvent::GroupList(vec![]),
    ] {
        assert!(
            JournalEvent::from_signal(&event).is_none(),
            "unexpectedly journaled: {event:?}"
        );
    }
}

#[test]
fn timer_change_keeps_every_field_across_the_journal() {
    let event = SignalEvent::ExpirationTimerChanged {
        conv_id: "g1".into(),
        seconds: 60,
        body: "timer".into(),
        timestamp: ts_utc(1_000),
        timestamp_ms: 1_000,
    };
    match roundtrip(&event) {
        SignalEvent::ExpirationTimerChanged {
            conv_id,
            seconds,
            body,
            timestamp,
            timestamp_ms,
        } => {
            assert_eq!(conv_id, "g1");
            assert_eq!(seconds, 60);
            assert_eq!(body, "timer");
            assert_eq!(timestamp, 1_000);
            assert_eq!(timestamp_ms, 1_000);
        }
        other => panic!("wrong variant: {other:?}"),
    }
}

#[test]
fn utc_instants_clamp_out_of_range_millis_to_the_epoch() {
    assert_eq!(ts_utc(1_700_000_000_123), 1_700_000_000_123);
    assert_eq!(ts_utc(i64::MAX), 0);
    assert_eq!(ts_utc(-5), -5);
}

#[test]
fn journal_event_clone_carries_the_same_data() {
    let event = SignalEvent::MessageReceived(sample_message());
    let journaled = JournalEvent::from_signal(&event).expect("journalable");
    let copy = journaled.clone();
    assert_eq!(format!("{:?}", copy), format!("{:?}", journaled));
    assert_eq!(format!("{:?}", copy.into_signal()), format!("{:?}", journaled.into_signal()));
}

#[test]
fn utc_instants_keep_the_extremes_chrono_represents() {
    assert_eq!(ts_utc(-8_334_601_228_800_000), -8_334_601_228_800_000);
    assert_eq!(ts_utc(8_210_266_876_799_999), 8_210_266_876_799_999);
    assert_eq!(ts_utc(-8_334_601_228_800_001), 0);
    assert_eq!(ts_utc(8_210_266_876_800_000), 0);
}
