use siggy::backend::native::proto::{
    AttachmentId, AttachmentPointer, BodyRange, Content, ContentBody, DataMessage, Delete,
    EditMessage, Quote, RangeStyle, RangeValue, Reaction, Read, ReceiptMessage, Received, Sent,
    SyncMessage, TypingAction, TypingMessage, EXPIRATION_TIMER_UPDATE,
};
use siggy::backend::native::receive::map_received;
use siggy::backend::native::supervisor::StoreResolver;
use siggy::types::{ReceiptKind, SignalEvent, StyleType};

const ALICE_ACI: &str = "9d0652a3-dcc3-4d11-975f-74d61598733f";
const OWN_ACI: &str = "8eb3dbda-7a9d-4344-8167-d037a7e2bbbd";
const ALICE_E164: &str = "+15550001111";
const ENVELOPE_TS: i64 = 1_700_000_000_000;

fn with_alice() -> StoreResolver {
    let mut r = StoreResolver::new();
    r.insert(
        ALICE_ACI.to_string(),
        Some(ALICE_E164.to_string()),
        Some("Alice".to_string()),
    );
    r
}

fn empty_data_message() -> DataMessage {
    DataMessage {
        body: None,
        attachments: vec![],
        group_id: None,
        flags: None,
        expire_timer: None,
        expire_timer_copy: String::new(),
        timestamp: None,
        reaction: None,
        delete: None,
        quote: None,
        preview: vec![],
        body_ranges: vec![],
    }
}

fn text_data_message(body: &str, ts: u64) -> DataMessage {
    DataMessage {
        body: Some(body.to_string()),
        timestamp: Some(ts),
        ..empty_data_message()
    }
}

fn content(aci: &str, body: ContentBody) -> Received {
    Received::Content(Content {
        sender_aci: aci.to_string(),
        timestamp_ms: ENVELOPE_TS,
        body,
    })
}

#[test]
fn queue_empty_maps_to_sync_complete() {
    let events = map_received(&Received::QueueEmpty, OWN_ACI, &StoreResolver::new());
    assert!(matches!(&events[..], [SignalEvent::SyncComplete]));
}

#[test]
fn contacts_item_emits_nothing_here() {
    assert!(map_received(&Received::Contacts, OWN_ACI, &StoreResolver::new()).is_empty());
}

#[test]
fn known_number_keys_conversation_by_e164() {
    let c = content(
        ALICE_ACI,
        ContentBody::DataMessage(text_data_message("hi", 1_700_000_000_000)),
    );
    let events = map_received(&c, OWN_ACI, &with_alice());
    let [SignalEvent::MessageReceived(m)] = &events[..] else {
        panic!("expected one MessageReceived, got {events:?}");
    };
    assert_eq!(m.source, ALICE_E164);
    assert_eq!(m.source_uuid.as_deref(), Some(ALICE_ACI));
    assert_eq!(m.source_name.as_deref(), Some("Alice"));
}

#[test]
fn unknown_number_falls_back_to_aci_uuid() {
    let c = content(
        ALICE_ACI,
        ContentBody::DataMessage(text_data_message("hi", 1_700_000_000_000)),
    );
    let events = map_received(&c, OWN_ACI, &StoreResolver::new());
    let [SignalEvent::MessageReceived(m)] = &events[..] else {
        panic!("expected one MessageReceived");
    };
    assert_eq!(m.source, ALICE_ACI, "uuid key when number unknown");
    assert!(m.source_name.is_none());
}

#[test]
fn group_message_keys_by_derived_group_id() {
    let mut dm = text_data_message("group hello", 1_700_000_000_000);
    dm.group_id = Some("R3JvdXBJZA==".to_string());
    let c = content(ALICE_ACI, ContentBody::DataMessage(dm));
    let events = map_received(&c, OWN_ACI, &with_alice());
    let [SignalEvent::MessageReceived(m)] = &events[..] else {
        panic!("expected one MessageReceived");
    };
    assert_eq!(m.group_id.as_deref(), Some("R3JvdXBJZA=="));
    assert_eq!(m.source, ALICE_E164, "sender still resolves to E164");
}

#[test]
fn body_ranges_split_into_mentions_and_styles() {
    let mut dm = text_data_message("hey \u{fffc} *bold*", 1_700_000_000_000);
    dm.body_ranges = vec![
        BodyRange {
            start: Some(4),
            length: Some(1),
            associated_value: Some(RangeValue::MentionAci(OWN_ACI.to_string())),
        },
        BodyRange {
            start: Some(6),
            length: Some(4),
            associated_value: Some(RangeValue::Style(RangeStyle::Bold)),
        },
    ];
    let c = content(ALICE_ACI, ContentBody::DataMessage(dm));
    let events = map_received(&c, OWN_ACI, &with_alice());
    let [SignalEvent::MessageReceived(m)] = &events[..] else {
        panic!("expected one MessageReceived");
    };
    assert_eq!(m.mentions.len(), 1);
    assert_eq!(m.mentions[0].uuid, OWN_ACI);
    assert_eq!(m.mentions[0].start, 4);
    assert_eq!(m.text_styles.len(), 1);
    assert_eq!(m.text_styles[0].style, StyleType::Bold);
}

#[test]
fn unknown_and_unset_range_styles_are_skipped() {
    let mut dm = text_data_message("abc", 1);
    dm.body_ranges = vec![
        BodyRange {
            start: Some(0),
            length: Some(1),
            associated_value: Some(RangeValue::Style(RangeStyle::NoStyle)),
        },
        BodyRange {
            start: Some(1),
            length: Some(1),
            associated_value: Some(RangeValue::Style(RangeStyle::Unknown)),
        },
        BodyRange {
            start: None,
            length: Some(2),
            associated_value: Some(RangeValue::Style(RangeStyle::Monospace)),
        },
        BodyRange {
            start: Some(2),
            length: Some(1),
            associated_value: Some(RangeValue::Other),
        },
        BodyRange {
            start: Some(2),
            length: Some(1),
            associated_value: None,
        },
    ];
    let c = content(ALICE_ACI, ContentBody::DataMessage(dm));
    let events = map_received(&c, OWN_ACI, &with_alice());
    let [SignalEvent::MessageReceived(m)] = &events[..] else {
        panic!("expected one MessageReceived");
    };
    assert!(m.mentions.is_empty());
    assert_eq!(m.text_styles.len(), 1);
    assert_eq!(m.text_styles[0].start, 0);
    assert_eq!(m.text_styles[0].length, 2);
    assert_eq!(m.text_styles[0].style, StyleType::Monospace);
}

#[test]
fn quote_resolves_author_to_peer_key() {
    let mut dm = text_data_message("replying", 1_700_000_000_000);
    dm.quote = Some(Quote {
        id: Some(1_699_999_999_000),
        author_aci: Some(ALICE_ACI.to_string()),
        text: Some("original".to_string()),
    });
    let c = content(ALICE_ACI, ContentBody::DataMessage(dm));
    let events = map_received(&c, OWN_ACI, &with_alice());
    let [SignalEvent::MessageReceived(m)] = &events[..] else {
        panic!("expected one MessageReceived");
    };
    assert_eq!(
        m.quote,
        Some((
            1_699_999_999_000,
            ALICE_E164.to_string(),
            "original".to_string()
        ))
    );
}

#[test]
fn attachment_pointer_maps_without_local_path() {
    let mut dm = DataMessage {
        timestamp: Some(1_700_000_000_000),
        ..empty_data_message()
    };
    dm.attachments = vec![AttachmentPointer {
        content_type: Some("image/png".to_string()),
        file_name: Some("cat.png".to_string()),
        attachment_identifier: Some(AttachmentId::CdnKey("abc123".to_string())),
    }];
    let c = content(ALICE_ACI, ContentBody::DataMessage(dm));
    let events = map_received(&c, OWN_ACI, &with_alice());
    let [SignalEvent::MessageReceived(m)] = &events[..] else {
        panic!("attachment-only message must still emit");
    };
    assert_eq!(m.attachments.len(), 1);
    assert_eq!(m.attachments[0].id, "abc123");
    assert_eq!(m.attachments[0].content_type, "image/png");
    assert_eq!(m.attachments[0].filename.as_deref(), Some("cat.png"));
    assert!(m.attachments[0].local_path.is_none());
}

#[test]
fn attachment_defaults_for_numeric_id_and_missing_fields() {
    let mut dm = empty_data_message();
    dm.attachments = vec![
        AttachmentPointer {
            content_type: None,
            file_name: Some(String::new()),
            attachment_identifier: Some(AttachmentId::CdnId(1234567)),
        },
        AttachmentPointer {
            content_type: None,
            file_name: None,
            attachment_identifier: None,
        },
    ];
    let c = content(ALICE_ACI, ContentBody::DataMessage(dm));
    let events = map_received(&c, OWN_ACI, &with_alice());
    let [SignalEvent::MessageReceived(m)] = &events[..] else {
        panic!("expected one MessageReceived");
    };
    assert_eq!(m.attachments[0].id, "1234567");
    assert_eq!(m.attachments[0].content_type, "application/octet-stream");
    assert!(m.attachments[0].filename.is_none());
    assert_eq!(m.attachments[1].id, "");
    assert_eq!(m.timestamp, ENVELOPE_TS, "envelope time stands in");
}

#[test]
fn previews_drop_empty_titles() {
    let mut dm = text_data_message("see link", 5);
    dm.preview = vec![siggy::backend::native::proto::Preview {
        url: Some("https://example.com".to_string()),
        title: Some(String::new()),
        description: Some("desc".to_string()),
    }];
    dm.expire_timer = Some(60);
    let c = content(ALICE_ACI, ContentBody::DataMessage(dm));
    let events = map_received(&c, OWN_ACI, &with_alice());
    let [SignalEvent::MessageReceived(m)] = &events[..] else {
        panic!("expected one MessageReceived");
    };
    assert_eq!(m.previews.len(), 1);
    assert_eq!(m.previews[0].url, "https://example.com");
    assert!(m.previews[0].title.is_none());
    assert_eq!(m.previews[0].description.as_deref(), Some("desc"));
    assert!(m.previews[0].image_path.is_none());
    assert_eq!(m.expires_in_seconds, 60);
    assert_eq!(m.timestamp, 5);
}

#[test]
fn empty_data_message_emits_nothing() {
    let dm = DataMessage {
        timestamp: Some(1_700_000_000_000),
        ..empty_data_message()
    };
    let c = content(ALICE_ACI, ContentBody::DataMessage(dm));
    assert!(
        map_received(&c, OWN_ACI, &with_alice()).is_empty(),
        "profile-key-only protos are chrome, not messages"
    );
    let blank = text_data_message("", 1);
    let c = content(ALICE_ACI, ContentBody::DataMessage(blank));
    assert!(map_received(&c, OWN_ACI, &with_alice()).is_empty());
}

#[test]
fn reaction_maps_with_resolved_target_author() {
    let mut dm = DataMessage {
        timestamp: Some(1_700_000_001_000),
        ..empty_data_message()
    };
    dm.reaction = Some(Reaction {
        emoji: Some("\u{1F44D}".to_string()),
        remove: Some(false),
        target_author_aci: Some(OWN_ACI.to_string()),
        target_sent_timestamp: Some(1_700_000_000_000),
    });
    let c = content(ALICE_ACI, ContentBody::DataMessage(dm));
    let events = map_received(&c, OWN_ACI, &with_alice());
    let [SignalEvent::ReactionReceived {
        conv_id,
        emoji,
        sender,
        target_author,
        target_timestamp,
        is_remove,
        ..
    }] = &events[..]
    else {
        panic!("expected ReactionReceived, got {events:?}");
    };
    assert_eq!(conv_id, ALICE_E164);
    assert_eq!(emoji, "\u{1F44D}");
    assert_eq!(sender, ALICE_E164);
    assert_eq!(target_author, OWN_ACI, "own aci has no number mapping");
    assert_eq!(*target_timestamp, 1_700_000_000_000);
    assert!(!is_remove);
}

#[test]
fn remote_delete_maps_to_conv_and_target() {
    let mut dm = DataMessage {
        timestamp: Some(1_700_000_002_000),
        ..empty_data_message()
    };
    dm.delete = Some(Delete {
        target_sent_timestamp: Some(1_700_000_000_000),
    });
    let c = content(ALICE_ACI, ContentBody::DataMessage(dm));
    let events = map_received(&c, OWN_ACI, &with_alice());
    assert!(matches!(
        &events[..],
        [SignalEvent::RemoteDeleteReceived { conv_id, target_timestamp: 1_700_000_000_000, .. }]
            if conv_id == ALICE_E164
    ));
}

#[test]
fn edit_maps_target_and_new_body() {
    let em = EditMessage {
        target_sent_timestamp: Some(1_700_000_000_000),
        data_message: Some(text_data_message("fixed typo", 1_700_000_003_000)),
    };
    let c = content(ALICE_ACI, ContentBody::EditMessage(em));
    let events = map_received(&c, OWN_ACI, &with_alice());
    let [SignalEvent::EditReceived {
        conv_id,
        target_timestamp,
        new_body,
        new_timestamp,
        is_outgoing,
        ..
    }] = &events[..]
    else {
        panic!("expected EditReceived");
    };
    assert_eq!(conv_id, ALICE_E164);
    assert_eq!(*target_timestamp, 1_700_000_000_000);
    assert_eq!(new_body, "fixed typo");
    assert_eq!(*new_timestamp, 1_700_000_003_000);
    assert!(!is_outgoing);
}

#[test]
fn edit_without_message_emits_nothing() {
    let em = EditMessage {
        target_sent_timestamp: Some(1),
        data_message: None,
    };
    let c = content(ALICE_ACI, ContentBody::EditMessage(em));
    assert!(map_received(&c, OWN_ACI, &with_alice()).is_empty());
}

#[test]
fn expiration_timer_update_uses_shared_copy() {
    let dm = DataMessage {
        timestamp: Some(1_700_000_004_000),
        flags: Some(EXPIRATION_TIMER_UPDATE),
        expire_timer: Some(3600),
        expire_timer_copy: "Disappearing messages set to 1 hour".to_string(),
        ..empty_data_message()
    };
    let c = content(ALICE_ACI, ContentBody::DataMessage(dm));
    let events = map_received(&c, OWN_ACI, &with_alice());
    let [SignalEvent::ExpirationTimerChanged {
        conv_id,
        seconds,
        body,
        timestamp_ms,
        ..
    }] = &events[..]
    else {
        panic!("expected ExpirationTimerChanged");
    };
    assert_eq!(conv_id, ALICE_E164);
    assert_eq!(*seconds, 3600);
    assert_eq!(body, "Disappearing messages set to 1 hour", "same copy as signal-cli");
    assert_eq!(*timestamp_ms, 1_700_000_004_000);
}

#[test]
fn receipt_types_map_to_receipt_kinds() {
    for kind in [ReceiptKind::Delivery, ReceiptKind::Read, ReceiptKind::Viewed] {
        let rm = ReceiptMessage {
            receipt_type: Some(kind),
            timestamp: vec![1_700_000_000_000, 1_700_000_001_000],
        };
        let c = content(ALICE_ACI, ContentBody::ReceiptMessage(rm));
        let events = map_received(&c, OWN_ACI, &with_alice());
        let [SignalEvent::ReceiptReceived {
            sender,
            receipt_type,
            timestamps,
        }] = &events[..]
        else {
            panic!("expected ReceiptReceived");
        };
        assert_eq!(sender, ALICE_E164);
        assert_eq!(*receipt_type, kind);
        assert_eq!(timestamps, &[1_700_000_000_000, 1_700_000_001_000]);
    }
    let unknown = ReceiptMessage {
        receipt_type: None,
        timestamp: vec![1],
    };
    let c = content(ALICE_ACI, ContentBody::ReceiptMessage(unknown));
    assert!(map_received(&c, OWN_ACI, &with_alice()).is_empty());
}

#[test]
fn typing_start_stop_and_group_context() {
    let tm = TypingMessage {
        action: Some(TypingAction::Started),
        group_id: Some(vec![5u8; 32]),
    };
    let c = content(ALICE_ACI, ContentBody::TypingMessage(tm));
    let events = map_received(&c, OWN_ACI, &with_alice());
    let [SignalEvent::TypingIndicator {
        sender,
        is_typing,
        group_id,
        ..
    }] = &events[..]
    else {
        panic!("expected TypingIndicator");
    };
    assert_eq!(sender, ALICE_E164);
    assert!(is_typing);
    assert_eq!(
        group_id.as_deref(),
        Some("BQUFBQUFBQUFBQUFBQUFBQUFBQUFBQUFBQUFBQUFBQU=")
    );

    let stop = TypingMessage {
        action: Some(TypingAction::Stopped),
        group_id: None,
    };
    let c = content(ALICE_ACI, ContentBody::TypingMessage(stop));
    let events = map_received(&c, OWN_ACI, &with_alice());
    assert!(matches!(
        &events[..],
        [SignalEvent::TypingIndicator { is_typing: false, group_id: None, .. }]
    ));
}

#[test]
fn sync_sent_maps_to_outgoing_with_destination() {
    let sm = SyncMessage {
        sent: Some(Sent {
            destination_service_id: Some(ALICE_ACI.to_string()),
            destination_e164: None,
            timestamp: Some(1_700_000_005_000),
            message: Some(text_data_message("from my phone", 1_700_000_005_000)),
            edit_message: None,
        }),
        read: vec![],
    };
    let c = content(OWN_ACI, ContentBody::SynchronizeMessage(sm));
    let events = map_received(&c, OWN_ACI, &with_alice());
    let [SignalEvent::MessageReceived(m)] = &events[..] else {
        panic!("expected MessageReceived for sync echo");
    };
    assert!(m.is_outgoing);
    assert_eq!(m.destination.as_deref(), Some(ALICE_E164));
    assert_eq!(m.body.as_deref(), Some("from my phone"));
}

#[test]
fn note_to_self_sync_keys_by_own_identity() {
    let sm = SyncMessage {
        sent: Some(Sent {
            destination_service_id: Some(OWN_ACI.to_string()),
            destination_e164: None,
            timestamp: Some(1_700_000_006_000),
            message: Some(text_data_message("note to self", 1_700_000_006_000)),
            edit_message: None,
        }),
        read: vec![],
    };
    let c = content(OWN_ACI, ContentBody::SynchronizeMessage(sm));
    let events = map_received(&c, OWN_ACI, &StoreResolver::new());
    let [SignalEvent::MessageReceived(m)] = &events[..] else {
        panic!("expected MessageReceived");
    };
    assert!(m.is_outgoing);
    assert_eq!(m.destination.as_deref(), Some(OWN_ACI));
}

#[test]
fn read_sync_collects_sender_timestamp_pairs() {
    let sm = SyncMessage {
        sent: None,
        read: vec![
            Read {
                sender_aci: Some(ALICE_ACI.to_string()),
                timestamp: Some(1_700_000_000_000),
            },
            Read {
                sender_aci: None,
                timestamp: Some(7),
            },
            Read {
                sender_aci: Some(ALICE_ACI.to_string()),
                timestamp: Some(1_700_000_001_000),
            },
        ],
    };
    let c = content(OWN_ACI, ContentBody::SynchronizeMessage(sm));
    let events = map_received(&c, OWN_ACI, &with_alice());
    let [SignalEvent::ReadSyncReceived { read_messages }] = &events[..] else {
        panic!("expected ReadSyncReceived");
    };
    assert_eq!(
        read_messages,
        &[
            (ALICE_E164.to_string(), 1_700_000_000_000),
            (ALICE_E164.to_string(), 1_700_000_001_000)
        ]
    );
}

#[test]
fn sync_edit_echo_and_empty_sync_map_as_expected() {
    let sm = SyncMessage {
        sent: Some(Sent {
            destination_service_id: None,
            destination_e164: Some("+15559990000".to_string()),
            timestamp: Some(77),
            message: None,
            edit_message: Some(EditMessage {
                target_sent_timestamp: Some(70),
                data_message: Some(DataMessage {
                    body: Some("v2".to_string()),
                    ..empty_data_message()
                }),
            }),
        }),
        read: vec![],
    };
    let c = content(OWN_ACI, ContentBody::SynchronizeMessage(sm));
    let events = map_received(&c, OWN_ACI, &with_alice());
    let [SignalEvent::EditReceived {
        conv_id,
        new_timestamp,
        is_outgoing,
        ..
    }] = &events[..]
    else {
        panic!("expected EditReceived");
    };
    assert_eq!(conv_id, "+15559990000");
    assert_eq!(*new_timestamp, 77, "sent timestamp stands in");
    assert!(is_outgoing);

    let empty = SyncMessage {
        sent: None,
        read: vec![],
    };
    let c = content(OWN_ACI, ContentBody::SynchronizeMessage(empty));
    assert!(map_received(&c, OWN_ACI, &with_alice()).is_empty());
}

#[test]
fn other_payloads_emit_nothing() {
    let c = content(ALICE_ACI, ContentBody::Other);
    assert!(map_received(&c, OWN_ACI, &with_alice()).is_empty());
}
