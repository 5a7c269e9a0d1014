//! Durable receive journal.
//!
//! The transport acks each envelope before handing it to the client, so
//! anything pulled but not persisted is gone if the process crashes. The
//! engine thread therefore appends each mapped event to a journal table
//! before pulling the next item; the main thread deletes the row after
//! committing the event's effects; startup replays leftovers.
//!
//! Rows hold [`JournalEvent`], a mirror of the persistent-effect subset of
//! [`SignalEvent`]: exactly the variants whose loss at a crash would be
//! user-visible data loss. Transient events (typing, sync lifecycle,
//! directory refreshes) are deliberately absent.
use vstd::prelude::*;

use crate::clock::{ts_utc, utc_at_millis};
use crate::types::{
    clone_i64s, clone_opt_string, clone_read_pairs, same_message, ReceiptKind, SignalEvent,
    SignalMessage,
};

verus! {

/// The journaled subset of [`SignalEvent`].
#[derive(Debug)]
pub enum JournalEvent {
    Message(SignalMessage),
    Receipt { sender: String, receipt_type: ReceiptKind, timestamps: Vec<i64> },
    Reaction {
        conv_id: String,
        emoji: String,
        sender: String,
        sender_name: Option<String>,
        target_author: String,
        target_timestamp: i64,
        is_remove: bool,
    },
    Edit {
        conv_id: String,
        sender: String,
        sender_name: Option<String>,
        target_timestamp: i64,
        new_body: String,
        new_timestamp: i64,
        is_outgoing: bool,
    },
    RemoteDelete { conv_id: String, sender: String, target_timestamp: i64 },
    TimerChange { conv_id: String, seconds: i64, body: String, timestamp_ms: i64 },
    System { conv_id: String, body: String, timestamp_ms: i64 },
    ReadSync { read_messages: Vec<(String, i64)> },
}

/// Two journal events carry the same data.
pub open spec fn same_journal_event(a: JournalEvent, b: JournalEvent) -> bool {
    match (a, b) {
        (JournalEvent::Message(m), JournalEvent::Message(n)) => same_message(m, n),
        (
            JournalEvent::Receipt { sender, receipt_type, timestamps },
            JournalEvent::Receipt { sender: s2, receipt_type: r2, timestamps: t2 },
        ) => sender == s2 && receipt_type == r2 && timestamps@ == t2@,
        (
            JournalEvent::Reaction {
                conv_id,
                emoji,
                sender,
                sender_name,
                target_author,
                target_timestamp,
                is_remove,
            },
            JournalEvent::Reaction {
                conv_id: c2,
                emoji: e2,
                sender: s2,
                sender_name: n2,
                target_author: a2,
                target_timestamp: t2,
                is_remove: r2,
            },
        ) => conv_id == c2 && emoji == e2 && sender == s2 && sender_name == n2 && target_author
            == a2 && target_timestamp == t2 && is_remove == r2,
        (
            JournalEvent::Edit {
                conv_id,
                sender,
                sender_name,
                target_timestamp,
                new_body,
                new_timestamp,
                is_outgoing,
            },
            JournalEvent::Edit {
                conv_id: c2,
                sender: s2,
                sender_name: n2,
                target_timestamp: t2,
                new_body: b2,
                new_timestamp: nt2,
                is_outgoing: o2,
            },
        ) => conv_id == c2 && sender == s2 && sender_name == n2 && target_timestamp == t2
            && new_body == b2 && new_timestamp == nt2 && is_outgoing == o2,
        (
            JournalEvent::RemoteDelete { conv_id, sender, target_timestamp },
            JournalEvent::RemoteDelete { conv_id: c2, sender: s2, target_timestamp: t2 },
        ) => conv_id == c2 && sender == s2 && target_timestamp == t2,
        (
            JournalEvent::TimerChange { conv_id, seconds, body, timestamp_ms },
            JournalEvent::TimerChange { conv_id: c2, seconds: s2, body: b2, timestamp_ms: m2 },
        ) => conv_id == c2 && seconds == s2 && body == b2 && timestamp_ms == m2,
        (
            JournalEvent::System { conv_id, body, timestamp_ms },
            JournalEvent::System { conv_id: c2, body: b2, timestamp_ms: m2 },
        ) => conv_id == c2 && body == b2 && timestamp_ms == m2,
        (
            JournalEvent::ReadSync { read_messages },
            JournalEvent::ReadSync { read_messages: r2 },
        ) => read_messages@ == r2@,
        _ => false,
    }
}

impl Clone for JournalEvent {
    fn clone(&self) -> (r: Self)
        ensures
            same_journal_event(r, *self),
    {
        match self {
            JournalEvent::Message(m) => JournalEvent::Message(m.clone()),
            JournalEvent::Receipt { sender, receipt_type, timestamps } => JournalEvent::Receipt {
                sender: sender.clone(),
                receipt_type: *receipt_type,
                timestamps: clone_i64s(timestamps),
            },
            JournalEvent::Reaction {
                conv_id,
                emoji,
                sender,
                sender_name,
                target_author,
                target_timestamp,
                is_remove,
            } => JournalEvent::Reaction {
                conv_id: conv_id.clone(),
                emoji: emoji.clone(),
                sender: sender.clone(),
                sender_name: clone_opt_string(sender_name),
                target_author: target_author.clone(),
                target_timestamp: *target_timestamp,
                is_remove: *is_remove,
            },
            JournalEvent::Edit {
                conv_id,
                sender,
                sender_name,
                target_timestamp,
                new_body,
                new_timestamp,
                is_outgoing,
            } => JournalEvent::Edit {
                conv_id: conv_id.clone(),
                sender: sender.clone(),
                sender_name: clone_opt_string(sender_name),
                target_timestamp: *target_timestamp,
                new_body: new_body.clone(),
                new_timestamp: *new_timestamp,
                is_outgoing: *is_outgoing,
            },
            JournalEvent::RemoteDelete { conv_id, sender, target_timestamp } =>
                JournalEvent::RemoteDelete {
                conv_id: conv_id.clone(),
                sender: sender.clone(),
                target_timestamp: *target_timestamp,
            },
            JournalEvent::TimerChange { conv_id, seconds, body, timestamp_ms } =>
                JournalEvent::TimerChange {
                conv_id: conv_id.clone(),
                seconds: *seconds,
                body: body.clone(),
                timestamp_ms: *timestamp_ms,
            },
            JournalEvent::System { conv_id, body, timestamp_ms } => JournalEvent::System {
                conv_id: conv_id.clone(),
                body: body.clone(),
                timestamp_ms: *timestamp_ms,
            },
            JournalEvent::ReadSync { read_messages } => JournalEvent::ReadSync {
                read_messages: clone_read_pairs(read_messages),
            },
        }
    }
}

/// The events whose loss at a crash would lose user-visible data.
pub open spec fn is_persistent(e: SignalEvent) -> bool {
    match e {
        SignalEvent::MessageReceived(_) => true,
        SignalEvent::ReceiptReceived { .. } => true,
        SignalEvent::ReactionReceived { .. } => true,
        SignalEvent::EditReceived { .. } => true,
        SignalEvent::RemoteDeleteReceived { .. } => true,
        SignalEvent::ExpirationTimerChanged { .. } => true,
        SignalEvent::SystemMessage { .. } => true,
        SignalEvent::ReadSyncReceived { .. } => true,
        _ => false,
    }
}

/// `j` is the journal twin of `e`: same variant, same data. The UTC instant
/// of timer and system events is not journaled; it is rebuilt from the
/// millisecond timestamp on replay.
pub open spec fn journals(j: JournalEvent, e: SignalEvent) -> bool {
    match (j, e) {
        (JournalEvent::Message(m), SignalEvent::MessageReceived(n)) => same_message(m, n),
        (
            JournalEvent::Receipt { sender, receipt_type, timestamps },
            SignalEvent::ReceiptReceived { sender: s2, receipt_type: r2, timestamps: t2 },
        ) => sender == s2 && receipt_type == r2 && timestamps@ == t2@,
        (
            JournalEvent::Reaction {
                conv_id,
                emoji,
                sender,
                sender_name,
                target_author,
                target_timestamp,
                is_remove,
            },
            SignalEvent::ReactionReceived {
                conv_id: c2,
                emoji: e2,
                sender: s2,
                sender_name: n2,
                target_author: a2,
                target_timestamp: t2,
                is_remove: r2,
            },
        ) => conv_id == c2 && emoji == e2 && sender == s2 && sender_name == n2 && target_author
            == a2 && target_timestamp == t2 && is_remove == r2,
        (
            JournalEvent::Edit {
                conv_id,
                sender,
                sender_name,
                target_timestamp,
                new_body,
                new_timestamp,
                is_outgoing,
            },
            SignalEvent::EditReceived {
                conv_id: c2,
                sender: s2,
                sender_name: n2,
                target_timestamp: t2,
                new_body: b2,
                new_timestamp: nt2,
                is_outgoing: o2,
            },
        ) => conv_id == c2 && sender == s2 && sender_name == n2 && target_timestamp == t2
            && new_body == b2 && new_timestamp == nt2 && is_outgoing == o2,
        (
            JournalEvent::RemoteDelete { conv_id, sender, target_timestamp },
            SignalEvent::RemoteDeleteReceived { conv_id: c2, sender: s2, target_timestamp: t2 },
        ) => conv_id == c2 && sender == s2 && target_timestamp == t2,
        (
            JournalEvent::TimerChange { conv_id, seconds, body, timestamp_ms },
            SignalEvent::ExpirationTimerChanged {
                conv_id: c2,
                seconds: s2,
                body: b2,
                timestamp_ms: m2,
                ..
            },
        ) => conv_id == c2 && seconds == s2 && body == b2 && timestamp_ms == m2,
        (
            JournalEvent::System { conv_id, body, timestamp_ms },
            SignalEvent::SystemMessage { conv_id: c2, body: b2, timestamp_ms: m2, .. },
        ) => conv_id == c2 && body == b2 && timestamp_ms == m2,
        (
            JournalEvent::ReadSync { read_messages },
            SignalEvent::ReadSyncReceived { read_messages: r2 },
        ) => read_messages@ == r2@,
        _ => false,
    }
}

/// The UTC instant of a timer or system event is the one its millisecond
/// timestamp denotes (what a replayed event carries).
pub open spec fn instant_matches_millis(e: SignalEvent) -> bool {
    match e {
        SignalEvent::ExpirationTimerChanged { timestamp, timestamp_ms, .. } => timestamp
            == utc_at_millis(timestamp_ms),
        SignalEvent::SystemMessage { timestamp, timestamp_ms, .. } => timestamp == utc_at_millis(
            timestamp_ms,
        ),
        _ => true,
    }
}

/// Two persistent events carry the same data, field by field (lists
/// compared by their contents).
pub open spec fn same_persistent_event(a: SignalEvent, b: SignalEvent) -> bool {
    match (a, b) {
        (SignalEvent::MessageReceived(m), SignalEvent::MessageReceived(n)) => same_message(m, n),
        (
            SignalEvent::ReceiptReceived { sender, receipt_type, timestamps },
            SignalEvent::ReceiptReceived { sender: s2, receipt_type: r2, timestamps: t2 },
        ) => sender == s2 && receipt_type == r2 && timestamps@ == t2@,
        (SignalEvent::ReactionReceived { .. }, SignalEvent::ReactionReceived { .. }) => a == b,
        (SignalEvent::EditReceived { .. }, SignalEvent::EditReceived { .. }) => a == b,
        (SignalEvent::RemoteDeleteReceived { .. }, SignalEvent::RemoteDeleteReceived { .. }) => a
            == b,
        (SignalEvent::ExpirationTimerChanged { .. }, SignalEvent::ExpirationTimerChanged { .. }) => a
            == b,
        (SignalEvent::SystemMessage { .. }, SignalEvent::SystemMessage { .. }) => a == b,
        (
            SignalEvent::ReadSyncReceived { read_messages },
            SignalEvent::ReadSyncReceived { read_messages: r2 },
        ) => read_messages@ == r2@,
        _ => false,
    }
}

impl JournalEvent {
    /// The journal twin of a boundary event, `None` when the event is
    /// transient and not worth a durable row.
    pub fn from_signal(event: &SignalEvent) -> (r: Option<JournalEvent>)
        ensures
            r is Some <==> is_persistent(*event),
            r matches Some(j) ==> journals(j, *event),
    {
        match event {
            SignalEvent::MessageReceived(msg) => Some(JournalEvent::Message(msg.clone())),
            SignalEvent::ReceiptReceived { sender, receipt_type, timestamps } => Some(
                JournalEvent::Receipt {
                    sender: sender.clone(),
                    receipt_type: *receipt_type,
                    timestamps: clone_i64s(timestamps),
                },
            ),
            SignalEvent::ReactionReceived {
                conv_id,
                emoji,
                sender,
                sender_name,
                target_author,
                target_timestamp,
                is_remove,
            } => Some(
                JournalEvent::Reaction {
                    conv_id: conv_id.clone(),
                    emoji: emoji.clone(),
                    sender: sender.clone(),
                    sender_name: clone_opt_string(sender_name),
                    target_author: target_author.clone(),
                    target_timestamp: *target_timestamp,
                    is_remove: *is_remove,
                },
            ),
            SignalEvent::EditReceived {
                conv_id,
                sender,
                sender_name,
                target_timestamp,
                new_body,
                new_timestamp,
                is_outgoing,
            } => Some(
                JournalEvent::Edit {
                    conv_id: conv_id.clone(),
                    sender: sender.clone(),
                    sender_name: clone_opt_string(sender_name),
                    target_timestamp: *target_timestamp,
                    new_body: new_body.clone(),
                    new_timestamp: *new_timestamp,
                    is_outgoing: *is_outgoing,
                },
            ),
            SignalEvent::RemoteDeleteReceived { conv_id, sender, target_timestamp } => Some(
                JournalEvent::RemoteDelete {
                    conv_id: conv_id.clone(),
                    sender: sender.clone(),
                    target_timestamp: *target_timestamp,
                },
            ),
            SignalEvent::ExpirationTimerChanged { conv_id, seconds, body, timestamp_ms, .. } => Some(
                JournalEvent::TimerChange {
                    conv_id: conv_id.clone(),
                    seconds: *seconds,
                    body: body.clone(),
                    timestamp_ms: *timestamp_ms,
                },
            ),
            SignalEvent::SystemMessage { conv_id, body, timestamp_ms, .. } => Some(
                JournalEvent::System {
                    conv_id: conv_id.clone(),
                    body: body.clone(),
                    timestamp_ms: *timestamp_ms,
                },
            ),
            SignalEvent::ReadSyncReceived { read_messages } => Some(
                JournalEvent::ReadSync { read_messages: clone_read_pairs(read_messages) },
            ),
            _ => None,
        }
    }

    /// Back to the boundary vocabulary for replay.
    pub fn into_signal(self) -> (r: SignalEvent)
        ensures
            journals(self, r),
            instant_matches_millis(r),
    {
        match self {
            JournalEvent::Message(msg) => SignalEvent::MessageReceived(msg),
            JournalEvent::Receipt { sender, receipt_type, timestamps } => {
                SignalEvent::ReceiptReceived { sender, receipt_type, timestamps }
            },
            JournalEvent::Reaction {
                conv_id,
                emoji,
                sender,
                sender_name,
                target_author,
                target_timestamp,
                is_remove,
            } => SignalEvent::ReactionReceived {
                conv_id,
                emoji,
                sender,
                sender_name,
                target_author,
                target_timestamp,
                is_remove,
            },
            JournalEvent::Edit {
                conv_id,
                sender,
                sender_name,
                target_timestamp,
                new_body,
                new_timestamp,
                is_outgoing,
            } => SignalEvent::EditReceived {
                conv_id,
                sender,
                sender_name,
                target_timestamp,
                new_body,
                new_timestamp,
                is_outgoing,
            },
            JournalEvent::RemoteDelete { conv_id, sender, target_timestamp } => {
                SignalEvent::RemoteDeleteReceived { conv_id, sender, target_timestamp }
            },
            JournalEvent::TimerChange { conv_id, seconds, body, timestamp_ms } => {
                SignalEvent::ExpirationTimerChanged {
                    conv_id,
                    seconds,
                    body,
                    timestamp: ts_utc(timestamp_ms),
                    timestamp_ms,
                }
            },
            JournalEvent::System { conv_id, body, timestamp_ms } => SignalEvent::SystemMessage {
                conv_id,
                body,
                timestamp: ts_utc(timestamp_ms),
                timestamp_ms,
            },
            JournalEvent::ReadSync { read_messages } => SignalEvent::ReadSyncReceived {
                read_messages,
            },
        }
    }
}

/// Replaying a journaled event gives back the event that was journaled:
/// whenever `j` journals `e` and replaying `j` gives `back`, `back` carries
/// the same data as `e` (for timer and system events, provided `e`'s UTC
/// instant is the one its millisecond timestamp denotes, as every mapper
/// builds them).
pub proof fn law_journal_roundtrip(e: SignalEvent, j: JournalEvent, back: SignalEvent)
    requires
        journals(j, e),
        journals(j, back),
        instant_matches_millis(e),
        instant_matches_millis(back),
    ensures
        is_persistent(e),
        same_persistent_event(e, back),
{
}

} // verus!
