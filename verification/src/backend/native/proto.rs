//! The received-envelope shapes the receive mapper reads, held as plain
//! values. They mirror the fields of the Signal service protobufs that the
//! mapper consults; the adapter fills them from the wire types (decoding
//! protobuf enums and deriving group ids from group master keys) and the
//! mapper turns them into boundary events.
use vstd::prelude::*;

use crate::types::{ReceiptKind, StyleType};

verus! {

/// How an attachment is addressed on the CDN.
pub enum AttachmentId {
    CdnId(u64),
    CdnKey(String),
}

/// A pointer to an attachment stored on the CDN.
pub struct AttachmentPointer {
    pub attachment_identifier: Option<AttachmentId>,
    pub content_type: Option<String>,
    pub file_name: Option<String>,
}

/// The style a body range carries, as decoded from the protobuf enum:
/// `NoStyle` is the enum's zero value, `Unknown` a value this client does not
/// know.
#[derive(Debug, Clone, Copy, PartialEq, Eq, Structural)]
pub enum RangeStyle {
    NoStyle,
    Bold,
    Italic,
    Spoiler,
    Strikethrough,
    Monospace,
    Unknown,
}

/// What a body range is about.
pub enum RangeValue {
    /// A mention of the account with this ACI (string form).
    MentionAci(String),
    Style(RangeStyle),
    /// Binary ACI forms and kinds this client does not read.
    Other,
}

/// A range of a message body (UTF-16 start and length).
pub struct BodyRange {
    pub start: Option<u32>,
    pub length: Option<u32>,
    pub associated_value: Option<RangeValue>,
}

/// A reaction to an earlier message.
pub struct Reaction {
    pub emoji: Option<String>,
    pub remove: Option<bool>,
    pub target_author_aci: Option<String>,
    pub target_sent_timestamp: Option<u64>,
}

/// A remote delete of an earlier message.
pub struct Delete {
    pub target_sent_timestamp: Option<u64>,
}

/// The message a reply quotes.
pub struct Quote {
    pub id: Option<u64>,
    pub author_aci: Option<String>,
    pub text: Option<String>,
}

/// A link preview.
pub struct Preview {
    pub url: Option<String>,
    pub title: Option<String>,
    pub description: Option<String>,
}

/// A data message: text, attachments, or one of the control payloads
/// (reaction, delete, timer update) carried in the same envelope.
pub struct DataMessage {
    pub body: Option<String>,
    pub attachments: Vec<AttachmentPointer>,
    /// The conversation id of the v2 group context: the base64 group
    /// identifier derived from its master key, when there is a group context
    /// with a well-formed key.
    pub group_id: Option<String>,
    pub flags: Option<u32>,
    pub expire_timer: Option<u32>,
    /// The user-facing copy that announces `expire_timer` as the
    /// conversation's disappearing-message setting, as the shared expiration
    /// formatter renders it.
    pub expire_timer_copy: String,
    pub timestamp: Option<u64>,
    pub reaction: Option<Reaction>,
    pub delete: Option<Delete>,
    pub quote: Option<Quote>,
    pub preview: Vec<Preview>,
    pub body_ranges: Vec<BodyRange>,
}

/// The data-message flag that marks an expiration timer update.
pub const EXPIRATION_TIMER_UPDATE: u32 = 2;

/// A corrected version of an earlier message.
pub struct EditMessage {
    pub target_sent_timestamp: Option<u64>,
    pub data_message: Option<DataMessage>,
}

/// A message this account sent from another of its devices.
pub struct Sent {
    pub destination_service_id: Option<String>,
    pub destination_e164: Option<String>,
    pub timestamp: Option<u64>,
    pub message: Option<DataMessage>,
    pub edit_message: Option<EditMessage>,
}

/// A message another of this account's devices has read.
pub struct Read {
    pub sender_aci: Option<String>,
    pub timestamp: Option<u64>,
}

/// A message synchronised from another of this account's devices.
pub struct SyncMessage {
    pub sent: Option<Sent>,
    pub read: Vec<Read>,
}

/// A delivery, read or viewed receipt; `receipt_type` is `None` when the
/// type is absent or not one of the three.
pub struct ReceiptMessage {
    pub receipt_type: Option<ReceiptKind>,
    pub timestamp: Vec<u64>,
}

/// Typing started or stopped.
#[derive(Debug, Clone, Copy, PartialEq, Eq, Structural)]
pub enum TypingAction {
    Started,
    Stopped,
}

/// A typing indicator; `action` is `None` when absent or unknown, and
/// `group_id` is the raw 32-byte group identifier when typing in a group.
pub struct TypingMessage {
    pub action: Option<TypingAction>,
    pub group_id: Option<Vec<u8>>,
}

/// The payload of a decrypted envelope.
pub enum ContentBody {
    DataMessage(DataMessage),
    SynchronizeMessage(SyncMessage),
    ReceiptMessage(ReceiptMessage),
    TypingMessage(TypingMessage),
    EditMessage(EditMessage),
    /// Calls, stories, decryption errors and the like.
    Other,
}

/// A decrypted envelope: who sent it, when, and what it carries.
pub struct Content {
    /// The sender's service id in string form.
    pub sender_aci: String,
    /// The envelope timestamp, in milliseconds since the UNIX epoch.
    pub timestamp_ms: i64,
    pub body: ContentBody,
}

/// One item of the receive stream.
pub enum Received {
    /// The server queue is drained: the end of the initial sync.
    QueueEmpty,
    /// Contacts were synced into the store.
    Contacts,
    Content(Content),
}

} // verus!
