//! The boundary vocabulary shared by every engine: message styles, receipts,
//! messages and the events a backend reports to the application.
//!
//! Instants are carried as milliseconds since the UNIX epoch (UTC).
use vstd::prelude::*;

verus! {

/// A text style a range of a message body carries.
#[derive(Debug, Clone, Copy, PartialEq, Eq, Structural)]
pub enum StyleType {
    Bold,
    Italic,
    Spoiler,
    Strikethrough,
    Monospace,
}

/// Kind of a delivery/read receipt.
#[derive(Debug, Clone, Copy, PartialEq, Eq, Structural)]
pub enum ReceiptKind {
    Delivery,
    Read,
    Viewed,
}

/// Whether the configured account is registered as a linked device.
#[derive(Debug, Clone, Copy, PartialEq, Eq, Structural)]
pub enum LinkState {
    Linked,
    Unlinked,
    /// A store exists but cannot be opened.
    Corrupt,
}

/// A file attached to a message.
#[derive(Debug)]
pub struct Attachment {
    pub id: String,
    pub content_type: String,
    pub filename: Option<String>,
    pub local_path: Option<String>,
}

/// An @-mention inside a message body (UTF-16 start and length).
#[derive(Debug)]
pub struct Mention {
    pub start: usize,
    pub length: usize,
    pub uuid: String,
}

/// A styled range inside a message body (UTF-16 start and length).
#[derive(Debug, Clone, Copy)]
pub struct TextStyle {
    pub start: usize,
    pub length: usize,
    pub style: StyleType,
}

/// A link preview attached to a message.
#[derive(Debug)]
pub struct LinkPreview {
    pub url: String,
    pub title: Option<String>,
    pub description: Option<String>,
    pub image_path: Option<String>,
}

/// An incoming (or synced outgoing) message.
#[derive(Debug)]
pub struct SignalMessage {
    pub source: String,
    pub source_name: Option<String>,
    pub source_uuid: Option<String>,
    /// Milliseconds since the UNIX epoch (UTC).
    pub timestamp: i64,
    pub body: Option<String>,
    pub attachments: Vec<Attachment>,
    pub group_id: Option<String>,
    pub group_name: Option<String>,
    pub is_outgoing: bool,
    pub destination: Option<String>,
    pub mentions: Vec<Mention>,
    pub text_styles: Vec<TextStyle>,
    /// (timestamp, author, body) of the quoted message.
    pub quote: Option<(i64, String, String)>,
    pub expires_in_seconds: i64,
    pub previews: Vec<LinkPreview>,
}

/// A contact from the directory.
#[derive(Debug, Clone)]
pub struct Contact {
    pub number: Option<String>,
    pub name: Option<String>,
    pub uuid: Option<String>,
    pub username: Option<String>,
}

/// A group from the directory.
#[derive(Debug, Clone)]
pub struct Group {
    pub id: String,
    pub name: String,
    pub members: Vec<String>,
    /// (member key, ACI uuid) pairs.
    pub member_uuids: Vec<(String, String)>,
}

/// Registration status of a looked-up user.
#[derive(Debug, Clone)]
pub struct UserStatus {
    pub recipient: String,
    pub username: Option<String>,
    pub uuid: Option<String>,
    pub registered: bool,
}

/// Correlates an outgoing send with its later confirmation.
#[derive(Debug, Clone)]
pub struct SendToken(pub String);

impl SendToken {
    pub fn new(token: String) -> (t: SendToken)
        ensures
            t.0 == token,
    {
        SendToken(token)
    }
}

/// An event a backend reports to the application.
#[derive(Debug)]
pub enum SignalEvent {
    MessageReceived(SignalMessage),
    ReceiptReceived { sender: String, receipt_type: ReceiptKind, timestamps: Vec<i64> },
    ReactionReceived {
        conv_id: String,
        emoji: String,
        sender: String,
        sender_name: Option<String>,
        target_author: String,
        target_timestamp: i64,
        is_remove: bool,
    },
    EditReceived {
        conv_id: String,
        sender: String,
        sender_name: Option<String>,
        target_timestamp: i64,
        new_body: String,
        new_timestamp: i64,
        is_outgoing: bool,
    },
    RemoteDeleteReceived { conv_id: String, sender: String, target_timestamp: i64 },
    ExpirationTimerChanged {
        conv_id: String,
        seconds: i64,
        body: String,
        /// The instant, in milliseconds since the epoch (UTC).
        timestamp: i64,
        timestamp_ms: i64,
    },
    SystemMessage {
        conv_id: String,
        body: String,
        /// The instant, in milliseconds since the epoch (UTC).
        timestamp: i64,
        timestamp_ms: i64,
    },
    ReadSyncReceived { read_messages: Vec<(String, i64)> },
    TypingIndicator {
        sender: String,
        sender_name: Option<String>,
        is_typing: bool,
        group_id: Option<String>,
    },
    ContactList(Vec<Contact>),
    GroupList(Vec<Group>),
    SendTimestamp { token: SendToken, server_ts: i64 },
    SendFailed { token: SendToken },
    UserStatusList(Vec<UserStatus>),
    SyncComplete,
    Disconnected,
    Error(String),
}

// ---------------------------------------------------------------------------
// Exact copies
// ---------------------------------------------------------------------------

/// An exact copy of an optional string.
pub fn clone_opt_string(o: &Option<String>) -> (r: Option<String>)
    ensures
        r == *o,
{
    match o {
        Some(s) => Some(s.clone()),
        None => None,
    }
}

impl Clone for Attachment {
    fn clone(&self) -> (r: Self)
        ensures
            r == *self,
    {
        Attachment {
            id: self.id.clone(),
            content_type: self.content_type.clone(),
            filename: clone_opt_string(&self.filename),
            local_path: clone_opt_string(&self.local_path),
        }
    }
}

impl Clone for Mention {
    fn clone(&self) -> (r: Self)
        ensures
            r == *self,
    {
        Mention { start: self.start, length: self.length, uuid: self.uuid.clone() }
    }
}

impl Clone for LinkPreview {
    fn clone(&self) -> (r: Self)
        ensures
            r == *self,
    {
        LinkPreview {
            url: self.url.clone(),
            title: clone_opt_string(&self.title),
            description: clone_opt_string(&self.description),
            image_path: clone_opt_string(&self.image_path),
        }
    }
}

fn clone_attachments(v: &Vec<Attachment>) -> (r: Vec<Attachment>)
    ensures
        r@ == v@,
{
    let mut r: Vec<Attachment> = Vec::new();
    let mut k: usize = 0;
    while k < v.len()
        invariant
            k <= v@.len(),
            r@ == v@.take(k as int),
        decreases v@.len() - k,
    {
        r.push(v[k].clone());
        assert(v@.take(k + 1) =~= v@.take(k as int).push(v@[k as int]));
        k += 1;
    }
    assert(v@.take(v@.len() as int) =~= v@);
    r
}

fn clone_mentions(v: &Vec<Mention>) -> (r: Vec<Mention>)
    ensures
        r@ == v@,
{
    let mut r: Vec<Mention> = Vec::new();
    let mut k: usize = 0;
    while k < v.len()
        invariant
            k <= v@.len(),
            r@ == v@.take(k as int),
        decreases v@.len() - k,
    {
        r.push(v[k].clone());
        assert(v@.take(k + 1) =~= v@.take(k as int).push(v@[k as int]));
        k += 1;
    }
    assert(v@.take(v@.len() as int) =~= v@);
    r
}

fn clone_text_styles(v: &Vec<TextStyle>) -> (r: Vec<TextStyle>)
    ensures
        r@ == v@,
{
    let mut r: Vec<TextStyle> = Vec::new();
    let mut k: usize = 0;
    while k < v.len()
        invariant
            k <= v@.len(),
            r@ == v@.take(k as int),
        decreases v@.len() - k,
    {
        r.push(v[k]);
        assert(v@.take(k + 1) =~= v@.take(k as int).push(v@[k as int]));
        k += 1;
    }
    assert(v@.take(v@.len() as int) =~= v@);
    r
}

fn clone_previews(v: &Vec<LinkPreview>) -> (r: Vec<LinkPreview>)
    ensures
        r@ == v@,
{
    let mut r: Vec<LinkPreview> = Vec::new();
    let mut k: usize = 0;
    while k < v.len()
        invariant
            k <= v@.len(),
            r@ == v@.take(k as int),
        decreases v@.len() - k,
    {
        r.push(v[k].clone());
        assert(v@.take(k + 1) =~= v@.take(k as int).push(v@[k as int]));
        k += 1;
    }
    assert(v@.take(v@.len() as int) =~= v@);
    r
}

/// An exact copy of a list of timestamps.
pub fn clone_i64s(v: &Vec<i64>) -> (r: Vec<i64>)
    ensures
        r@ == v@,
{
    let mut r: Vec<i64> = Vec::new();
    let mut k: usize = 0;
    while k < v.len()
        invariant
            k <= v@.len(),
            r@ == v@.take(k as int),
        decreases v@.len() - k,
    {
        r.push(v[k]);
        assert(v@.take(k + 1) =~= v@.take(k as int).push(v@[k as int]));
        k += 1;
    }
    assert(v@.take(v@.len() as int) =~= v@);
    r
}

/// An exact copy of a list of (sender, timestamp) pairs.
pub fn clone_read_pairs(v: &Vec<(String, i64)>) -> (r: Vec<(String, i64)>)
    ensures
        r@ == v@,
{
    let mut r: Vec<(String, i64)> = Vec::new();
    let mut k: usize = 0;
    while k < v.len()
        invariant
            k <= v@.len(),
            r@ == v@.take(k as int),
        decreases v@.len() - k,
    {
        r.push((v[k].0.clone(), v[k].1));
        assert(v@.take(k + 1) =~= v@.take(k as int).push(v@[k as int]));
        k += 1;
    }
    assert(v@.take(v@.len() as int) =~= v@);
    r
}

/// Two messages carry the same data, field by field (lists compared by
/// their contents).
pub open spec fn same_message(a: SignalMessage, b: SignalMessage) -> bool {
    &&& a.source == b.source
    &&& a.source_name == b.source_name
    &&& a.source_uuid == b.source_uuid
    &&& a.timestamp == b.timestamp
    &&& a.body == b.body
    &&& a.attachments@ == b.attachments@
    &&& a.group_id == b.group_id
    &&& a.group_name == b.group_name
    &&& a.is_outgoing == b.is_outgoing
    &&& a.destination == b.destination
    &&& a.mentions@ == b.mentions@
    &&& a.text_styles@ == b.text_styles@
    &&& a.quote == b.quote
    &&& a.expires_in_seconds == b.expires_in_seconds
    &&& a.previews@ == b.previews@
}

impl Clone for SignalMessage {
    fn clone(&self) -> (r: Self)
        ensures
            same_message(r, *self),
    {
        let quote = match &self.quote {
            Some(q) => Some((q.0, q.1.clone(), q.2.clone())),
            None => None,
        };
        assert(quote == self.quote);
        SignalMessage {
            source: self.source.clone(),
            source_name: clone_opt_string(&self.source_name),
            source_uuid: clone_opt_string(&self.source_uuid),
            timestamp: self.timestamp,
            body: clone_opt_string(&self.body),
            attachments: clone_attachments(&self.attachments),
            group_id: clone_opt_string(&self.group_id),
            group_name: clone_opt_string(&self.group_name),
            is_outgoing: self.is_outgoing,
            destination: clone_opt_string(&self.destination),
            mentions: clone_mentions(&self.mentions),
            text_styles: clone_text_styles(&self.text_styles),
            quote,
            expires_in_seconds: self.expires_in_seconds,
            previews: clone_previews(&self.previews),
        }
    }
}

} // verus!
