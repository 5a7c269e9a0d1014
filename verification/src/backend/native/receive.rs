//! Received envelopes → boundary events.
//!
//! A pure mapping layer: no store access, no channels, no I/O. Identity
//! resolution (a peer keys by E.164 when the number is known, else by ACI
//! uuid) is injected through [`IdentityResolver`], which the adapter backs
//! with the store's contacts.
//!
//! Deliberately unmapped: attachment downloads (pointers map to
//! [`Attachment`] rows with no local path), polls and pins, calls, stories,
//! payment chrome.
use base64::Engine as _;
use vstd::prelude::*;

use crate::backend::native::proto::{
    AttachmentId, AttachmentPointer, BodyRange, Content, ContentBody, DataMessage, EditMessage,
    Preview, Quote, RangeStyle, RangeValue, Read, ReceiptMessage, Received, SyncMessage,
    TypingAction, TypingMessage, EXPIRATION_TIMER_UPDATE,
};
use crate::backend::native::journal::{instant_matches_millis, is_persistent};
use crate::clock::{ts_utc, utc_at_millis};
use crate::text::{decimal, owned, u64_decimal};
use crate::types::{
    clone_opt_string, Attachment, LinkPreview, Mention, ReceiptKind, SignalEvent, SignalMessage,
    StyleType, TextStyle,
};

verus! {

pub open spec fn opt_string_view(o: Option<String>) -> Option<Seq<char>> {
    match o {
        Some(s) => Some(s@),
        None => None,
    }
}

/// Identity resolution the mapper borrows from the adapter.
pub trait IdentityResolver {
    /// The E.164 known for an ACI uuid.
    spec fn number_of(&self, aci: Seq<char>) -> Option<Seq<char>>;

    /// The display name known for an ACI uuid.
    spec fn name_of(&self, aci: Seq<char>) -> Option<Seq<char>>;

    /// The E.164 for an ACI uuid, when known.
    fn number_for_aci(&self, aci: &str) -> (r: Option<String>)
        ensures
            opt_string_view(r) == self.number_of(aci@),
    ;

    /// Display name for an ACI uuid, when known.
    fn name_for_aci(&self, aci: &str) -> (r: Option<String>)
        ensures
            opt_string_view(r) == self.name_of(aci@),
    ;
}

/// The conversation key of a peer: E.164 when known, else the ACI uuid.
pub open spec fn peer_key<R: IdentityResolver>(resolver: &R, aci: Seq<char>) -> Seq<char> {
    match resolver.number_of(aci) {
        Some(number) => number,
        None => aci,
    }
}

/// Peer key: E.164 when the store knows the number, else the ACI uuid
/// string as-is.
pub fn peer_id<R: IdentityResolver>(aci: &str, resolver: &R) -> (r: String)
    ensures
        r@ == peer_key(resolver, aci@),
{
    match resolver.number_for_aci(aci) {
        Some(number) => number,
        None => owned(aci),
    }
}

// ---------------------------------------------------------------------------
// Field defaults
// ---------------------------------------------------------------------------

/// The text of an optional string, empty when absent.
pub open spec fn text_or_empty(o: Option<String>) -> Seq<char> {
    match o {
        Some(s) => s@,
        None => Seq::empty(),
    }
}

/// An optional string with the empty string counted as absent.
pub open spec fn non_empty_view(o: Option<String>) -> Option<Seq<char>> {
    match o {
        Some(s) => if s@.len() > 0 {
            Some(s@)
        } else {
            None
        },
        None => None,
    }
}

/// A wire timestamp as the signed milliseconds the events carry (the same
/// bits reinterpreted), or `fallback` when absent.
pub open spec fn millis_or(o: Option<u64>, fallback: i64) -> i64 {
    match o {
        Some(t) => t as i64,
        None => fallback,
    }
}

fn text_or_empty_exec(o: &Option<String>) -> (r: String)
    ensures
        r@ == text_or_empty(*o),
{
    match o {
        Some(s) => s.clone(),
        None => String::new(),
    }
}

fn non_empty_exec(o: &Option<String>) -> (r: Option<String>)
    ensures
        opt_string_view(r) == non_empty_view(*o),
{
    match o {
        Some(s) => if s.as_str().is_empty() {
            None
        } else {
            Some(s.clone())
        },
        None => None,
    }
}

fn millis_or_exec(o: Option<u64>, fallback: i64) -> (r: i64)
    ensures
        r == millis_or(o, fallback),
{
    match o {
        Some(t) => t as i64,
        None => fallback,
    }
}

/// The char of a 6-bit value in the standard base64 alphabet
/// (`A`-`Z`, `a`-`z`, `0`-`9`, `+`, `/`).
pub open spec fn base64_char(v: int) -> char {
    if v < 26 {
        (65 + v) as char
    } else if v < 52 {
        (97 + (v - 26)) as char
    } else if v < 62 {
        (48 + (v - 52)) as char
    } else if v == 62 {
        '+'
    } else {
        '/'
    }
}

/// Standard base64 with padding (RFC 4648): each 3 bytes become 4 chars; a
/// last group of 1 or 2 bytes is padded with `=` to 4 chars.
pub open spec fn base64_standard_of(b: Seq<u8>) -> Seq<char>
    decreases b.len(),
{
    if b.len() == 0 {
        seq![]
    } else if b.len() == 1 {
        seq![base64_char((b[0] as int) / 4), base64_char(((b[0] as int) % 4) * 16), '=', '=']
    } else if b.len() == 2 {
        seq![
            base64_char((b[0] as int) / 4),
            base64_char(((b[0] as int) % 4) * 16 + (b[1] as int) / 16),
            base64_char(((b[1] as int) % 16) * 4),
            '=',
        ]
    } else {
        seq![
            base64_char((b[0] as int) / 4),
            base64_char(((b[0] as int) % 4) * 16 + (b[1] as int) / 16),
            base64_char(((b[1] as int) % 16) * 4 + (b[2] as int) / 64),
            base64_char((b[2] as int) % 64),
        ] + base64_standard_of(b.skip(3))
    }
}

/// The base64 crate's `STANDARD` engine: the standard alphabet with padding,
/// as the crate's documentation and its `alphabet::STANDARD` / `PAD` define
/// it.
#[verifier::external_body]
fn base64_standard(bytes: &[u8]) -> (r: String)
    ensures
        r@ == base64_standard_of(bytes@),
{
    base64::engine::general_purpose::STANDARD.encode(bytes)
}

// ---------------------------------------------------------------------------
// Attachments, previews, body ranges
// ---------------------------------------------------------------------------

/// The id an attachment row gets: the CDN number in decimal, the CDN key, or
/// empty.
pub open spec fn attachment_id_text(id: Option<AttachmentId>) -> Seq<char> {
    match id {
        Some(AttachmentId::CdnId(n)) => decimal(n as nat),
        Some(AttachmentId::CdnKey(k)) => k@,
        None => Seq::empty(),
    }
}

/// `a` is the attachment row for pointer `ap`: the CDN id, the content type
/// (`application/octet-stream` when absent), a non-empty file name, and no
/// local file yet.
pub open spec fn maps_attachment(ap: AttachmentPointer, a: Attachment) -> bool {
    &&& a.id@ == attachment_id_text(ap.attachment_identifier)
    &&& a.content_type@ == match ap.content_type {
        Some(c) => c@,
        None => "application/octet-stream"@,
    }
    &&& opt_string_view(a.filename) == non_empty_view(ap.file_name)
    &&& a.local_path is None
}

fn map_attachment(ap: &AttachmentPointer) -> (a: Attachment)
    ensures
        maps_attachment(*ap, a),
{
    let id = match &ap.attachment_identifier {
        Some(AttachmentId::CdnId(n)) => u64_decimal(*n),
        Some(AttachmentId::CdnKey(key)) => key.clone(),
        None => String::new(),
    };
    let content_type = match &ap.content_type {
        Some(c) => c.clone(),
        None => owned("application/octet-stream"),
    };
    Attachment { id, content_type, filename: non_empty_exec(&ap.file_name), local_path: None }
}

/// Element-wise mapping of pointers to attachment rows.
pub open spec fn maps_attachments(aps: Seq<AttachmentPointer>, atts: Seq<Attachment>) -> bool {
    &&& atts.len() == aps.len()
    &&& forall|i: int| 0 <= i < aps.len() ==> maps_attachment(aps[i], #[trigger] atts[i])
}

fn map_attachments(aps: &Vec<AttachmentPointer>) -> (r: Vec<Attachment>)
    ensures
        maps_attachments(aps@, r@),
{
    let mut r: Vec<Attachment> = Vec::new();
    let mut k: usize = 0;
    while k < aps.len()
        invariant
            k <= aps@.len(),
            r@.len() == k,
            forall|i: int| 0 <= i < k ==> maps_attachment(aps@[i], #[trigger] r@[i]),
        decreases aps@.len() - k,
    {
        r.push(map_attachment(&aps[k]));
        k += 1;
    }
    r
}

/// `l` is the link preview for `p`: its url (empty when absent), non-empty
/// title and description, and no image yet.
pub open spec fn maps_preview(p: Preview, l: LinkPreview) -> bool {
    &&& l.url@ == text_or_empty(p.url)
    &&& opt_string_view(l.title) == non_empty_view(p.title)
    &&& opt_string_view(l.description) == non_empty_view(p.description)
    &&& l.image_path is None
}

/// Element-wise mapping of previews.
pub open spec fn maps_previews(ps: Seq<Preview>, ls: Seq<LinkPreview>) -> bool {
    &&& ls.len() == ps.len()
    &&& forall|i: int| 0 <= i < ps.len() ==> maps_preview(ps[i], #[trigger] ls[i])
}

fn map_previews(ps: &Vec<Preview>) -> (r: Vec<LinkPreview>)
    ensures
        maps_previews(ps@, r@),
{
    let mut r: Vec<LinkPreview> = Vec::new();
    let mut k: usize = 0;
    while k < ps.len()
        invariant
            k <= ps@.len(),
            r@.len() == k,
            forall|i: int| 0 <= i < k ==> maps_preview(ps@[i], #[trigger] r@[i]),
        decreases ps@.len() - k,
    {
        let p = &ps[k];
        r.push(
            LinkPreview {
                url: text_or_empty_exec(&p.url),
                title: non_empty_exec(&p.title),
                description: non_empty_exec(&p.description),
                image_path: None,
            },
        );
        k += 1;
    }
    r
}

/// The start or length of a body range, zero when absent.
pub open spec fn range_field(o: Option<u32>) -> usize {
    match o {
        Some(v) => v as usize,
        None => 0,
    }
}

/// The text style a range style stands for, if any.
pub open spec fn style_type_of(s: RangeStyle) -> Option<StyleType> {
    match s {
        RangeStyle::Bold => Some(StyleType::Bold),
        RangeStyle::Italic => Some(StyleType::Italic),
        RangeStyle::Spoiler => Some(StyleType::Spoiler),
        RangeStyle::Strikethrough => Some(StyleType::Strikethrough),
        RangeStyle::Monospace => Some(StyleType::Monospace),
        _ => None,
    }
}

/// The mentions among body ranges, in order, as (start, length, ACI).
pub open spec fn range_mentions(ranges: Seq<BodyRange>) -> Seq<(usize, usize, Seq<char>)>
    decreases ranges.len(),
{
    if ranges.len() == 0 {
        Seq::empty()
    } else {
        let prev = range_mentions(ranges.drop_last());
        let r = ranges.last();
        match r.associated_value {
            Some(RangeValue::MentionAci(aci)) => prev.push(
                (range_field(r.start), range_field(r.length), aci@),
            ),
            _ => prev,
        }
    }
}

/// The styled ranges among body ranges, in order; ranges whose style is
/// unset or unknown are skipped.
pub open spec fn range_styles(ranges: Seq<BodyRange>) -> Seq<TextStyle>
    decreases ranges.len(),
{
    if ranges.len() == 0 {
        Seq::empty()
    } else {
        let prev = range_styles(ranges.drop_last());
        let r = ranges.last();
        match r.associated_value {
            Some(RangeValue::Style(s)) => match style_type_of(s) {
                Some(style) => prev.push(
                    TextStyle { start: range_field(r.start), length: range_field(r.length), style },
                ),
                None => prev,
            },
            _ => prev,
        }
    }
}

/// A styled body range becomes a text style of the same name over the same
/// span, appended after the styles of the ranges before it; a range with no
/// style or an unknown one adds none.
pub proof fn law_style_ranges_keep_their_name(prev: Seq<BodyRange>, start: Option<u32>, length: Option<u32>)
    ensures
        range_styles(prev.push(BodyRange { start, length, associated_value: Some(RangeValue::Style(RangeStyle::Bold)) }))
            == range_styles(prev).push(TextStyle { start: range_field(start), length: range_field(length), style: StyleType::Bold }),
        range_styles(prev.push(BodyRange { start, length, associated_value: Some(RangeValue::Style(RangeStyle::Italic)) }))
            == range_styles(prev).push(TextStyle { start: range_field(start), length: range_field(length), style: StyleType::Italic }),
        range_styles(prev.push(BodyRange { start, length, associated_value: Some(RangeValue::Style(RangeStyle::Spoiler)) }))
            == range_styles(prev).push(TextStyle { start: range_field(start), length: range_field(length), style: StyleType::Spoiler }),
        range_styles(prev.push(BodyRange { start, length, associated_value: Some(RangeValue::Style(RangeStyle::Strikethrough)) }))
            == range_styles(prev).push(TextStyle { start: range_field(start), length: range_field(length), style: StyleType::Strikethrough }),
        range_styles(prev.push(BodyRange { start, length, associated_value: Some(RangeValue::Style(RangeStyle::Monospace)) }))
            == range_styles(prev).push(TextStyle { start: range_field(start), length: range_field(length), style: StyleType::Monospace }),
        range_styles(prev.push(BodyRange { start, length, associated_value: Some(RangeValue::Style(RangeStyle::NoStyle)) }))
            == range_styles(prev),
        range_styles(prev.push(BodyRange { start, length, associated_value: Some(RangeValue::Style(RangeStyle::Unknown)) }))
            == range_styles(prev),
{
    let mk = |v: RangeStyle| prev.push(BodyRange { start, length, associated_value: Some(RangeValue::Style(v)) });
    assert(mk(RangeStyle::Bold).drop_last() =~= prev);
    assert(mk(RangeStyle::Italic).drop_last() =~= prev);
    assert(mk(RangeStyle::Spoiler).drop_last() =~= prev);
    assert(mk(RangeStyle::Strikethrough).drop_last() =~= prev);
    assert(mk(RangeStyle::Monospace).drop_last() =~= prev);
    assert(mk(RangeStyle::NoStyle).drop_last() =~= prev);
    assert(mk(RangeStyle::Unknown).drop_last() =~= prev);
}

/// A mention body range becomes a mention of the same span and ACI,
/// appended after the mentions of the ranges before it; a style range or a
/// range with no value adds no mention.
pub proof fn law_mention_ranges_keep_their_target(
    prev: Seq<BodyRange>,
    start: Option<u32>,
    length: Option<u32>,
    aci: String,
    style: RangeStyle,
)
    ensures
        range_mentions(prev.push(BodyRange { start, length, associated_value: Some(RangeValue::MentionAci(aci)) }))
            == range_mentions(prev).push((range_field(start), range_field(length), aci@)),
        range_mentions(prev.push(BodyRange { start, length, associated_value: Some(RangeValue::Style(style)) }))
            == range_mentions(prev),
        range_mentions(prev.push(BodyRange { start, length, associated_value: None })) == range_mentions(prev),
        range_styles(prev.push(BodyRange { start, length, associated_value: Some(RangeValue::MentionAci(aci)) }))
            == range_styles(prev),
{
    assert(prev.push(BodyRange { start, length, associated_value: Some(RangeValue::MentionAci(aci)) }).drop_last() =~= prev);
    assert(prev.push(BodyRange { start, length, associated_value: Some(RangeValue::Style(style)) }).drop_last() =~= prev);
    assert(prev.push(BodyRange { start, length, associated_value: None }).drop_last() =~= prev);
}

/// A mention as (start, length, ACI).
pub open spec fn mention_model(m: Mention) -> (usize, usize, Seq<char>) {
    (m.start, m.length, m.uuid@)
}

/// Split body ranges into mentions and text styles, keeping their order.
fn map_body_ranges(ranges: &Vec<BodyRange>) -> (r: (Vec<Mention>, Vec<TextStyle>))
    ensures
        r.0@.map_values(|m: Mention| mention_model(m)) == range_mentions(ranges@),
        r.1@ == range_styles(ranges@),
{
    let mut mentions: Vec<Mention> = Vec::new();
    let mut styles: Vec<TextStyle> = Vec::new();
    let mut k: usize = 0;
    while k < ranges.len()
        invariant
            k <= ranges@.len(),
            mentions@.map_values(|m: Mention| mention_model(m)) == range_mentions(
                ranges@.take(k as int),
            ),
            styles@ == range_styles(ranges@.take(k as int)),
        decreases ranges@.len() - k,
    {
        let r = &ranges[k];
        let start: usize = match r.start {
            Some(v) => v as usize,
            None => 0,
        };
        let length: usize = match r.length {
            Some(v) => v as usize,
            None => 0,
        };
        let ghost m_before = mentions@;
        proof {
            assert(ranges@.take(k + 1).drop_last() =~= ranges@.take(k as int));
            assert(ranges@.take(k + 1).last() == ranges@[k as int]);
        }
        match &r.associated_value {
            Some(RangeValue::MentionAci(aci)) => {
                mentions.push(Mention { start, length, uuid: aci.clone() });
                assert(mentions@.map_values(|m: Mention| mention_model(m)) =~= m_before.map_values(
                    |m: Mention| mention_model(m),
                ).push((start, length, aci@)));
            },
            Some(RangeValue::Style(s)) => {
                let style = match s {
                    RangeStyle::Bold => Some(StyleType::Bold),
                    RangeStyle::Italic => Some(StyleType::Italic),
                    RangeStyle::Spoiler => Some(StyleType::Spoiler),
                    RangeStyle::Strikethrough => Some(StyleType::Strikethrough),
                    RangeStyle::Monospace => Some(StyleType::Monospace),
                    _ => None,
                };
                if let Some(style) = style {
                    styles.push(TextStyle { start, length, style });
                }
            },
            _ => {},
        }
        k += 1;
    }
    assert(ranges@.take(ranges@.len() as int) =~= ranges@);
    (mentions, styles)
}

// ---------------------------------------------------------------------------
// Data messages
// ---------------------------------------------------------------------------

/// The peer key of an optional ACI, empty when absent.
pub open spec fn key_or_empty<R: IdentityResolver>(resolver: &R, aci: Option<String>) -> Seq<char> {
    match aci {
        Some(a) => peer_key(resolver, a@),
        None => Seq::empty(),
    }
}

fn key_or_empty_exec<R: IdentityResolver>(aci: &Option<String>, resolver: &R) -> (r: String)
    ensures
        r@ == key_or_empty(resolver, *aci),
{
    match aci {
        Some(a) => peer_id(a.as_str(), resolver),
        None => String::new(),
    }
}

/// The conversation a data message lands in: the group when it carries a
/// group context; for one-to-one, the sync destination when it is this
/// account's own outgoing echo, else the sender.
pub open spec fn conv_key(group_id: Option<String>, sender_key: Seq<char>, destination: Option<
    Seq<char>,
>) -> Seq<char> {
    match group_id {
        Some(g) => g@,
        None => match destination {
            Some(d) => d,
            None => sender_key,
        },
    }
}

fn data_message_conv_id(dm: &DataMessage, sender_id: &String, outgoing_destination: &Option<
    String,
>) -> (r: String)
    ensures
        r@ == conv_key(dm.group_id, sender_id@, opt_string_view(*outgoing_destination)),
{
    match &dm.group_id {
        Some(g) => g.clone(),
        None => match outgoing_destination {
            Some(d) => d.clone(),
            None => sender_id.clone(),
        },
    }
}

/// Whether a data message announces a new expiration timer.
pub open spec fn is_timer_update(dm: DataMessage) -> bool {
    let flags: u32 = match dm.flags {
        Some(f) => f,
        None => 0,
    };
    flags & EXPIRATION_TIMER_UPDATE != 0
}

/// Whether a data message has anything to display: a non-empty body or an
/// attachment.
pub open spec fn is_displayable(dm: DataMessage) -> bool {
    non_empty_view(dm.body) is Some || dm.attachments@.len() > 0
}

/// The expiration timer in seconds, zero when absent.
pub open spec fn timer_seconds(dm: DataMessage) -> i64 {
    match dm.expire_timer {
        Some(t) => t as i64,
        None => 0,
    }
}

/// The quote field of a message built from an optional quote: (id, author's
/// peer key, text), with zero and empty for absent parts.
pub open spec fn maps_quote<R: IdentityResolver>(resolver: &R, q: Option<Quote>, m: Option<
    (i64, String, String),
>) -> bool {
    match q {
        None => m is None,
        Some(q) => m matches Some(t) && t.0 == millis_or(q.id, 0) && t.1@ == key_or_empty(
            resolver,
            q.author_aci,
        ) && t.2@ == text_or_empty(q.text),
    }
}

/// `m` is the message a displayable data message becomes.
pub open spec fn maps_message<R: IdentityResolver>(
    dm: DataMessage,
    sender_aci: Seq<char>,
    is_outgoing: bool,
    destination: Option<Seq<char>>,
    fallback_ts: i64,
    resolver: &R,
    m: SignalMessage,
) -> bool {
    &&& m.source@ == peer_key(resolver, sender_aci)
    &&& opt_string_view(m.source_name) == resolver.name_of(sender_aci)
    &&& opt_string_view(m.source_uuid) == Some(sender_aci)
    &&& m.timestamp == utc_at_millis(millis_or(dm.timestamp, fallback_ts))
    &&& opt_string_view(m.body) == opt_string_view(dm.body)
    &&& maps_attachments(dm.attachments@, m.attachments@)
    &&& opt_string_view(m.group_id) == opt_string_view(dm.group_id)
    &&& m.group_name is None
    &&& m.is_outgoing == is_outgoing
    &&& opt_string_view(m.destination) == destination
    &&& m.mentions@.map_values(|x: Mention| mention_model(x)) == range_mentions(dm.body_ranges@)
    &&& m.text_styles@ == range_styles(dm.body_ranges@)
    &&& maps_quote(resolver, dm.quote, m.quote)
    &&& m.expires_in_seconds == timer_seconds(dm)
    &&& maps_previews(dm.preview@, m.previews@)
}

/// The events a data message from `sender_aci` becomes. A reaction, a remote
/// delete and a timer update each become their own event (in that order of
/// precedence); otherwise a displayable message becomes a received message
/// and anything else (profile-key updates and similar chrome) nothing.
pub open spec fn maps_data_message<R: IdentityResolver>(
    dm: DataMessage,
    sender_aci: Seq<char>,
    is_outgoing: bool,
    destination: Option<Seq<char>>,
    fallback_ts: i64,
    resolver: &R,
    events: Seq<SignalEvent>,
) -> bool {
    let sender = peer_key(resolver, sender_aci);
    let conv = conv_key(dm.group_id, sender, destination);
    let ts = millis_or(dm.timestamp, fallback_ts);
    if dm.reaction is Some {
        let re = dm.reaction->0;
        &&& events.len() == 1
        &&& events[0] matches SignalEvent::ReactionReceived {
            conv_id,
            emoji,
            sender: s,
            sender_name,
            target_author,
            target_timestamp,
            is_remove,
        }
        &&& conv_id@ == conv
        &&& emoji@ == text_or_empty(re.emoji)
        &&& s@ == sender
        &&& opt_string_view(sender_name) == resolver.name_of(sender_aci)
        &&& target_author@ == key_or_empty(resolver, re.target_author_aci)
        &&& target_timestamp == millis_or(re.target_sent_timestamp, 0)
        &&& is_remove == (re.remove == Some(true))
    } else if dm.delete is Some {
        &&& events.len() == 1
        &&& events[0] matches SignalEvent::RemoteDeleteReceived {
            conv_id,
            sender: s,
            target_timestamp,
        }
        &&& conv_id@ == conv
        &&& s@ == sender
        &&& target_timestamp == millis_or(dm.delete->0.target_sent_timestamp, 0)
    } else if is_timer_update(dm) {
        &&& events.len() == 1
        &&& events[0] matches SignalEvent::ExpirationTimerChanged {
            conv_id,
            seconds,
            body,
            timestamp,
            timestamp_ms,
        }
        &&& conv_id@ == conv
        &&& seconds == timer_seconds(dm)
        &&& body@ == dm.expire_timer_copy@
        &&& timestamp == utc_at_millis(ts)
        &&& timestamp_ms == ts
    } else if !is_displayable(dm) {
        events.len() == 0
    } else {
        &&& events.len() == 1
        &&& events[0] matches SignalEvent::MessageReceived(m)
        &&& maps_message(dm, sender_aci, is_outgoing, destination, fallback_ts, resolver, m)
    }
}

fn map_quote<R: IdentityResolver>(q: &Option<Quote>, resolver: &R) -> (r: Option<
    (i64, String, String),
>)
    ensures
        maps_quote(resolver, *q, r),
{
    match q {
        Some(q) => Some(
            (
                millis_or_exec(q.id, 0),
                key_or_empty_exec(&q.author_aci, resolver),
                text_or_empty_exec(&q.text),
            ),
        ),
        None => None,
    }
}

fn map_data_message<R: IdentityResolver>(
    dm: &DataMessage,
    sender_aci: &str,
    is_outgoing: bool,
    outgoing_destination: &Option<String>,
    fallback_ts: i64,
    resolver: &R,
) -> (r: Vec<SignalEvent>)
    ensures
        maps_data_message(
            *dm,
            sender_aci@,
            is_outgoing,
            opt_string_view(*outgoing_destination),
            fallback_ts,
            resolver,
            r@,
        ),
{
    let sender = peer_id(sender_aci, resolver);
    let sender_name = resolver.name_for_aci(sender_aci);
    let ts_ms = millis_or_exec(dm.timestamp, fallback_ts);
    let conv_id = data_message_conv_id(dm, &sender, outgoing_destination);

    if let Some(reaction) = &dm.reaction {
        let is_remove = match reaction.remove {
            Some(b) => b,
            None => false,
        };
        let event = SignalEvent::ReactionReceived {
            conv_id,
            emoji: text_or_empty_exec(&reaction.emoji),
            sender,
            sender_name,
            target_author: key_or_empty_exec(&reaction.target_author_aci, resolver),
            target_timestamp: millis_or_exec(reaction.target_sent_timestamp, 0),
            is_remove,
        };
        return vec![event];
    }
    if let Some(delete) = &dm.delete {
        let event = SignalEvent::RemoteDeleteReceived {
            conv_id,
            sender,
            target_timestamp: millis_or_exec(delete.target_sent_timestamp, 0),
        };
        return vec![event];
    }
    let flags: u32 = match dm.flags {
        Some(f) => f,
        None => 0,
    };
    if flags & EXPIRATION_TIMER_UPDATE != 0 {
        let seconds: i64 = match dm.expire_timer {
            Some(t) => t as i64,
            None => 0,
        };
        let event = SignalEvent::ExpirationTimerChanged {
            conv_id,
            seconds,
            body: dm.expire_timer_copy.clone(),
            timestamp: ts_utc(ts_ms),
            timestamp_ms: ts_ms,
        };
        return vec![event];
    }
    let has_body = match &dm.body {
        Some(b) => !b.as_str().is_empty(),
        None => false,
    };
    if !has_body && dm.attachments.len() == 0 {
        return Vec::new();
    }
    let (mentions, text_styles) = map_body_ranges(&dm.body_ranges);
    let message = SignalMessage {
        source: sender,
        source_name: sender_name,
        source_uuid: Some(owned(sender_aci)),
        timestamp: ts_utc(ts_ms),
        body: clone_opt_string(&dm.body),
        attachments: map_attachments(&dm.attachments),
        group_id: clone_opt_string(&dm.group_id),
        group_name: None,
        is_outgoing,
        destination: clone_opt_string(outgoing_destination),
        mentions,
        text_styles,
        quote: map_quote(&dm.quote, resolver),
        expires_in_seconds: match dm.expire_timer {
            Some(t) => t as i64,
            None => 0,
        },
        previews: map_previews(&dm.preview),
    };
    vec![SignalEvent::MessageReceived(message)]
}

// ---------------------------------------------------------------------------
// Edits, receipts, typing
// ---------------------------------------------------------------------------

/// The events an edit from `sender_aci` becomes: one edit event when it
/// carries the corrected message, else nothing.
pub open spec fn maps_edit<R: IdentityResolver>(
    em: EditMessage,
    sender_aci: Seq<char>,
    is_outgoing: bool,
    destination: Option<Seq<char>>,
    fallback_ts: i64,
    resolver: &R,
    events: Seq<SignalEvent>,
) -> bool {
    match em.data_message {
        None => events.len() == 0,
        Some(dm) => {
            let sender = peer_key(resolver, sender_aci);
            &&& events.len() == 1
            &&& events[0] matches SignalEvent::EditReceived {
                conv_id,
                sender: s,
                sender_name,
                target_timestamp,
                new_body,
                new_timestamp,
                is_outgoing: o,
            }
            &&& conv_id@ == conv_key(dm.group_id, sender, destination)
            &&& s@ == sender
            &&& opt_string_view(sender_name) == resolver.name_of(sender_aci)
            &&& target_timestamp == millis_or(em.target_sent_timestamp, 0)
            &&& new_body@ == text_or_empty(dm.body)
            &&& new_timestamp == millis_or(dm.timestamp, fallback_ts)
            &&& o == is_outgoing
        },
    }
}

fn map_edit<R: IdentityResolver>(
    em: &EditMessage,
    sender_aci: &str,
    is_outgoing: bool,
    outgoing_destination: &Option<String>,
    fallback_ts: i64,
    resolver: &R,
) -> (r: Vec<SignalEvent>)
    ensures
        maps_edit(
            *em,
            sender_aci@,
            is_outgoing,
            opt_string_view(*outgoing_destination),
            fallback_ts,
            resolver,
            r@,
        ),
{
    let dm = match &em.data_message {
        Some(dm) => dm,
        None => return Vec::new(),
    };
    let sender = peer_id(sender_aci, resolver);
    let event = SignalEvent::EditReceived {
        conv_id: data_message_conv_id(dm, &sender, outgoing_destination),
        sender: sender.clone(),
        sender_name: resolver.name_for_aci(sender_aci),
        target_timestamp: millis_or_exec(em.target_sent_timestamp, 0),
        new_body: text_or_empty_exec(&dm.body),
        new_timestamp: millis_or_exec(dm.timestamp, fallback_ts),
        is_outgoing,
    };
    vec![event]
}

/// The events a receipt from `sender_aci` becomes: one receipt event with
/// its timestamps when the type is known, else nothing.
pub open spec fn maps_receipt<R: IdentityResolver>(
    rm: ReceiptMessage,
    sender_aci: Seq<char>,
    resolver: &R,
    events: Seq<SignalEvent>,
) -> bool {
    match rm.receipt_type {
        None => events.len() == 0,
        Some(kind) => {
            &&& events.len() == 1
            &&& events[0] matches SignalEvent::ReceiptReceived { sender, receipt_type, timestamps }
            &&& sender@ == peer_key(resolver, sender_aci)
            &&& receipt_type == kind
            &&& timestamps@ == rm.timestamp@.map_values(|t: u64| t as i64)
        },
    }
}

fn map_receipt<R: IdentityResolver>(rm: &ReceiptMessage, sender_aci: &str, resolver: &R) -> (r: Vec<
    SignalEvent,
>)
    ensures
        maps_receipt(*rm, sender_aci@, resolver, r@),
{
    let receipt_type: ReceiptKind = match rm.receipt_type {
        Some(kind) => kind,
        None => return Vec::new(),
    };
    let mut timestamps: Vec<i64> = Vec::new();
    let mut k: usize = 0;
    while k < rm.timestamp.len()
        invariant
            k <= rm.timestamp@.len(),
            timestamps@ == rm.timestamp@.take(k as int).map_values(|t: u64| t as i64),
        decreases rm.timestamp@.len() - k,
    {
        timestamps.push(rm.timestamp[k] as i64);
        assert(rm.timestamp@.take(k + 1) =~= rm.timestamp@.take(k as int).push(
            rm.timestamp@[k as int],
        ));
        assert(timestamps@ =~= rm.timestamp@.take(k + 1).map_values(|t: u64| t as i64));
        k += 1;
    }
    assert(rm.timestamp@.take(rm.timestamp@.len() as int) =~= rm.timestamp@);
    vec![SignalEvent::ReceiptReceived { sender: peer_id(sender_aci, resolver), receipt_type, timestamps }]
}

/// The events a typing message from `sender_aci` becomes: one indicator when
/// the action is known, with the group in its conversation-id form (the
/// standard base64 of the group identifier), else nothing.
pub open spec fn maps_typing<R: IdentityResolver>(
    tm: TypingMessage,
    sender_aci: Seq<char>,
    resolver: &R,
    events: Seq<SignalEvent>,
) -> bool {
    match tm.action {
        None => events.len() == 0,
        Some(action) => {
            &&& events.len() == 1
            &&& events[0] matches SignalEvent::TypingIndicator {
                sender,
                sender_name,
                is_typing,
                group_id,
            }
            &&& sender@ == peer_key(resolver, sender_aci)
            &&& opt_string_view(sender_name) == resolver.name_of(sender_aci)
            &&& is_typing == (action == TypingAction::Started)
            &&& opt_string_view(group_id) == match tm.group_id {
                Some(g) => Some(base64_standard_of(g@)),
                None => None,
            }
        },
    }
}

fn map_typing<R: IdentityResolver>(tm: &TypingMessage, sender_aci: &str, resolver: &R) -> (r: Vec<
    SignalEvent,
>)
    ensures
        maps_typing(*tm, sender_aci@, resolver, r@),
{
    let action = match tm.action {
        Some(a) => a,
        None => return Vec::new(),
    };
    let group_id = match &tm.group_id {
        Some(g) => Some(base64_standard(g.as_slice())),
        None => None,
    };
    let is_typing = match action {
        TypingAction::Started => true,
        TypingAction::Stopped => false,
    };
    vec![
        SignalEvent::TypingIndicator {
            sender: peer_id(sender_aci, resolver),
            sender_name: resolver.name_for_aci(sender_aci),
            is_typing,
            group_id,
        },
    ]
}

// ---------------------------------------------------------------------------
// Sync messages
// ---------------------------------------------------------------------------

/// The (sender, timestamp) pairs of read syncs, in order; entries without a
/// sender are skipped.
pub open spec fn read_pairs<R: IdentityResolver>(resolver: &R, reads: Seq<Read>) -> Seq<
    (Seq<char>, i64),
>
    decreases reads.len(),
{
    if reads.len() == 0 {
        Seq::empty()
    } else {
        let prev = read_pairs(resolver, reads.drop_last());
        let r = reads.last();
        match r.sender_aci {
            Some(a) => prev.push((peer_key(resolver, a@), millis_or(r.timestamp, 0))),
            None => prev,
        }
    }
}

/// A read pair as (sender, timestamp).
pub open spec fn pair_model(p: (String, i64)) -> (Seq<char>, i64) {
    (p.0@, p.1)
}

/// Where an outgoing echo went: the destination's peer key when its service
/// id is given, else its E.164.
pub open spec fn sent_destination<R: IdentityResolver>(
    resolver: &R,
    service_id: Option<String>,
    e164: Option<String>,
) -> Option<Seq<char>> {
    match service_id {
        Some(a) => Some(peer_key(resolver, a@)),
        None => opt_string_view(e164),
    }
}

/// The events a sync message becomes. An outgoing echo from another of this
/// account's devices maps like a data message (or edit) sent by this account
/// to the destination, as outgoing; otherwise read syncs become one read-sync
/// event when there is at least one pair, else nothing.
pub open spec fn maps_sync<R: IdentityResolver>(
    sm: SyncMessage,
    own_aci: Seq<char>,
    resolver: &R,
    events: Seq<SignalEvent>,
) -> bool {
    match sm.sent {
        Some(sent) => {
            let destination = sent_destination(
                resolver,
                sent.destination_service_id,
                sent.destination_e164,
            );
            let fallback = millis_or(sent.timestamp, 0);
            match sent.message {
                Some(dm) => maps_data_message(
                    dm,
                    own_aci,
                    true,
                    destination,
                    fallback,
                    resolver,
                    events,
                ),
                None => match sent.edit_message {
                    Some(em) => maps_edit(em, own_aci, true, destination, fallback, resolver, events),
                    None => events.len() == 0,
                },
            }
        },
        None => {
            let pairs = read_pairs(resolver, sm.read@);
            if pairs.len() > 0 {
                &&& events.len() == 1
                &&& events[0] matches SignalEvent::ReadSyncReceived { read_messages }
                &&& read_messages@.map_values(|p: (String, i64)| pair_model(p)) == pairs
            } else {
                events.len() == 0
            }
        },
    }
}

fn map_read_pairs<R: IdentityResolver>(reads: &Vec<Read>, resolver: &R) -> (r: Vec<(String, i64)>)
    ensures
        r@.map_values(|p: (String, i64)| pair_model(p)) == read_pairs(resolver, reads@),
{
    let mut pairs: Vec<(String, i64)> = Vec::new();
    let mut k: usize = 0;
    while k < reads.len()
        invariant
            k <= reads@.len(),
            pairs@.map_values(|p: (String, i64)| pair_model(p)) == read_pairs(
                resolver,
                reads@.take(k as int),
            ),
        decreases reads@.len() - k,
    {
        let ghost before = pairs@;
        proof {
            assert(reads@.take(k + 1).drop_last() =~= reads@.take(k as int));
            assert(reads@.take(k + 1).last() == reads@[k as int]);
        }
        let r = &reads[k];
        if let Some(sender) = &r.sender_aci {
            let pair = (peer_id(sender.as_str(), resolver), millis_or_exec(r.timestamp, 0));
            pairs.push(pair);
            assert(pairs@.map_values(|p: (String, i64)| pair_model(p)) =~= before.map_values(
                |p: (String, i64)| pair_model(p),
            ).push(pair_model(pair)));
        }
        k += 1;
    }
    assert(reads@.take(reads@.len() as int) =~= reads@);
    pairs
}

fn map_sync_message<R: IdentityResolver>(sm: &SyncMessage, own_aci: &str, resolver: &R) -> (r: Vec<
    SignalEvent,
>)
    ensures
        maps_sync(*sm, own_aci@, resolver, r@),
{
    if let Some(sent) = &sm.sent {
        let destination = match &sent.destination_service_id {
            Some(a) => Some(peer_id(a.as_str(), resolver)),
            None => clone_opt_string(&sent.destination_e164),
        };
        let fallback_ts = millis_or_exec(sent.timestamp, 0);
        if let Some(dm) = &sent.message {
            return map_data_message(dm, own_aci, true, &destination, fallback_ts, resolver);
        }
        if let Some(em) = &sent.edit_message {
            return map_edit(em, own_aci, true, &destination, fallback_ts, resolver);
        }
        return Vec::new();
    }
    let read_messages = map_read_pairs(&sm.read, resolver);
    if read_messages.len() > 0 {
        return vec![SignalEvent::ReadSyncReceived { read_messages }];
    }
    Vec::new()
}

// ---------------------------------------------------------------------------
// Envelopes and stream items
// ---------------------------------------------------------------------------

/// The events a decrypted envelope becomes. Data messages, receipts, typing
/// and edits are attributed to the envelope's sender, and the envelope's
/// timestamp stands in for a missing message timestamp; sync messages are
/// this account's own. Other payloads become nothing.
pub open spec fn maps_content<R: IdentityResolver>(
    content: Content,
    own_aci: Seq<char>,
    resolver: &R,
    events: Seq<SignalEvent>,
) -> bool {
    let sender = content.sender_aci@;
    match content.body {
        ContentBody::DataMessage(dm) => maps_data_message(
            dm,
            sender,
            false,
            None,
            content.timestamp_ms,
            resolver,
            events,
        ),
        ContentBody::SynchronizeMessage(sm) => maps_sync(sm, own_aci, resolver, events),
        ContentBody::ReceiptMessage(rm) => maps_receipt(rm, sender, resolver, events),
        ContentBody::TypingMessage(tm) => maps_typing(tm, sender, resolver, events),
        ContentBody::EditMessage(em) => maps_edit(
            em,
            sender,
            false,
            None,
            content.timestamp_ms,
            resolver,
            events,
        ),
        ContentBody::Other => events.len() == 0,
    }
}

fn map_content<R: IdentityResolver>(content: &Content, own_aci: &str, resolver: &R) -> (r: Vec<
    SignalEvent,
>)
    ensures
        maps_content(*content, own_aci@, resolver, r@),
{
    let sender_aci = content.sender_aci.as_str();
    let fallback_ts = content.timestamp_ms;
    match &content.body {
        ContentBody::DataMessage(dm) => map_data_message(
            dm,
            sender_aci,
            false,
            &None,
            fallback_ts,
            resolver,
        ),
        ContentBody::SynchronizeMessage(sm) => map_sync_message(sm, own_aci, resolver),
        ContentBody::ReceiptMessage(rm) => map_receipt(rm, sender_aci, resolver),
        ContentBody::TypingMessage(tm) => map_typing(tm, sender_aci, resolver),
        ContentBody::EditMessage(em) => map_edit(em, sender_aci, false, &None, fallback_ts, resolver),
        ContentBody::Other => Vec::new(),
    }
}

/// The events one stream item becomes: the drained queue is the end of the
/// initial sync, contact syncs are handled by the supervisor (which re-reads
/// the store), and envelopes map as `maps_content` says.
pub open spec fn maps_received<R: IdentityResolver>(
    item: Received,
    own_aci: Seq<char>,
    resolver: &R,
    events: Seq<SignalEvent>,
) -> bool {
    match item {
        Received::QueueEmpty => events.len() == 1 && events[0] is SyncComplete,
        Received::Contacts => events.len() == 0,
        Received::Content(c) => maps_content(c, own_aci, resolver, events),
    }
}

/// Map one stream item to zero or more boundary events.
pub fn map_received<R: IdentityResolver>(item: &Received, own_aci: &str, resolver: &R) -> (r: Vec<
    SignalEvent,
>)
    ensures
        maps_received(*item, own_aci@, resolver, r@),
{
    match item {
        Received::QueueEmpty => vec![SignalEvent::SyncComplete],
        Received::Contacts => Vec::new(),
        Received::Content(content) => map_content(content, own_aci, resolver),
    }
}

// ---------------------------------------------------------------------------
// What the mapping promises the journal
// ---------------------------------------------------------------------------

/// A data message becomes at most one event, and whatever it becomes
/// (message, reaction, remote delete, timer change) is an event the journal
/// keeps across a crash.
pub proof fn law_data_message_events_are_journaled<R: IdentityResolver>(
    dm: DataMessage,
    sender_aci: Seq<char>,
    is_outgoing: bool,
    destination: Option<Seq<char>>,
    fallback_ts: i64,
    resolver: &R,
    events: Seq<SignalEvent>,
)
    requires
        maps_data_message(dm, sender_aci, is_outgoing, destination, fallback_ts, resolver, events),
    ensures
        events.len() <= 1,
        forall|i: int| 0 <= i < events.len() ==> is_persistent(#[trigger] events[i]),
{
}

/// Every stream item becomes at most one event, and every event is one the
/// journal keeps, except the two transient ones: typing indicators and the
/// end-of-sync marker. Timer events carry the UTC instant their millisecond
/// timestamp denotes, so a journaled event replays as the event it was.
pub proof fn law_received_events_are_journaled_or_transient<R: IdentityResolver>(
    item: Received,
    own_aci: Seq<char>,
    resolver: &R,
    events: Seq<SignalEvent>,
)
    requires
        maps_received(item, own_aci, resolver, events),
    ensures
        events.len() <= 1,
        forall|i: int|
            0 <= i < events.len() ==> (#[trigger] events[i] is TypingIndicator || events[i] is SyncComplete
                || is_persistent(events[i])),
        forall|i: int| 0 <= i < events.len() ==> instant_matches_millis(#[trigger] events[i]),
{
}

} // verus!
