//! Native send path: the adapter → engine vocabulary, and how a
//! conversation key converts back to a wire identity (the reverse of the
//! receive side's peer-key rule).
use vstd::prelude::*;

use crate::text::owned;
use crate::types::SendToken;

verus! {

/// The adapter → engine send vocabulary.
pub enum SendCommand {
    Message {
        token: SendToken,
        /// Conversation key: E.164 or ACI uuid.
        recipient: String,
        body: String,
        /// Wire timestamp, already uniqueness-adjusted by the adapter.
        timestamp_ms: u64,
    },
    GroupMessage { token: SendToken, group_id: String, body: String, timestamp_ms: u64 },
    ResolveUsername { username: String },
}

/// What `uuid::Uuid::parse_str` makes of a string, as the uuid's 128-bit
/// value (`Uuid::as_u128`); `None` when the string is not a uuid in one of
/// the forms the crate accepts (simple, hyphenated, braced, URN).
pub uninterp spec fn parsed_uuid(s: Seq<char>) -> Option<u128>;

/// `Uuid::parse_str` (through `str::parse`), read back as the uuid's 128-bit
/// value. The contract names the result rather than restating the grammar.
#[verifier::external_body]
fn parse_uuid(key: &str) -> (r: Option<u128>)
    ensures
        r == parsed_uuid(key@),
{
    match key.parse::<uuid::Uuid>() {
        Ok(u) => Some(u.as_u128()),
        Err(_) => None,
    }
}

/// The wire identity a conversation key stands for.
#[derive(Debug, PartialEq, Eq)]
pub enum RecipientKind {
    /// An ACI, as the uuid's 128-bit value.
    Aci(u128),
    /// Anything else is taken as a phone number and resolved through the
    /// contacts.
    Number(String),
}

/// Classify a conversation key: a key that parses as a uuid is an ACI,
/// every other key (E.164 numbers, group ids, garbage) is a number. Never
/// fails on any input.
pub fn classify_recipient(key: &str) -> (r: RecipientKind)
    ensures
        match parsed_uuid(key@) {
            Some(u) => r == RecipientKind::Aci(u),
            None => r matches RecipientKind::Number(n) && n@ == key@,
        },
{
    match parse_uuid(key) {
        Some(u) => RecipientKind::Aci(u),
        None => RecipientKind::Number(owned(key)),
    }
}

/// The account's own ACI when `number` is the account's own number. The own
/// number never appears in the synced contact list, so Note to Self must
/// resolve here before the contacts walk gets a chance to fail it.
pub fn own_aci_for_number(number: &str, own_e164: &str, own_aci: u128) -> (r: Option<u128>)
    ensures
        r == (if number@ == own_e164@ {
            Some(own_aci)
        } else {
            None
        }),
{
    if owned(number) == owned(own_e164) {
        Some(own_aci)
    } else {
        None
    }
}

} // verus!
