//! Native in-process Signal engine: the crash journal of received events,
//! the receive supervisor's policies, the identity mapping of received
//! envelopes, and the send path's bookkeeping.
pub mod journal;
pub mod linking;
pub mod proto;
pub mod receive;
pub mod send;
pub mod store;
pub mod supervisor;

use vstd::prelude::*;

use crate::backend::native::send::SendCommand;
use crate::backend::native::supervisor::EngineStatus;
use crate::clock::now_millis;
use crate::text::{append_chars, chars_of, decimal, i64_decimal, owned, signed_decimal, u64_decimal};
use crate::types::SendToken;

verus! {

/// User-facing engine name.
pub const ENGINE_NAME: &'static str = "native";

/// The wire timestamp for a send made at wall-clock time `now`, given the
/// previous one: `now`, bumped past the previous send when two land in the
/// same millisecond (or the clock stepped back).
pub open spec fn wire_ts_after(now: i64, last: i64) -> int {
    if now > last + 1 {
        now as int
    } else {
        last + 1
    }
}

/// `now.max(last + 1)`.
pub fn bump_wire_ts(now: i64, last: i64) -> (ts: i64)
    requires
        last < i64::MAX,
    ensures
        ts == wire_ts_after(now, last),
{
    if now > last + 1 {
        now
    } else {
        last + 1
    }
}

/// Next wire timestamp: the wall clock, bumped past the previously issued
/// one. Tokens must be strictly increasing and unique even for two sends
/// inside one millisecond, both for pending-send correlation and for the
/// (sender, timestamp) identity of a message.
pub fn next_wire_ts(last_wire_ts: &mut i64) -> (ts: i64)
    requires
        *old(last_wire_ts) < i64::MAX,
    ensures
        ts > *old(last_wire_ts),
        *final(last_wire_ts) == ts,
{
    let now = now_millis();
    let ts = bump_wire_ts(now, *last_wire_ts);
    *last_wire_ts = ts;
    ts
}

/// Wire timestamps handed out one after another are strictly increasing,
/// whatever the clock reads: each is above the previous one and becomes the
/// new floor.
pub proof fn law_wire_ts_strictly_increasing(now1: i64, now2: i64, last: i64)
    requires
        last < i64::MAX,
        wire_ts_after(now1, last) < i64::MAX,
    ensures
        wire_ts_after(now1, last) > last,
        wire_ts_after(now2, wire_ts_after(now1, last) as i64) > wire_ts_after(now1, last),
        wire_ts_after(now1, last) >= now1,
{
}

/// What the adapter does with an outgoing message.
pub enum NativeSendPlan {
    /// Refuse the send: show `status` and mark the local copy failed.
    Refuse { status: String },
    /// Register the pending send under `token` and hand `command` to the
    /// engine.
    Send { token: SendToken, command: SendCommand },
}

/// Why a message cannot be sent yet: attachments are not routed by the
/// native engine yet, and nothing is sent without a running engine.
pub open spec fn refusal(has_attachment: bool, engine_running: bool) -> Option<Seq<char>> {
    if has_attachment {
        Some("native engine: attachments not implemented yet (#642 U14)"@)
    } else if !engine_running {
        Some("native engine: not connected"@)
    } else {
        None
    }
}

/// Plan the send of one message to `recipient` (a peer key, or a group id
/// when `is_group`). A refused send leaves the wire clock alone; otherwise the
/// next wire timestamp is drawn, and it is both the command's timestamp and,
/// in decimal, the token the send's confirmation will carry.
pub fn plan_message_send(
    recipient: &str,
    body: String,
    is_group: bool,
    has_attachment: bool,
    engine_running: bool,
    last_wire_ts: &mut i64,
) -> (r: NativeSendPlan)
    requires
        *old(last_wire_ts) < i64::MAX,
    ensures
        match refusal(has_attachment, engine_running) {
            Some(status) => {
                &&& r matches NativeSendPlan::Refuse { status: s }
                &&& s@ == status
                &&& *final(last_wire_ts) == *old(last_wire_ts)
            },
            None => {
                let ts = *final(last_wire_ts);
                &&& ts > *old(last_wire_ts)
                &&& r matches NativeSendPlan::Send { token, command }
                &&& token.0@ == signed_decimal(ts)
                &&& if is_group {
                    command matches SendCommand::GroupMessage {
                        token: t,
                        group_id,
                        body: b,
                        timestamp_ms,
                    } && t.0@ == token.0@ && group_id@ == recipient@ && b@ == body@
                        && timestamp_ms == ts as u64
                } else {
                    command matches SendCommand::Message {
                        token: t,
                        recipient: to,
                        body: b,
                        timestamp_ms,
                    } && t.0@ == token.0@ && to@ == recipient@ && b@ == body@ && timestamp_ms
                        == ts as u64
                }
            },
        },
{
    if has_attachment {
        return NativeSendPlan::Refuse {
            status: owned("native engine: attachments not implemented yet (#642 U14)"),
        };
    }
    if !engine_running {
        return NativeSendPlan::Refuse { status: owned("native engine: not connected") };
    }
    let wire_ts = next_wire_ts(last_wire_ts);
    let text = i64_decimal(wire_ts);
    let token = SendToken::new(text.clone());
    let command_token = SendToken::new(text);
    let command = if is_group {
        SendCommand::GroupMessage {
            token: command_token,
            group_id: owned(recipient),
            body,
            timestamp_ms: wire_ts as u64,
        }
    } else {
        SendCommand::Message {
            token: command_token,
            recipient: owned(recipient),
            body,
            timestamp_ms: wire_ts as u64,
        }
    };
    NativeSendPlan::Send { token, command }
}

/// How the app reflects the engine's latest connection status.
pub enum StatusEffect {
    /// Show this line on the startup screen.
    StartupStatus(String),
    /// Mark the app connected and clear any connection error.
    Connected,
    /// Mark the app disconnected and show this status line.
    Reconnecting(String),
    /// Mark the app disconnected with this connection error.
    Failed(String),
}

/// The effect of an engine status on the app: the startup line while
/// connecting, connected once the stream is live, the attempt number while
/// reconnecting, and the engine's own copy when it gave up.
pub open spec fn maps_status(status: EngineStatus, effect: StatusEffect) -> bool {
    match status {
        EngineStatus::Connecting => effect matches StatusEffect::StartupStatus(s) && s@
            == "Connecting to Signal..."@,
        EngineStatus::Connected => effect is Connected,
        EngineStatus::Reconnecting { attempt } => effect matches StatusEffect::Reconnecting(s) && s@
            == "native engine: reconnecting (attempt "@ + decimal(attempt as nat) + ")..."@,
        EngineStatus::Terminal(msg) => effect matches StatusEffect::Failed(s) && s@ == msg@,
    }
}

/// Reflect the supervisor's latest connection status.
pub fn status_effect(status: &EngineStatus) -> (r: StatusEffect)
    ensures
        maps_status(*status, r),
{
    match status {
        EngineStatus::Connecting => StatusEffect::StartupStatus(owned("Connecting to Signal...")),
        EngineStatus::Connected => StatusEffect::Connected,
        EngineStatus::Reconnecting { attempt } => {
            let mut line = owned("native engine: reconnecting (attempt ");
            append_chars(&mut line, &chars_of(u64_decimal(*attempt as u64).as_str()));
            append_chars(&mut line, &chars_of(")..."));
            StatusEffect::Reconnecting(line)
        },
        EngineStatus::Terminal(msg) => StatusEffect::Failed(msg.clone()),
    }
}

} // verus!
