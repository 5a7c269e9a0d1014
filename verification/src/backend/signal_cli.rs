//! signal-cli adapter: the registration probe's interpretation, and the
//! copy shown when the signal-cli child goes away.
use vstd::prelude::*;

use crate::text::{
    append_chars, chars_of, find_line_start, i64_decimal, lemma_line_start_prefix, line_start, owned,
    signed_decimal,
};
use crate::paths::{path_has_prefix, path_starts_with};
use crate::types::LinkState;

verus! {

/// `anyhow::Error`, the failure a registration probe reports; carried through
/// opaque, since only its presence matters here.
#[verifier::external_type_specification]
#[verifier::external_body]
pub struct ExAnyhowError(anyhow::Error);

/// User-facing engine name.
pub const ENGINE_NAME: &'static str = "signal-cli";

/// Map the registration probe's outcome to a [`LinkState`]. A probe that
/// could not run cannot prove a link, so a spawn failure maps to `Unlinked`;
/// a missing binary is reported separately before this is consulted.
pub fn link_state_from_probe(registered: anyhow::Result<bool>) -> (r: LinkState)
    ensures
        r == (if registered matches Ok(true) {
            LinkState::Linked
        } else {
            LinkState::Unlinked
        }),
{
    match registered {
        Ok(true) => LinkState::Linked,
        Ok(false) => LinkState::Unlinked,
        Err(_) => LinkState::Unlinked,
    }
}

/// The last line `str::lines` yields for `s`, if any: lines end at `\n`, a
/// `\r` right before that `\n` belongs to the line ending, and the final line
/// ending is optional.
pub open spec fn last_line(s: Seq<char>) -> Option<Seq<char>> {
    if s.len() == 0 {
        None
    } else if s.last() == '\n' {
        let core = s.drop_last();
        let line = core.subrange(line_start(core, core.len() as int), core.len() as int);
        Some(
            if line.len() > 0 && line.last() == '\r' {
                line.drop_last()
            } else {
                line
            },
        )
    } else {
        Some(s.subrange(line_start(s, s.len() as int), s.len() as int))
    }
}

/// The disconnect copy: the last line signal-cli wrote to stderr when there
/// is a non-empty one, else how the child exited (`exit` is `None` while its
/// status is unknown, `Some(None)` when a signal killed it), else a plain
/// "disconnected".
pub open spec fn disconnect_message_spec(stderr: Seq<char>, exit: Option<Option<i32>>) -> Seq<
    char,
> {
    let line = last_line(stderr);
    if line is Some && line->0.len() > 0 {
        "signal-cli: "@ + line->0
    } else {
        match exit {
            Some(Some(code)) => "signal-cli exited with code "@ + signed_decimal(code as i64),
            Some(None) => "signal-cli killed by signal"@,
            None => "signal-cli disconnected"@,
        }
    }
}

/// The last stderr line, as `str::lines` would yield it.
fn last_stderr_line(stderr: &str) -> (r: Option<Vec<char>>)
    ensures
        match r {
            Some(v) => last_line(stderr@) == Some(v@),
            None => last_line(stderr@) is None,
        },
{
    let cs = chars_of(stderr);
    let n = cs.len();
    if n == 0 {
        return None;
    }
    let ends_with_newline = cs[n - 1] == '\n';
    let end = if ends_with_newline {
        n - 1
    } else {
        n
    };
    proof {
        if ends_with_newline {
            assert forall|k: int| 0 <= k <= end implies line_start(cs@.drop_last(), k) == line_start(
                cs@,
                k,
            ) by {
                lemma_line_start_prefix(cs@, cs@.drop_last(), k);
            }
        }
    }
    let start = find_line_start(&cs, end);
    let mut line: Vec<char> = Vec::new();
    let mut k = start;
    while k < end
        invariant
            start <= k <= end <= cs@.len(),
            line@ == cs@.subrange(start as int, k as int),
        decreases end - k,
    {
        line.push(cs[k]);
        assert(cs@.subrange(start as int, k + 1) =~= cs@.subrange(start as int, k as int).push(
            cs@[k as int],
        ));
        k += 1;
    }
    if ends_with_newline && line.len() > 0 && line[line.len() - 1] == '\r' {
        line.pop();
    }
    proof {
        if ends_with_newline {
            assert(cs@.drop_last().subrange(start as int, end as int) =~= cs@.subrange(
                start as int,
                end as int,
            ));
        }
    }
    Some(line)
}

/// The status copy for a signal-cli child that went away: its last stderr
/// line when non-empty, else its exit code or the signal that killed it,
/// else a plain "disconnected".
pub fn disconnect_message(stderr: &str, exit: Option<Option<i32>>) -> (r: String)
    ensures
        r@ == disconnect_message_spec(stderr@, exit),
{
    if let Some(line) = last_stderr_line(stderr) {
        if line.len() > 0 {
            let mut msg = owned("signal-cli: ");
            append_chars(&mut msg, &line);
            return msg;
        }
    }
    match exit {
        Some(Some(code)) => {
            let mut msg = owned("signal-cli exited with code ");
            let digits = chars_of(i64_decimal(code as i64).as_str());
            append_chars(&mut msg, &digits);
            msg
        },
        Some(None) => owned("signal-cli killed by signal"),
        None => owned("signal-cli disconnected"),
    }
}

/// What a send request to signal-cli was, as far as the handling of its
/// outcome depends on it. Names are already resolved for display: `names`
/// are the members' contact names (or numbers), `name` of a group left is its
/// conversation name (or id), `display` the contact name of the recipient.
pub enum CliRequest {
    Message { attachment: Option<String> },
    Reaction,
    Edit,
    RemoteDelete,
    Typing,
    ReadReceipt,
    UpdateExpiration { seconds: u64 },
    CreateGroup { name: String },
    AddGroupMembers { names: Vec<String> },
    RemoveGroupMembers { names: Vec<String> },
    RenameGroup { name: String },
    LeaveGroup { name: String },
    Block,
    Unblock,
    Pin,
    Unpin,
    PollCreate,
    PollVote,
    PollTerminate,
    MessageRequestResponse { response_type: String },
    ListIdentities,
    ResolveUsername,
    TrustIdentity { display: String },
    UpdateProfile,
}

/// The status line after a request: left as it is, set to a text, or set to
/// "Disappearing messages set to" the given timer, which the caller words
/// with its duration formatter.
pub enum CliStatus {
    Unchanged,
    Text(String),
    ExpirationSet(u64),
}

/// [`CliStatus`] with the text as its chars.
pub enum CliStatusModel {
    Unchanged,
    Text(Seq<char>),
    ExpirationSet(u64),
}

impl CliStatus {
    pub open spec fn model(self) -> CliStatusModel {
        match self {
            CliStatus::Unchanged => CliStatusModel::Unchanged,
            CliStatus::Text(t) => CliStatusModel::Text(t@),
            CliStatus::ExpirationSet(s) => CliStatusModel::ExpirationSet(s),
        }
    }
}

/// What the caller does once signal-cli answered a request.
pub struct CliEffects {
    pub status: CliStatus,
    /// Record the returned token as a pending send of the request's message.
    pub track_send: bool,
    /// Mark the optimistic message failed: no failure event will follow.
    pub mark_send_failed: bool,
    /// Keep the pasted attachment until the send is confirmed.
    pub register_paste_cleanup: bool,
    /// Delete the pasted attachment now: signal-cli never saw it.
    pub delete_paste_now: bool,
    /// Ask signal-cli for the group list again.
    pub refresh_groups: bool,
    /// Ask signal-cli for the identity list again.
    pub refresh_identities: bool,
    /// Apply the new group name locally at once.
    pub rename_locally: bool,
    /// Drop the group's conversation (and leave it if it is open).
    pub forget_group: bool,
    /// Abandon the pending username lookup.
    pub clear_username_resolve: bool,
}

/// The names joined with `", "`.
pub open spec fn join_names(names: Seq<Seq<char>>) -> Seq<char>
    decreases names.len(),
{
    if names.len() == 0 {
        seq![]
    } else if names.len() == 1 {
        names[0]
    } else {
        join_names(names.drop_last()) + ", "@ + names.last()
    }
}

pub open spec fn views(v: Seq<String>) -> Seq<Seq<char>> {
    v.map_values(|s: String| s@)
}

/// The word that prefixes " error: " when the request failed; requests
/// without one fail silently (or, for a username lookup, in their own words).
pub open spec fn error_label(req: CliRequest) -> Option<Seq<char>> {
    match req {
        CliRequest::Message { .. } => Some("send"@),
        CliRequest::Reaction => Some("reaction"@),
        CliRequest::Edit => Some("edit"@),
        CliRequest::RemoteDelete => Some("delete"@),
        CliRequest::UpdateExpiration { .. } => Some("expiration"@),
        CliRequest::CreateGroup { .. } => Some("create group"@),
        CliRequest::AddGroupMembers { .. } => Some("add member"@),
        CliRequest::RemoveGroupMembers { .. } => Some("remove member"@),
        CliRequest::RenameGroup { .. } => Some("rename group"@),
        CliRequest::LeaveGroup { .. } => Some("leave group"@),
        CliRequest::Block => Some("block"@),
        CliRequest::Unblock => Some("unblock"@),
        CliRequest::Pin => Some("pin"@),
        CliRequest::Unpin => Some("unpin"@),
        CliRequest::PollCreate => Some("poll"@),
        CliRequest::PollVote => Some("vote"@),
        CliRequest::PollTerminate => Some("end poll"@),
        CliRequest::MessageRequestResponse { .. } => Some("message request"@),
        CliRequest::TrustIdentity { .. } => Some("trust"@),
        CliRequest::UpdateProfile => Some("profile"@),
        _ => None,
    }
}

/// The status after a request that succeeded.
pub open spec fn success_status(req: CliRequest) -> CliStatusModel {
    match req {
        CliRequest::UpdateExpiration { seconds } => if seconds == 0 {
            CliStatusModel::Text("Disappearing messages disabled"@)
        } else {
            CliStatusModel::ExpirationSet(seconds)
        },
        CliRequest::CreateGroup { name } => CliStatusModel::Text(
            "Created group \""@ + name@ + "\""@,
        ),
        CliRequest::AddGroupMembers { names } => CliStatusModel::Text(
            "Added "@ + join_names(views(names@)),
        ),
        CliRequest::RemoveGroupMembers { names } => CliStatusModel::Text(
            "Removed "@ + join_names(views(names@)),
        ),
        CliRequest::RenameGroup { name } => CliStatusModel::Text(
            "Renamed group to \""@ + name@ + "\""@,
        ),
        CliRequest::LeaveGroup { name } => CliStatusModel::Text("Left group \""@ + name@ + "\""@),
        CliRequest::MessageRequestResponse { response_type } => CliStatusModel::Text(
            if response_type@ == "accept"@ {
                "Message request accepted"@
            } else if response_type@ == "delete"@ {
                "Message request deleted"@
            } else {
                seq![]
            },
        ),
        CliRequest::TrustIdentity { display } => CliStatusModel::Text("Verified "@ + display@),
        CliRequest::UpdateProfile => CliStatusModel::Text("Profile updated"@),
        _ => CliStatusModel::Unchanged,
    }
}

/// The status after a request, given the error text when it failed.
pub open spec fn cli_status(req: CliRequest, error: Option<Seq<char>>) -> CliStatusModel {
    match error {
        Some(e) => match error_label(req) {
            Some(label) => CliStatusModel::Text(label + " error: "@ + e),
            None => if req is ResolveUsername {
                CliStatusModel::Text("Username lookup failed: "@ + e)
            } else {
                CliStatusModel::Unchanged
            },
        },
        None => success_status(req),
    }
}

/// The message request's attachment lies under the paste directory.
pub open spec fn pastes_attachment(req: CliRequest, paste_dir: Seq<char>) -> bool {
    req matches CliRequest::Message { attachment } && attachment is Some && path_has_prefix(
        attachment->0@,
        paste_dir,
    )
}

fn error_label_exec(req: &CliRequest) -> (r: Option<&'static str>)
    ensures
        match r {
            Some(l) => error_label(*req) == Some(l@),
            None => error_label(*req) is None,
        },
{
    match req {
        CliRequest::Message { .. } => Some("send"),
        CliRequest::Reaction => Some("reaction"),
        CliRequest::Edit => Some("edit"),
        CliRequest::RemoteDelete => Some("delete"),
        CliRequest::UpdateExpiration { .. } => Some("expiration"),
        CliRequest::CreateGroup { .. } => Some("create group"),
        CliRequest::AddGroupMembers { .. } => Some("add member"),
        CliRequest::RemoveGroupMembers { .. } => Some("remove member"),
        CliRequest::RenameGroup { .. } => Some("rename group"),
        CliRequest::LeaveGroup { .. } => Some("leave group"),
        CliRequest::Block => Some("block"),
        CliRequest::Unblock => Some("unblock"),
        CliRequest::Pin => Some("pin"),
        CliRequest::Unpin => Some("unpin"),
        CliRequest::PollCreate => Some("poll"),
        CliRequest::PollVote => Some("vote"),
        CliRequest::PollTerminate => Some("end poll"),
        CliRequest::MessageRequestResponse { .. } => Some("message request"),
        CliRequest::TrustIdentity { .. } => Some("trust"),
        CliRequest::UpdateProfile => Some("profile"),
        _ => None,
    }
}

/// `prefix`, then `middle`, then `suffix`.
fn framed(prefix: &str, middle: &String, suffix: &str) -> (r: String)
    ensures
        r@ == prefix@ + middle@ + suffix@,
{
    let mut s = owned(prefix);
    append_chars(&mut s, &chars_of(middle.as_str()));
    append_chars(&mut s, &chars_of(suffix));
    s
}

/// The names joined with `", "`.
pub fn join_names_exec(names: &Vec<String>) -> (r: String)
    ensures
        r@ == join_names(views(names@)),
{
    let ghost vs = views(names@);
    let mut out = String::new();
    if names.len() == 0 {
        assert(vs.len() == 0);
        return out;
    }
    append_chars(&mut out, &chars_of(names[0].as_str()));
    assert(vs.take(1).drop_last() =~= seq![]);
    let mut i: usize = 1;
    while i < names.len()
        invariant
            1 <= i <= names@.len(),
            vs == views(names@),
            out@ == join_names(vs.take(i as int)),
        decreases names@.len() - i,
    {
        append_chars(&mut out, &chars_of(", "));
        append_chars(&mut out, &chars_of(names[i].as_str()));
        assert(vs.take(i + 1).drop_last() =~= vs.take(i as int));
        i += 1;
    }
    assert(vs.take(names@.len() as int) =~= vs);
    out
}

fn success_status_exec(req: &CliRequest) -> (r: CliStatus)
    ensures
        r.model() == success_status(*req),
{
    match req {
        CliRequest::UpdateExpiration { seconds } => if *seconds == 0 {
            CliStatus::Text(owned("Disappearing messages disabled"))
        } else {
            CliStatus::ExpirationSet(*seconds)
        },
        CliRequest::CreateGroup { name } => CliStatus::Text(framed("Created group \"", name, "\"")),
        CliRequest::AddGroupMembers { names } => {
            let mut s = owned("Added ");
            append_chars(&mut s, &chars_of(join_names_exec(names).as_str()));
            CliStatus::Text(s)
        },
        CliRequest::RemoveGroupMembers { names } => {
            let mut s = owned("Removed ");
            append_chars(&mut s, &chars_of(join_names_exec(names).as_str()));
            CliStatus::Text(s)
        },
        CliRequest::RenameGroup { name } => CliStatus::Text(
            framed("Renamed group to \"", name, "\""),
        ),
        CliRequest::LeaveGroup { name } => CliStatus::Text(framed("Left group \"", name, "\"")),
        CliRequest::MessageRequestResponse { response_type } => {
            let accept = owned("accept");
            let delete = owned("delete");
            if *response_type == accept {
                CliStatus::Text(owned("Message request accepted"))
            } else if *response_type == delete {
                CliStatus::Text(owned("Message request deleted"))
            } else {
                CliStatus::Text(String::new())
            }
        },
        CliRequest::TrustIdentity { display } => {
            let mut s = owned("Verified ");
            append_chars(&mut s, &chars_of(display.as_str()));
            CliStatus::Text(s)
        },
        CliRequest::UpdateProfile => CliStatus::Text(owned("Profile updated")),
        _ => CliStatus::Unchanged,
    }
}

/// What to do once signal-cli answered `req`: `error` is the failure's text
/// when the call failed, `None` when it succeeded; `paste_dir` is where
/// pasted images are written.
pub fn cli_effects(req: &CliRequest, paste_dir: &str, error: &Option<String>) -> (r: CliEffects)
    ensures
        r.status.model() == cli_status(
            *req,
            match error {
                Some(e) => Some(e@),
                None => None,
            },
        ),
        r.track_send == (error is None && (req is Message || req is Edit || req is PollCreate)),
        r.mark_send_failed == (error is Some && (req is Message || req is PollCreate)),
        r.register_paste_cleanup == (error is None && pastes_attachment(*req, paste_dir@)),
        r.delete_paste_now == (error is Some && pastes_attachment(*req, paste_dir@)),
        r.refresh_groups == (error is None && (req is CreateGroup || req is AddGroupMembers
            || req is RemoveGroupMembers || req is RenameGroup)),
        r.refresh_identities == (error is None && req is TrustIdentity),
        r.rename_locally == (error is None && req is RenameGroup),
        r.forget_group == (error is None && req is LeaveGroup),
        r.clear_username_resolve == (error is Some && req is ResolveUsername),
{
    let ok = error.is_none();
    let paste = match req {
        CliRequest::Message { attachment: Some(path) } => path_starts_with(path.as_str(), paste_dir),
        _ => false,
    };
    let status = match error {
        Some(e) => match error_label_exec(req) {
            Some(label) => {
                let mut s = owned(label);
                append_chars(&mut s, &chars_of(" error: "));
                append_chars(&mut s, &chars_of(e.as_str()));
                CliStatus::Text(s)
            },
            None => match req {
                CliRequest::ResolveUsername => {
                    let mut s = owned("Username lookup failed: ");
                    append_chars(&mut s, &chars_of(e.as_str()));
                    CliStatus::Text(s)
                },
                _ => CliStatus::Unchanged,
            },
        },
        None => success_status_exec(req),
    };
    let sends = match req {
        CliRequest::Message { .. } | CliRequest::Edit | CliRequest::PollCreate => true,
        _ => false,
    };
    let optimistic = match req {
        CliRequest::Message { .. } | CliRequest::PollCreate => true,
        _ => false,
    };
    let group_change = match req {
        CliRequest::CreateGroup { .. } | CliRequest::AddGroupMembers { .. }
        | CliRequest::RemoveGroupMembers { .. } | CliRequest::RenameGroup { .. } => true,
        _ => false,
    };
    let trust = match req {
        CliRequest::TrustIdentity { .. } => true,
        _ => false,
    };
    let rename = match req {
        CliRequest::RenameGroup { .. } => true,
        _ => false,
    };
    let leave = match req {
        CliRequest::LeaveGroup { .. } => true,
        _ => false,
    };
    let lookup = match req {
        CliRequest::ResolveUsername => true,
        _ => false,
    };
    CliEffects {
        status,
        track_send: ok && sends,
        mark_send_failed: !ok && optimistic,
        register_paste_cleanup: ok && paste,
        delete_paste_now: !ok && paste,
        refresh_groups: ok && group_change,
        refresh_identities: ok && trust,
        rename_locally: ok && rename,
        forget_group: ok && leave,
        clear_username_resolve: !ok && lookup,
    }
}

/// The quote sent along with a message or an edit: only when its author,
/// timestamp and body are all known.
pub fn quote_for_send(
    author: Option<String>,
    timestamp: Option<i64>,
    body: Option<String>,
) -> (r: Option<(String, i64, String)>)
    ensures
        r == (match (author, timestamp, body) {
            (Some(a), Some(t), Some(b)) => Some((a, t, b)),
            _ => None,
        }),
{
    match (author, timestamp, body) {
        (Some(a), Some(t), Some(b)) => Some((a, t, b)),
        _ => None,
    }
}

} // verus!
