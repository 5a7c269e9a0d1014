//! `/join`: which conversation a typed target names. The caller switches to
//! it (or creates it, or queues a username lookup); this module decides.
use vstd::prelude::*;

use crate::audio::{ascii_lowercase, to_ascii_lowercase};
use crate::autocomplete::{contains_chars, contains_seq, lower_chars, lowercase_of, ConversationRow};
use crate::text::{append_chars, chars_of, matches_at, occurs_at, owned, string_from_range};

verus! {

/// What joining a target does.
pub enum JoinDecision {
    /// Open (or create) the 1:1 conversation with this contact key, named
    /// after the contact, else `fallback_name`.
    OpenContact { key: String, fallback_name: String },
    /// Switch to this existing conversation.
    Activate { id: String },
    /// Look the username up first; show `status` meanwhile.
    ResolveUsername { username: String, status: String },
    /// Create a 1:1 conversation with this phone number.
    CreateDirect { number: String },
    /// Nothing to open: show `status`.
    Report { status: String },
}

/// [`JoinDecision`] over plain values.
pub enum JoinDecisionModel {
    OpenContact(Seq<char>, Seq<char>),
    Activate(Seq<char>),
    ResolveUsername(Seq<char>, Seq<char>),
    CreateDirect(Seq<char>),
    Report(Seq<char>),
}

impl JoinDecision {
    pub open spec fn model(self) -> JoinDecisionModel {
        match self {
            JoinDecision::OpenContact { key, fallback_name } => JoinDecisionModel::OpenContact(
                key@,
                fallback_name@,
            ),
            JoinDecision::Activate { id } => JoinDecisionModel::Activate(id@),
            JoinDecision::ResolveUsername { username, status } => JoinDecisionModel::ResolveUsername(
                username@,
                status@,
            ),
            JoinDecision::CreateDirect { number } => JoinDecisionModel::CreateDirect(number@),
            JoinDecision::Report { status } => JoinDecisionModel::Report(status@),
        }
    }
}

/// The username of an `@handle` or `u:handle` target.
pub open spec fn handle_of(t: Seq<char>) -> Option<Seq<char>> {
    if t.len() > 0 && t[0] == '@' {
        Some(t.drop_first())
    } else if occurs_at(t, "u:"@, 0) {
        Some(t.skip(2))
    } else {
        None
    }
}

/// The value of the first pair from `k` on whose key is `key`.
pub open spec fn value_for(pairs: Seq<(Seq<char>, Seq<char>)>, key: Seq<char>, k: int) -> Option<
    Seq<char>,
>
    decreases pairs.len() - k,
{
    if k < 0 || k >= pairs.len() {
        None
    } else if pairs[k].0 == key {
        Some(pairs[k].1)
    } else {
        value_for(pairs, key, k + 1)
    }
}

/// The id of the first conversation from `k` on named `t`, ignoring ASCII case.
pub open spec fn named_ignoring_case(cvs: Seq<ConversationRow>, t: Seq<char>, k: int) -> Option<
    Seq<char>,
>
    decreases cvs.len() - k,
{
    if k < 0 || k >= cvs.len() {
        None
    } else if ascii_lowercase(cvs[k].name@) == ascii_lowercase(t) {
        Some(cvs[k].id@)
    } else {
        named_ignoring_case(cvs, t, k + 1)
    }
}

/// The id of the first conversation from `k` on whose lower-cased name
/// contains `lower`.
pub open spec fn name_containing(cvs: Seq<ConversationRow>, lower: Seq<char>, k: int) -> Option<
    Seq<char>,
>
    decreases cvs.len() - k,
{
    if k < 0 || k >= cvs.len() {
        None
    } else if contains_seq(lowercase_of(cvs[k].name@), lower) {
        Some(cvs[k].id@)
    } else {
        name_containing(cvs, lower, k + 1)
    }
}

pub open spec fn has_id(cvs: Seq<ConversationRow>, id: Seq<char>) -> bool {
    exists|k: int| 0 <= k < cvs.len() && (#[trigger] cvs[k]).id@ == id
}

pub open spec fn views(v: Seq<String>) -> Seq<Seq<char>> {
    v.map_values(|s: String| s@)
}

pub open spec fn pairs_view(v: Seq<(String, String)>) -> Seq<(Seq<char>, Seq<char>)> {
    v.map_values(|p: (String, String)| (p.0@, p.1@))
}

/// Joining `t`, with `usernames` mapping lower-cased usernames to contact
/// keys, the conversations (in the order searched), the known contact keys
/// and the group ids:
/// - `@handle` / `u:handle`: a known username opens its contact; else a
///   conversation named like the target (ASCII case ignored) is activated;
///   else a full handle (with a `.`) is looked up; else it is reported.
/// - otherwise: a conversation with that exact id, else the first whose
///   name contains the lower-cased target, else a known contact key that is
///   not a group, else a new conversation for a `+` number, else "not found".
pub open spec fn join_decision_spec(
    t: Seq<char>,
    usernames: Seq<(Seq<char>, Seq<char>)>,
    cvs: Seq<ConversationRow>,
    contact_keys: Seq<Seq<char>>,
    group_ids: Seq<Seq<char>>,
) -> JoinDecisionModel {
    match handle_of(t) {
        Some(h) => {
            let hl = lowercase_of(h);
            match value_for(usernames, hl, 0) {
                Some(key) => JoinDecisionModel::OpenContact(key, "@"@ + h),
                None => match named_ignoring_case(cvs, t, 0) {
                    Some(id) => JoinDecisionModel::Activate(id),
                    None => if hl.contains('.') {
                        JoinDecisionModel::ResolveUsername(hl, "Resolving @"@ + hl + "..."@)
                    } else {
                        JoinDecisionModel::Report(
                            "Unknown username @"@ + h + " - use the full handle (name.123)"@,
                        )
                    },
                },
            }
        },
        None => if has_id(cvs, t) {
            JoinDecisionModel::Activate(t)
        } else {
            match name_containing(cvs, lowercase_of(t), 0) {
                Some(id) => JoinDecisionModel::Activate(id),
                None => if contact_keys.contains(t) && !group_ids.contains(t) {
                    JoinDecisionModel::OpenContact(t, t)
                } else if t.len() > 0 && t[0] == '+' {
                    JoinDecisionModel::CreateDirect(t)
                } else {
                    JoinDecisionModel::Report("Conversation not found: "@ + t)
                },
            }
        },
    }
}

fn contains_string(v: &Vec<String>, s: &String) -> (r: bool)
    ensures
        r == views(v@).contains(s@),
{
    let ghost vs = views(v@);
    let mut k: usize = 0;
    while k < v.len()
        invariant
            k <= v@.len(),
            vs == views(v@),
            forall|j: int| 0 <= j < k ==> vs[j] != s@,
        decreases v@.len() - k,
    {
        if v[k] == *s {
            assert(vs[k as int] == s@);
            return true;
        }
        k += 1;
    }
    false
}

fn has_dot(cs: &Vec<char>) -> (r: bool)
    ensures
        r == cs@.contains('.'),
{
    let mut i: usize = 0;
    while i < cs.len()
        invariant
            i <= cs@.len(),
            forall|j: int| 0 <= j < i ==> cs@[j] != '.',
        decreases cs@.len() - i,
    {
        if cs[i] == '.' {
            assert(cs@[i as int] == '.');
            return true;
        }
        i += 1;
    }
    false
}

fn concat(parts: &Vec<&str>, middle: &Vec<char>, tail: &str) -> (r: String)
    requires
        parts@.len() == 1,
    ensures
        r@ == parts@[0]@ + middle@ + tail@,
{
    let mut s = owned(parts[0]);
    append_chars(&mut s, middle);
    append_chars(&mut s, &chars_of(tail));
    s
}

fn handle_decision(
    target: &str,
    h: &Vec<char>,
    usernames: &Vec<(String, String)>,
    conversations: &Vec<ConversationRow>,
) -> (r: JoinDecision)
    requires
        handle_of(target@) == Some(h@),
    ensures
        r.model() == join_decision_spec(target@, pairs_view(usernames@), conversations@, seq![], seq![]),
{
    let hs = string_from_range(h, 0, h.len());
    assert(h@.subrange(0, h@.len() as int) =~= h@);
    let hl = lower_chars(hs.as_str());
    let ghost us = pairs_view(usernames@);
    let mut k: usize = 0;
    while k < usernames.len()
        invariant
            k <= usernames@.len(),
            us == pairs_view(usernames@),
            hl@ == lowercase_of(h@),
            handle_of(target@) == Some(h@),
            value_for(us, hl@, 0) == value_for(us, hl@, k as int),
        decreases usernames@.len() - k,
    {
        let key_chars = chars_of(usernames[k].0.as_str());
        if key_chars.len() == hl.len() && matches_at(&key_chars, &hl, 0) {
            assert(key_chars@.subrange(0, hl@.len() as int) =~= key_chars@);
            assert(us[k as int] == (usernames@[k as int].0@, usernames@[k as int].1@));
            let key = usernames[k].1.clone();
            let fallback = concat(&vec!["@"], h, "");
            proof {
                reveal_strlit("");
                assert("@"@ + h@ + ""@ =~= "@"@ + h@);
            }
            return JoinDecision::OpenContact { key, fallback_name: fallback };
        }
        proof {
            if key_chars@.len() == hl@.len() {
                assert(key_chars@.subrange(0, hl@.len() as int) =~= key_chars@);
            }
        }
        k += 1;
    }
    let t_lower = to_ascii_lowercase(target);
    let mut c: usize = 0;
    while c < conversations.len()
        invariant
            c <= conversations@.len(),
            t_lower@ == ascii_lowercase(target@),
            us == pairs_view(usernames@),
            hl@ == lowercase_of(h@),
            handle_of(target@) == Some(h@),
            value_for(us, hl@, 0) is None,
            named_ignoring_case(conversations@, target@, 0) == named_ignoring_case(
                conversations@,
                target@,
                c as int,
            ),
        decreases conversations@.len() - c,
    {
        let n = to_ascii_lowercase(conversations[c].name.as_str());
        if n == t_lower {
            return JoinDecision::Activate { id: conversations[c].id.clone() };
        }
        c += 1;
    }
    if has_dot(&hl) {
        let username = string_from_range(&hl, 0, hl.len());
        assert(hl@.subrange(0, hl@.len() as int) =~= hl@);
        let status = concat(&vec!["Resolving @"], &hl, "...");
        JoinDecision::ResolveUsername { username, status }
    } else {
        let status = concat(&vec!["Unknown username @"], h, " - use the full handle (name.123)");
        JoinDecision::Report { status }
    }
}

/// Decide what `/join target` opens (see [`join_decision_spec`]).
pub fn join_decision(
    target: &str,
    usernames: &Vec<(String, String)>,
    conversations: &Vec<ConversationRow>,
    contact_keys: &Vec<String>,
    group_ids: &Vec<String>,
) -> (r: JoinDecision)
    ensures
        r.model() == join_decision_spec(
            target@,
            pairs_view(usernames@),
            conversations@,
            views(contact_keys@),
            views(group_ids@),
        ),
{
    let cs = chars_of(target);
    let u_pat = chars_of("u:");
    if cs.len() > 0 && cs[0] == '@' {
        let h = string_from_range(&cs, 1, cs.len());
        let hc = chars_of(h.as_str());
        assert(hc@ =~= target@.drop_first());
        return handle_decision(target, &hc, usernames, conversations);
    }
    if matches_at(&cs, &u_pat, 0) {
        proof {
            reveal_strlit("u:");
        }
        let h = string_from_range(&cs, 2, cs.len());
        let hc = chars_of(h.as_str());
        assert(hc@ =~= target@.skip(2));
        return handle_decision(target, &hc, usernames, conversations);
    }
    assert(handle_of(target@) is None) by {
        reveal_strlit("u:");
    }
    let t = owned(target);
    let mut k: usize = 0;
    while k < conversations.len()
        invariant
            k <= conversations@.len(),
            t@ == target@,
            handle_of(target@) is None,
            forall|j: int| 0 <= j < k ==> (#[trigger] conversations@[j]).id@ != target@,
        decreases conversations@.len() - k,
    {
        if conversations[k].id == t {
            assert(conversations@[k as int].id@ == target@);
            return JoinDecision::Activate { id: t };
        }
        k += 1;
    }
    let tl = lower_chars(target);
    let mut c: usize = 0;
    while c < conversations.len()
        invariant
            c <= conversations@.len(),
            tl@ == lowercase_of(target@),
            handle_of(target@) is None,
            !has_id(conversations@, target@),
            name_containing(conversations@, tl@, 0) == name_containing(
                conversations@,
                tl@,
                c as int,
            ),
        decreases conversations@.len() - c,
    {
        if contains_chars(&lower_chars(conversations[c].name.as_str()), &tl) {
            return JoinDecision::Activate { id: conversations[c].id.clone() };
        }
        c += 1;
    }
    if contains_string(contact_keys, &t) && !contains_string(group_ids, &t) {
        return JoinDecision::OpenContact { key: t.clone(), fallback_name: t };
    }
    if cs.len() > 0 && cs[0] == '+' {
        return JoinDecision::CreateDirect { number: t };
    }
    let status = concat(&vec!["Conversation not found: "], &cs, "");
    proof {
        reveal_strlit("");
        assert("Conversation not found: "@ + target@ + ""@ =~= "Conversation not found: "@
            + target@);
    }
    JoinDecision::Report { status }
}

proof fn lemma_value_for(pairs: Seq<(Seq<char>, Seq<char>)>, key: Seq<char>, k: int)
    requires
        0 <= k,
    ensures
        value_for(pairs, key, k) matches Some(v) ==> exists|j: int|
            k <= j < pairs.len() && (#[trigger] pairs[j]).0 == key && pairs[j].1 == v,
    decreases pairs.len() - k,
{
    if k < pairs.len() && pairs[k].0 != key {
        lemma_value_for(pairs, key, k + 1);
    }
}

proof fn lemma_named_ignoring_case(cvs: Seq<ConversationRow>, t: Seq<char>, k: int)
    requires
        0 <= k,
    ensures
        named_ignoring_case(cvs, t, k) matches Some(id) ==> exists|j: int|
            k <= j < cvs.len() && (#[trigger] cvs[j]).id@ == id && ascii_lowercase(cvs[j].name@)
                == ascii_lowercase(t),
    decreases cvs.len() - k,
{
    if k < cvs.len() && ascii_lowercase(cvs[k].name@) != ascii_lowercase(t) {
        lemma_named_ignoring_case(cvs, t, k + 1);
    }
}

proof fn lemma_name_containing(cvs: Seq<ConversationRow>, lower: Seq<char>, k: int)
    requires
        0 <= k,
    ensures
        name_containing(cvs, lower, k) matches Some(id) ==> exists|j: int|
            k <= j < cvs.len() && (#[trigger] cvs[j]).id@ == id && contains_seq(
                lowercase_of(cvs[j].name@),
                lower,
            ),
    decreases cvs.len() - k,
{
    if k < cvs.len() && !contains_seq(lowercase_of(cvs[k].name@), lower) {
        lemma_name_containing(cvs, lower, k + 1);
    }
}

/// `/join` only ever opens what exists or what the target names: an
/// activated conversation is one of the conversations (one with the target
/// as its id, or named like the target); a contact opened is the one a
/// known username maps to, or the target itself when it is a known contact
/// key and not a group; a new chat is only created for a `+` number that no
/// conversation has as its id; only a full handle (with a `.`) is looked up.
pub proof fn law_join_opens_only_what_the_target_names(
    t: Seq<char>,
    usernames: Seq<(Seq<char>, Seq<char>)>,
    cvs: Seq<ConversationRow>,
    contact_keys: Seq<Seq<char>>,
    group_ids: Seq<Seq<char>>,
)
    ensures
        join_decision_spec(t, usernames, cvs, contact_keys, group_ids) matches JoinDecisionModel::Activate(
            id,
        ) ==> exists|j: int| 0 <= j < cvs.len() && (#[trigger] cvs[j]).id@ == id,
        join_decision_spec(t, usernames, cvs, contact_keys, group_ids) matches JoinDecisionModel::OpenContact(
            key,
            _,
        ) ==> (exists|j: int| 0 <= j < usernames.len() && (#[trigger] usernames[j]).1 == key) || (
        key == t && contact_keys.contains(t) && !group_ids.contains(t)),
        join_decision_spec(t, usernames, cvs, contact_keys, group_ids) matches JoinDecisionModel::CreateDirect(
            n,
        ) ==> n == t && t.len() > 0 && t[0] == '+' && forall|j: int|
            0 <= j < cvs.len() ==> (#[trigger] cvs[j]).id@ != t,
        join_decision_spec(t, usernames, cvs, contact_keys, group_ids) matches JoinDecisionModel::ResolveUsername(
            u,
            _,
        ) ==> u.contains('.'),
{
    match handle_of(t) {
        Some(h) => {
            lemma_value_for(usernames, lowercase_of(h), 0);
            lemma_named_ignoring_case(cvs, t, 0);
        },
        None => {
            lemma_name_containing(cvs, lowercase_of(t), 0);
        },
    }
}

} // verus!
