//! Reacting to a message: which message the reaction targets, whose message
//! it is on the wire, and the toggle on the message's reaction list (one
//! reaction per user; the same emoji again takes it back).
use vstd::prelude::*;

verus! {

/// A reaction shown under a message: its emoji, who sent it, and whether it
/// is the user's own.
pub struct ReactionRow {
    pub emoji: String,
    pub sender: String,
    pub from_me: bool,
}

pub open spec fn row_view(r: ReactionRow) -> (Seq<char>, Seq<char>, bool) {
    (r.emoji@, r.sender@, r.from_me)
}

pub open spec fn rows_view(rs: Seq<ReactionRow>) -> Seq<(Seq<char>, Seq<char>, bool)> {
    rs.map_values(|r: ReactionRow| row_view(r))
}

/// The user's own reaction with this emoji.
pub open spec fn mine_with(r: (Seq<char>, Seq<char>, bool), emoji: Seq<char>) -> bool {
    r.2 && r.0 == emoji
}

/// The first `n` reactions without the user's own ones with this emoji.
pub open spec fn without_mine(rs: Seq<(Seq<char>, Seq<char>, bool)>, emoji: Seq<char>, n: int) -> Seq<
    (Seq<char>, Seq<char>, bool),
>
    decreases n,
{
    if n <= 0 {
        seq![]
    } else {
        without_mine(rs, emoji, n - 1) + if mine_with(rs[n - 1], emoji) {
            seq![]
        } else {
            seq![rs[n - 1]]
        }
    }
}

/// Index of the user's first own reaction from `k` on.
pub open spec fn first_mine(rs: Seq<(Seq<char>, Seq<char>, bool)>, k: int) -> Option<int>
    decreases rs.len() - k,
{
    if k < 0 || k >= rs.len() {
        None
    } else if rs[k].2 {
        Some(k)
    } else {
        first_mine(rs, k + 1)
    }
}

/// Reacting with `emoji`: when the user already reacted with it, the
/// reaction is taken back (all such own reactions go); else the user's
/// reaction becomes `emoji`, replacing their first one or added as "you".
pub open spec fn reaction_plan_spec(rs: Seq<(Seq<char>, Seq<char>, bool)>, emoji: Seq<char>) -> (
    bool,
    Seq<(Seq<char>, Seq<char>, bool)>,
) {
    if exists|k: int| 0 <= k < rs.len() && mine_with(#[trigger] rs[k], emoji) {
        (true, without_mine(rs, emoji, rs.len() as int))
    } else {
        match first_mine(rs, 0) {
            Some(k) => (false, rs.update(k, (emoji, rs[k].1, true))),
            None => (false, rs.push((emoji, "you"@, true))),
        }
    }
}

fn clone_reaction(r: &ReactionRow) -> (c: ReactionRow)
    ensures
        c == *r,
{
    ReactionRow { emoji: r.emoji.clone(), sender: r.sender.clone(), from_me: r.from_me }
}

fn has_mine_with(reactions: &Vec<ReactionRow>, e: &String) -> (r: bool)
    ensures
        r == exists|k: int| 0 <= k < reactions@.len() && mine_with(#[trigger] rows_view(reactions@)[k], e@),
{
    let ghost rs = rows_view(reactions@);
    let mut k: usize = 0;
    while k < reactions.len()
        invariant
            k <= reactions@.len(),
            rs == rows_view(reactions@),
            forall|j: int| 0 <= j < k ==> !mine_with(rs[j], e@),
        decreases reactions@.len() - k,
    {
        if reactions[k].from_me && reactions[k].emoji == *e {
            assert(mine_with(rs[k as int], e@));
            return true;
        }
        k += 1;
    }
    false
}

/// The toggle: whether this removes the user's reaction, and the message's
/// reactions afterwards.
pub fn reaction_plan(reactions: &Vec<ReactionRow>, emoji: &str) -> (r: (bool, Vec<ReactionRow>))
    ensures
        (r.0, rows_view(r.1@)) == reaction_plan_spec(rows_view(reactions@), emoji@),
{
    let ghost rs = rows_view(reactions@);
    let e = emoji.to_string();
    let remove = has_mine_with(reactions, &e);
    if remove {
        let mut out: Vec<ReactionRow> = Vec::new();
        let mut i: usize = 0;
        while i < reactions.len()
            invariant
                i <= reactions@.len(),
                rs == rows_view(reactions@),
                e@ == emoji@,
                rows_view(out@) == without_mine(rs, emoji@, i as int),
            decreases reactions@.len() - i,
        {
            let ghost before = out@;
            if !(reactions[i].from_me && reactions[i].emoji == e) {
                out.push(clone_reaction(&reactions[i]));
                assert(rows_view(out@) =~= rows_view(before).push(rs[i as int]));
            }
            i += 1;
        }
        return (true, out);
    }
    let mut out: Vec<ReactionRow> = Vec::new();
    let mut i: usize = 0;
    while i < reactions.len()
        invariant
            i <= reactions@.len(),
            rs == rows_view(reactions@),
            rows_view(out@) == rs.take(i as int),
        decreases reactions@.len() - i,
    {
        let ghost before = out@;
        out.push(clone_reaction(&reactions[i]));
        assert(rows_view(out@) =~= rows_view(before).push(rs[i as int]));
        assert(rs.take(i + 1) =~= rs.take(i as int).push(rs[i as int]));
        i += 1;
    }
    assert(rs.take(rs.len() as int) =~= rs);
    let mut j: usize = 0;
    while j < out.len() && !out[j].from_me
        invariant
            j <= out@.len(),
            rows_view(out@) == rs,
            first_mine(rs, 0) == first_mine(rs, j as int),
        decreases out@.len() - j,
    {
        j += 1;
    }
    if j < out.len() {
        let sender = out[j].sender.clone();
        out.set(j, ReactionRow { emoji: e, sender, from_me: true });
        assert(rows_view(out@) =~= rs.update(j as int, (emoji@, rs[j as int].1, true)));
    } else {
        out.push(ReactionRow { emoji: e, sender: "you".to_string(), from_me: true });
        assert(rows_view(out@) =~= rs.push((emoji@, "you"@, true)));
    }
    (false, out)
}

/// The message a reaction targets: the focused one, else the newest; `None`
/// when there is no such message.
pub fn reaction_target_index(focused: Option<usize>, len: usize) -> (r: Option<usize>)
    ensures
        r == ({
            let i: int = match focused {
                Some(f) => f as int,
                None => if len > 0 {
                    len - 1
                } else {
                    0
                },
            };
            if i < len {
                Some(i as usize)
            } else {
                None
            }
        }),
{
    let i = match focused {
        Some(f) => f,
        None => if len > 0 {
            len - 1
        } else {
            0
        },
    };
    if i < len {
        Some(i)
    } else {
        None
    }
}

/// The number or id of the contact whose display name is `name`: the first
/// such entry of `contacts` (number, name), if any.
pub open spec fn number_for_name(contacts: Seq<(Seq<char>, Seq<char>)>, name: Seq<char>, k: int) -> Option<
    Seq<char>,
>
    decreases contacts.len() - k,
{
    if k < 0 || k >= contacts.len() {
        None
    } else if contacts[k].1 == name {
        Some(contacts[k].0)
    } else {
        number_for_name(contacts, name, k + 1)
    }
}

pub open spec fn pairs_view(v: Seq<(String, String)>) -> Seq<(Seq<char>, Seq<char>)> {
    v.map_values(|p: (String, String)| (p.0@, p.1@))
}

/// The author of the reacted-to message, as the wire names it: the account
/// for one's own message, else the number of the contact with the sender's
/// display name, else the sender as shown.
pub open spec fn target_author_spec(
    is_outgoing: bool,
    account: Seq<char>,
    sender: Seq<char>,
    contacts: Seq<(Seq<char>, Seq<char>)>,
) -> Seq<char> {
    if is_outgoing {
        account
    } else {
        match number_for_name(contacts, sender, 0) {
            Some(n) => n,
            None => sender,
        }
    }
}

/// The wire author of the reacted-to message; `contacts` lists the known
/// (number, display name) pairs.
pub fn reaction_target_author(
    is_outgoing: bool,
    account: &String,
    sender: &String,
    contacts: &Vec<(String, String)>,
) -> (r: String)
    ensures
        r@ == target_author_spec(is_outgoing, account@, sender@, pairs_view(contacts@)),
{
    if is_outgoing {
        return account.clone();
    }
    let ghost cs = pairs_view(contacts@);
    let mut k: usize = 0;
    while k < contacts.len()
        invariant
            k <= contacts@.len(),
            cs == pairs_view(contacts@),
            !is_outgoing,
            number_for_name(cs, sender@, 0) == number_for_name(cs, sender@, k as int),
        decreases contacts@.len() - k,
    {
        if contacts[k].1 == *sender {
            assert(cs[k as int] == (contacts@[k as int].0@, contacts@[k as int].1@));
            let n = contacts[k].0.clone();
            assert(n@ == cs[k as int].0);
            assert(number_for_name(cs, sender@, k as int) == Some(cs[k as int].0));
            return n;
        }
        k += 1;
    }
    sender.clone()
}

proof fn lemma_without_mine(rs: Seq<(Seq<char>, Seq<char>, bool)>, emoji: Seq<char>, n: int, i: int)
    requires
        0 <= n <= rs.len(),
        0 <= i < without_mine(rs, emoji, n).len(),
    ensures
        !mine_with(without_mine(rs, emoji, n)[i], emoji),
        rs.contains(without_mine(rs, emoji, n)[i]),
    decreases n,
{
    let prev = without_mine(rs, emoji, n - 1);
    let tail = if mine_with(rs[n - 1], emoji) {
        seq![]
    } else {
        seq![rs[n - 1]]
    };
    assert(without_mine(rs, emoji, n) == prev + tail);
    if i < prev.len() {
        lemma_without_mine(rs, emoji, n - 1, i);
        assert((prev + tail)[i] == prev[i]);
    } else {
        assert((prev + tail)[i] == tail[0]);
        assert(rs[n - 1] == tail[0]);
    }
}

proof fn lemma_without_mine_keeps_others(rs: Seq<(Seq<char>, Seq<char>, bool)>, emoji: Seq<char>, n: int, k: int)
    requires
        0 <= k < n <= rs.len(),
        !mine_with(rs[k], emoji),
    ensures
        without_mine(rs, emoji, n).contains(rs[k]),
    decreases n,
{
    let prev = without_mine(rs, emoji, n - 1);
    let tail = if mine_with(rs[n - 1], emoji) {
        seq![]
    } else {
        seq![rs[n - 1]]
    };
    assert(without_mine(rs, emoji, n) == prev + tail);
    if k < n - 1 {
        lemma_without_mine_keeps_others(rs, emoji, n - 1, k);
        let j = choose|j: int| 0 <= j < prev.len() && prev[j] == rs[k];
        assert((prev + tail)[j] == prev[j]);
    } else {
        assert((prev + tail)[prev.len() as int] == rs[k]);
    }
}

/// Reacting toggles: it takes the reaction back exactly when the user had
/// already reacted with that emoji, and then no such reaction is left while
/// every other reaction stays; otherwise the user ends up with a reaction of
/// that emoji and everyone else's reactions keep their places.
pub proof fn law_reaction_toggles(rs: Seq<(Seq<char>, Seq<char>, bool)>, emoji: Seq<char>)
    ensures
        reaction_plan_spec(rs, emoji).0 <==> exists|k: int| 0 <= k < rs.len() && rs[k].2 && #[trigger] rs[k].0 == emoji,
        reaction_plan_spec(rs, emoji).0 ==> {
            let after = reaction_plan_spec(rs, emoji).1;
            &&& forall|i: int| 0 <= i < after.len() ==> !((#[trigger] after[i]).2 && after[i].0 == emoji)
            &&& forall|i: int| 0 <= i < after.len() ==> rs.contains(#[trigger] after[i])
            &&& forall|k: int| 0 <= k < rs.len() && !(rs[k].2 && rs[k].0 == emoji) ==> after.contains(#[trigger] rs[k])
        },
        !reaction_plan_spec(rs, emoji).0 ==> {
            let after = reaction_plan_spec(rs, emoji).1;
            &&& after.len() >= rs.len()
            &&& exists|i: int| 0 <= i < after.len() && (#[trigger] after[i]).2 && after[i].0 == emoji
            &&& forall|k: int| 0 <= k < rs.len() && !rs[k].2 ==> #[trigger] after[k] == rs[k]
        },
{
    let has = exists|k: int| 0 <= k < rs.len() && mine_with(#[trigger] rs[k], emoji);
    assert(has <==> exists|k: int| 0 <= k < rs.len() && rs[k].2 && #[trigger] rs[k].0 == emoji) by {
        if has {
            let k = choose|k: int| 0 <= k < rs.len() && mine_with(#[trigger] rs[k], emoji);
            assert(rs[k].2 && rs[k].0 == emoji);
        }
        if exists|k: int| 0 <= k < rs.len() && rs[k].2 && #[trigger] rs[k].0 == emoji {
            let k = choose|k: int| 0 <= k < rs.len() && rs[k].2 && #[trigger] rs[k].0 == emoji;
            assert(mine_with(rs[k], emoji));
        }
    }
    assert(reaction_plan_spec(rs, emoji).0 == has);
    if has {
        let after = without_mine(rs, emoji, rs.len() as int);
        assert forall|i: int| 0 <= i < after.len() implies !((#[trigger] after[i]).2 && after[i].0 == emoji)
            && rs.contains(after[i]) by {
            lemma_without_mine(rs, emoji, rs.len() as int, i);
        }
        assert forall|k: int| 0 <= k < rs.len() && !(rs[k].2 && rs[k].0 == emoji) implies after.contains(
            #[trigger] rs[k],
        ) by {
            lemma_without_mine_keeps_others(rs, emoji, rs.len() as int, k);
        }
    } else {
        lemma_first_mine(rs, 0);
        match first_mine(rs, 0) {
            Some(j) => {
                let after = rs.update(j, (emoji, rs[j].1, true));
                assert(after[j].2 && after[j].0 == emoji);
                assert(reaction_plan_spec(rs, emoji) == (false, after));
                assert forall|k: int| 0 <= k < rs.len() && !rs[k].2 implies #[trigger] after[k]
                    == rs[k] by {
                    assert(k != j);
                }
                assert(exists|i: int| 0 <= i < after.len() && (#[trigger] after[i]).2 && after[i].0 == emoji);
            },
            None => {
                let after = rs.push((emoji, "you"@, true));
                assert(after[rs.len() as int].2 && after[rs.len() as int].0 == emoji);
                assert(reaction_plan_spec(rs, emoji) == (false, after));
                assert forall|k: int| 0 <= k < rs.len() && !rs[k].2 implies #[trigger] after[k]
                    == rs[k] by {
                }
                assert(exists|i: int| 0 <= i < after.len() && (#[trigger] after[i]).2 && after[i].0 == emoji);
            },
        }
    }
}

proof fn lemma_first_mine(rs: Seq<(Seq<char>, Seq<char>, bool)>, k: int)
    requires
        0 <= k <= rs.len(),
    ensures
        first_mine(rs, k) matches Some(j) ==> k <= j < rs.len() && rs[j].2,
    decreases rs.len() - k,
{
    if k < rs.len() && !rs[k].2 {
        lemma_first_mine(rs, k + 1);
    }
}

} // verus!
