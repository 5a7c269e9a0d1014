//! A conversation's message list in memory: placing a new message, and
//! sweeping out disappearing messages that expired, with the read marker and
//! the focused message kept pointing at the same messages. Persisting to the
//! database is the caller's part.
use vstd::prelude::*;

verus! {

/// A message as the list keeps it.
pub struct MessageModel {
    pub timestamp_ms: i64,
    /// Disappearing-message timer; 0 when the message does not expire.
    pub expires_in_seconds: i64,
    /// When the timer started (ms since the epoch); 0 before it started.
    pub expiration_start_ms: i64,
    pub sender: String,
    pub body: String,
    pub is_system: bool,
}

/// A conversation's messages, oldest first, and whether it is archived.
pub struct ConversationModel {
    pub messages: Vec<MessageModel>,
    pub archived: bool,
}

/// Messages are in timestamp order.
pub open spec fn sorted_by_time(s: Seq<MessageModel>) -> bool {
    forall|i: int, j: int|
        0 <= i <= j < s.len() ==> (#[trigger] s[i]).timestamp_ms <= (#[trigger] s[j]).timestamp_ms
}

/// How many of the first `n` messages are no later than `t`.
pub open spec fn count_not_after(s: Seq<MessageModel>, t: i64, n: int) -> nat
    decreases n,
{
    if n <= 0 {
        0
    } else {
        count_not_after(s, t, n - 1) + if s[n - 1].timestamp_ms <= t {
            1nat
        } else {
            0
        }
    }
}

/// Where a new message goes: after every message no later than it when
/// inserting in order, else at the end.
pub open spec fn insert_position(s: Seq<MessageModel>, t: i64, ordered: bool) -> int {
    if ordered {
        count_not_after(s, t, s.len() as int) as int
    } else {
        s.len() as int
    }
}

/// In a sorted list, the first `count_not_after` messages are exactly those
/// no later than `t`.
proof fn lemma_count_not_after(s: Seq<MessageModel>, t: i64, n: int)
    requires
        sorted_by_time(s),
        0 <= n <= s.len(),
    ensures
        count_not_after(s, t, n) <= n,
        forall|k: int| 0 <= k < n ==> (k < count_not_after(s, t, n) <==> #[trigger] s[k].timestamp_ms <= t),
    decreases n,
{
    if n > 0 {
        lemma_count_not_after(s, t, n - 1);
        let c = count_not_after(s, t, n - 1);
        if s[n - 1].timestamp_ms <= t {
            if n >= 2 {
                assert(s[n - 2].timestamp_ms <= s[n - 1].timestamp_ms);
                assert(n - 2 < c);
            }
            assert forall|k: int| 0 <= k < n implies (k < count_not_after(s, t, n) <==> #[trigger] s[k].timestamp_ms <= t) by {
                assert(s[k].timestamp_ms <= s[n - 1].timestamp_ms);
            }
        }
    }
}

/// An in-order insert into a time-ordered list lands after every message
/// sent no later than the new one and before every later one.
pub proof fn law_ordered_insert_position(s: Seq<MessageModel>, t: i64, k: int)
    requires
        sorted_by_time(s),
        0 <= k < s.len(),
    ensures
        k < insert_position(s, t, true) ==> s[k].timestamp_ms <= t,
        k >= insert_position(s, t, true) ==> s[k].timestamp_ms > t,
        0 <= insert_position(s, t, true) <= s.len(),
{
    lemma_count_not_after(s, t, s.len() as int);
}

fn count_not_after_exec(s: &Vec<MessageModel>, t: i64) -> (r: usize)
    ensures
        r == count_not_after(s@, t, s@.len() as int),
        r <= s@.len(),
{
    let mut c: usize = 0;
    let mut k: usize = 0;
    while k < s.len()
        invariant
            k <= s@.len(),
            c == count_not_after(s@, t, k as int),
            c <= k,
        decreases s@.len() - k,
    {
        if s[k].timestamp_ms <= t {
            c += 1;
        }
        k += 1;
    }
    c
}

/// Add a message to a conversation: in timestamp order when `ordered`,
/// else at the end. Any new message takes the conversation out of the
/// archive; an ordered insert at or before the read marker moves the marker
/// on by one; a disappearing message counts as one more expiring message.
/// Returns where the message went and whether the conversation was archived.
pub fn insert_message(
    conv: &mut ConversationModel,
    read_index: &mut Option<usize>,
    expiring: &mut usize,
    msg: MessageModel,
    ordered: bool,
) -> (r: (usize, bool))
    requires
        *old(read_index) matches Some(i) ==> i < usize::MAX,
        *old(expiring) < usize::MAX,
    ensures
        r.0 == insert_position(old(conv).messages@, msg.timestamp_ms, ordered),
        final(conv).messages@ == old(conv).messages@.take(r.0 as int).push(msg) + old(
            conv,
        ).messages@.skip(r.0 as int),
        !final(conv).archived,
        r.1 == old(conv).archived,
        *final(read_index) == (match *old(read_index) {
            Some(i) => if ordered && r.0 <= i {
                Some((i + 1) as usize)
            } else {
                Some(i)
            },
            None => None,
        }),
        *final(expiring) == *old(expiring) + (if msg.expires_in_seconds > 0 {
            1int
        } else {
            0
        }),
        ordered && sorted_by_time(old(conv).messages@) ==> sorted_by_time(final(conv).messages@),
{
    let ghost old_msgs = conv.messages@;
    let ts = msg.timestamp_ms;
    let expires = msg.expires_in_seconds > 0;
    let pos = if ordered {
        count_not_after_exec(&conv.messages, ts)
    } else {
        conv.messages.len()
    };
    conv.messages.insert(pos, msg);
    assert(old_msgs.insert(pos as int, msg) =~= old_msgs.take(pos as int).push(msg) + old_msgs.skip(
        pos as int,
    ));
    let was_archived = conv.archived;
    conv.archived = false;
    if ordered {
        if let Some(i) = *read_index {
            if pos <= i {
                *read_index = Some(i + 1);
            }
        }
    }
    if expires {
        *expiring = *expiring + 1;
    }
    proof {
        if ordered && sorted_by_time(old_msgs) {
            lemma_count_not_after(old_msgs, ts, old_msgs.len() as int);
            let n = conv.messages@;
            assert forall|i: int, j: int|
                0 <= i <= j < n.len() implies (#[trigger] n[i]).timestamp_ms <= (
            #[trigger] n[j]).timestamp_ms by {
                if i < pos && j < pos {
                    assert(n[i] == old_msgs[i] && n[j] == old_msgs[j]);
                } else if i < pos && j == pos {
                    assert(n[i] == old_msgs[i]);
                } else if i < pos {
                    assert(n[i] == old_msgs[i] && n[j] == old_msgs[j - 1]);
                } else if i == pos && j > pos {
                    assert(n[j] == old_msgs[j - 1]);
                } else if i > pos {
                    assert(n[i] == old_msgs[i - 1] && n[j] == old_msgs[j - 1]);
                }
            }
        }
    }
    (pos, was_archived)
}

/// A disappearing message whose timer ran out before `now`.
pub open spec fn expired(m: MessageModel, now: i64) -> bool {
    m.expires_in_seconds > 0 && m.expiration_start_ms > 0 && m.expiration_start_ms
        + m.expires_in_seconds * 1000 < now
}

/// How many of the first `n` messages expired.
pub open spec fn count_expired(s: Seq<MessageModel>, now: i64, n: int) -> nat
    decreases n,
{
    if n <= 0 {
        0
    } else {
        count_expired(s, now, n - 1) + if expired(s[n - 1], now) {
            1nat
        } else {
            0
        }
    }
}

/// The first `n` messages without the expired ones, in order.
pub open spec fn unexpired(s: Seq<MessageModel>, now: i64, n: int) -> Seq<MessageModel>
    decreases n,
{
    if n <= 0 {
        seq![]
    } else {
        unexpired(s, now, n - 1) + if expired(s[n - 1], now) {
            seq![]
        } else {
            seq![s[n - 1]]
        }
    }
}

/// Expired messages below a position: those before it (all of them when it
/// lies past the end).
pub open spec fn expired_below(s: Seq<MessageModel>, now: i64, idx: int) -> nat {
    count_expired(s, now, if idx < s.len() {
        idx
    } else {
        s.len() as int
    })
}

proof fn lemma_unexpired_len(s: Seq<MessageModel>, now: i64, n: int)
    requires
        0 <= n <= s.len(),
    ensures
        count_expired(s, now, n) <= n,
        unexpired(s, now, n).len() == n - count_expired(s, now, n),
    decreases n,
{
    if n > 0 {
        lemma_unexpired_len(s, now, n - 1);
    }
}

proof fn lemma_count_bounds(s: Seq<MessageModel>, now: i64, j: int, n: int)
    requires
        0 <= j <= n <= s.len(),
    ensures
        count_expired(s, now, j) <= count_expired(s, now, n) <= count_expired(s, now, j) + (n - j),
    decreases n - j,
{
    if j < n {
        lemma_count_bounds(s, now, j, n - 1);
    }
}

proof fn lemma_unexpired_index(s: Seq<MessageModel>, now: i64, n: int, k: int)
    requires
        0 <= k < n <= s.len(),
        !expired(s[k], now),
    ensures
        k - count_expired(s, now, k) < unexpired(s, now, n).len(),
        unexpired(s, now, n)[k - count_expired(s, now, k)] == s[k],
    decreases n,
{
    lemma_unexpired_len(s, now, n - 1);
    lemma_unexpired_len(s, now, n);
    lemma_count_bounds(s, now, k, n - 1);
    let u = unexpired(s, now, n - 1);
    let tail = if expired(s[n - 1], now) {
        seq![]
    } else {
        seq![s[n - 1]]
    };
    assert(unexpired(s, now, n) == u + tail);
    lemma_unexpired_len(s, now, k);
    let i = k - count_expired(s, now, k);
    if k < n - 1 {
        lemma_unexpired_index(s, now, n - 1, k);
        assert((u + tail)[i] == u[i]);
    } else {
        assert(i == u.len());
        assert((u + tail)[i] == tail[0]);
    }
}

fn clone_message(m: &MessageModel) -> (c: MessageModel)
    ensures
        c == *m,
{
    MessageModel {
        timestamp_ms: m.timestamp_ms,
        expires_in_seconds: m.expires_in_seconds,
        expiration_start_ms: m.expiration_start_ms,
        sender: m.sender.clone(),
        body: m.body.clone(),
        is_system: m.is_system,
    }
}

fn is_expired(m: &MessageModel, now: i64) -> (r: bool)
    ensures
        r == expired(*m, now),
{
    m.expires_in_seconds > 0 && m.expiration_start_ms > 0 && (m.expiration_start_ms as i128)
        + (m.expires_in_seconds as i128) * 1000 < (now as i128)
}

fn expired_below_exec(s: &Vec<MessageModel>, now: i64, idx: usize) -> (r: usize)
    ensures
        r == expired_below(s@, now, idx as int),
{
    let n = if idx < s.len() {
        idx
    } else {
        s.len()
    };
    let mut c: usize = 0;
    let mut k: usize = 0;
    while k < n
        invariant
            k <= n <= s@.len(),
            c == count_expired(s@, now, k as int),
            c <= k,
        decreases n - k,
    {
        if is_expired(&s[k], now) {
            c += 1;
        }
        k += 1;
    }
    c
}

/// Drop the conversation's expired disappearing messages (as of `now_ms`).
/// When any went, the read marker and the focused message keep pointing at
/// the same messages: each moves down by the number of removed messages
/// below it (the marker also stays within the list), and a focus on a
/// removed message is dropped. The expiring-message count goes down by the
/// number removed. Returns that number.
pub fn sweep_expired(
    conv: &mut ConversationModel,
    now_ms: i64,
    read_index: &mut Option<usize>,
    focus: &mut Option<usize>,
    expiring: &mut usize,
) -> (removed: usize)
    ensures
        removed == count_expired(old(conv).messages@, now_ms, old(conv).messages@.len() as int),
        final(conv).messages@ == unexpired(
            old(conv).messages@,
            now_ms,
            old(conv).messages@.len() as int,
        ),
        final(conv).archived == old(conv).archived,
        *final(expiring) == (if *old(expiring) >= removed {
            *old(expiring) - removed
        } else {
            0
        }),
        removed == 0 ==> *final(read_index) == *old(read_index) && *final(focus) == *old(focus),
        removed > 0 ==> *final(read_index) == (match *old(read_index) {
            Some(r) => Some(
                ({
                    let moved = r - expired_below(old(conv).messages@, now_ms, r as int);
                    let len = final(conv).messages@.len();
                    if moved < len {
                        moved
                    } else {
                        len as int
                    }
                }) as usize,
            ),
            None => None,
        }),
        removed > 0 ==> *final(focus) == (match *old(focus) {
            Some(f) => if f < old(conv).messages@.len() && expired(
                old(conv).messages@[f as int],
                now_ms,
            ) {
                None
            } else {
                Some((f - expired_below(old(conv).messages@, now_ms, f as int)) as usize)
            },
            None => None,
        }),
{
    let ghost s = conv.messages@;
    let mut kept: Vec<MessageModel> = Vec::new();
    let mut removed: usize = 0;
    let mut k: usize = 0;
    while k < conv.messages.len()
        invariant
            k <= s.len(),
            s == conv.messages@,
            kept@ == unexpired(s, now_ms, k as int),
            removed == count_expired(s, now_ms, k as int),
            removed <= k,
        decreases s.len() - k,
    {
        if is_expired(&conv.messages[k], now_ms) {
            removed += 1;
        } else {
            kept.push(clone_message(&conv.messages[k]));
        }
        assert(kept@ =~= unexpired(s, now_ms, k + 1));
        k += 1;
    }
    *expiring = if *expiring >= removed {
        *expiring - removed
    } else {
        0
    };
    if removed == 0 {
        conv.messages = kept;
        return 0;
    }
    if let Some(r) = *read_index {
        let below = expired_below_exec(&conv.messages, now_ms, r);
        proof {
            lemma_unexpired_len(s, now_ms, if r < s.len() {
                r as int
            } else {
                s.len() as int
            });
        }
        let moved = r - below;
        *read_index = Some(
            if moved < kept.len() {
                moved
            } else {
                kept.len()
            },
        );
    }
    if let Some(f) = *focus {
        if f < conv.messages.len() && is_expired(&conv.messages[f], now_ms) {
            *focus = None;
        } else {
            let below = expired_below_exec(&conv.messages, now_ms, f);
            proof {
                lemma_unexpired_len(s, now_ms, if f < s.len() {
                    f as int
                } else {
                    s.len() as int
                });
            }
            *focus = Some(f - below);
        }
    }
    conv.messages = kept;
    removed
}

/// Whether a message has expired depends on its disappearing timer alone:
/// changing when it was sent changes nothing.
pub proof fn law_expiry_ignores_send_time(m: MessageModel, sent: i64, now: i64)
    ensures
        expired(MessageModel { timestamp_ms: sent, ..m }, now) == expired(m, now),
{
}

/// A sweep removes a message only once its timer has run out: the timer has
/// a length and was started, and start plus length lies before `now`.
pub proof fn law_sweep_removes_only_run_out_timers(s: Seq<MessageModel>, now: i64, k: int)
    requires
        0 <= k < s.len(),
        s[k].expires_in_seconds <= 0 || s[k].expiration_start_ms <= 0
            || s[k].expiration_start_ms + s[k].expires_in_seconds * 1000 >= now,
    ensures
        !expired(s[k], now),
        k - expired_below(s, now, k) < unexpired(s, now, s.len() as int).len(),
        unexpired(s, now, s.len() as int)[k - expired_below(s, now, k)] == s[k],
{
    lemma_unexpired_index(s, now, s.len() as int, k);
}

/// A message whose started timer ran out before `now` is always removed:
/// the sweep keeps no such message.
pub proof fn law_sweep_drops_run_out_timers(s: Seq<MessageModel>, now: i64, j: int)
    requires
        0 <= j < unexpired(s, now, s.len() as int).len(),
    ensures
        ({
            let m = unexpired(s, now, s.len() as int)[j];
            !(m.expires_in_seconds > 0 && m.expiration_start_ms > 0 && m.expiration_start_ms
                + m.expires_in_seconds * 1000 < now)
        }),
{
    lemma_unexpired_members(s, now, s.len() as int, j);
}

proof fn lemma_unexpired_members(s: Seq<MessageModel>, now: i64, n: int, j: int)
    requires
        0 <= n <= s.len(),
        0 <= j < unexpired(s, now, n).len(),
    ensures
        !expired(unexpired(s, now, n)[j], now),
    decreases n,
{
    let u = unexpired(s, now, n - 1);
    let tail = if expired(s[n - 1], now) {
        seq![]
    } else {
        seq![s[n - 1]]
    };
    assert(unexpired(s, now, n) == u + tail);
    if j < u.len() {
        lemma_unexpired_members(s, now, n - 1, j);
        assert((u + tail)[j] == u[j]);
    } else {
        assert((u + tail)[j] == tail[j - u.len()]);
    }
}

/// A sweep moves a surviving focused message to its new position: the
/// message at the remapped index of the new list is the one that was focused.
pub proof fn law_sweep_keeps_focused_message(s: Seq<MessageModel>, now: i64, f: int)
    requires
        0 <= f < s.len(),
        !expired(s[f], now),
    ensures
        f - expired_below(s, now, f) < unexpired(s, now, s.len() as int).len(),
        unexpired(s, now, s.len() as int)[f - expired_below(s, now, f)] == s[f],
{
    lemma_unexpired_index(s, now, s.len() as int, f);
}

/// Messages loaded per page of history.
pub const PAGE_SIZE: usize = 100;

/// Prepend a page of older messages (oldest first). Indexes into the list
/// (the read marker, the focused message) move up by the page's length so
/// they keep pointing at the same messages. Returns whether more history may
/// remain: only a full page says so.
pub fn prepend_page(
    conv: &mut ConversationModel,
    page: Vec<MessageModel>,
    read_index: &mut Option<usize>,
    focus: &mut Option<usize>,
) -> (more: bool)
    requires
        *old(read_index) matches Some(i) ==> i + page@.len() <= usize::MAX,
        *old(focus) matches Some(f) ==> f + page@.len() <= usize::MAX,
    ensures
        more == (page@.len() >= PAGE_SIZE),
        final(conv).messages@ == page@ + old(conv).messages@,
        final(conv).archived == old(conv).archived,
        *final(read_index) == (match *old(read_index) {
            Some(i) => Some((i + page@.len()) as usize),
            None => None,
        }),
        *final(focus) == (match *old(focus) {
            Some(f) => Some((f + page@.len()) as usize),
            None => None,
        }),
{
    let n = page.len();
    let more = n >= PAGE_SIZE;
    let mut merged = page;
    let mut rest: Vec<MessageModel> = Vec::new();
    std::mem::swap(&mut rest, &mut conv.messages);
    merged.append(&mut rest);
    conv.messages = merged;
    if let Some(i) = *read_index {
        *read_index = Some(i + n);
    }
    if let Some(f) = *focus {
        *focus = Some(f + n);
    }
    more
}

/// After a page is prepended, every old message sits `n` places further up.
pub proof fn law_prepend_shifts_indexes(page: Seq<MessageModel>, old: Seq<MessageModel>, i: int)
    requires
        0 <= i < old.len(),
    ensures
        (page + old)[i + page.len()] == old[i],
{
}

} // verus!
