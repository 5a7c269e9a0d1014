//! Autocomplete for the input line: slash commands, `/join` targets and
//! `@` mentions, filtered by what was typed and ordered by display name.
use vstd::prelude::*;

use crate::audio::ascii_lowercase;
use crate::editing::{
    byte_offset, char_index, cursor_char_index, find_mention_trigger, is_cursor, last_at_sign,
    lemma_offset_is_cursor, mention_trigger,
};
use crate::text::{
    append_chars, chars_of, lemma_take_mono, lemma_utf8_len_is_encoding_len, matches_at, occurs_at,
    owned, string_from_range,
};

verus! {

/// What `str::to_lowercase` gives for a string: its Unicode lower case.
pub uninterp spec fn lowercase_of(s: Seq<char>) -> Seq<char>;

/// `str::to_lowercase`. Unicode lower-casing maps some chars to several and
/// depends on context (a final sigma), so the contract names the result
/// rather than restating the tables; it depends on the string alone. On
/// ASCII text it is ASCII lower-casing: only `A`-`Z` change, to `a`-`z`.
#[verifier::external_body]
pub(crate) fn to_lowercase(s: &str) -> (r: String)
    ensures
        r@ == lowercase_of(s@),
        (forall|k: int| 0 <= k < s@.len() ==> #[trigger] s@[k] < '\u{80}') ==> r@
            == ascii_lowercase(s@),
{
    s.to_lowercase()
}

/// `needle` occurs somewhere in `hay`.
pub open spec fn contains_seq(hay: Seq<char>, needle: Seq<char>) -> bool {
    exists|i: int| #[trigger] occurs_at(hay, needle, i)
}

/// Whether `needle` occurs somewhere in `hay`.
pub fn contains_chars(hay: &Vec<char>, needle: &Vec<char>) -> (r: bool)
    ensures
        r == contains_seq(hay@, needle@),
{
    let mut i: usize = 0;
    while i < hay.len()
        invariant
            i <= hay@.len(),
            forall|j: int| 0 <= j < i ==> !occurs_at(hay@, needle@, j),
        decreases hay@.len() - i,
    {
        if matches_at(hay, needle, i) {
            return true;
        }
        i += 1;
    }
    if matches_at(hay, needle, i) {
        return true;
    }
    assert forall|j: int| !occurs_at(hay@, needle@, j) by {
        if 0 <= j <= i {
        }
    }
    false
}

/// Lexicographic order of strings, char by char (the order `str`
/// comparison gives, since UTF-8 keeps the order of code points).
pub open spec fn key_le(a: Seq<char>, b: Seq<char>) -> bool
    decreases a.len(),
{
    if a.len() == 0 {
        true
    } else if b.len() == 0 {
        false
    } else if a[0] != b[0] {
        a[0] < b[0]
    } else {
        key_le(a.drop_first(), b.drop_first())
    }
}

fn key_le_exec(a: &Vec<char>, b: &Vec<char>) -> (r: bool)
    ensures
        r == key_le(a@, b@),
{
    let mut i: usize = 0;
    assert(a@.skip(0) =~= a@);
    assert(b@.skip(0) =~= b@);
    while i < a.len() && i < b.len() && a[i] == b[i]
        invariant
            i <= a@.len(),
            i <= b@.len(),
            key_le(a@, b@) == key_le(a@.skip(i as int), b@.skip(i as int)),
        decreases a@.len() - i,
    {
        assert(a@.skip(i as int).drop_first() =~= a@.skip(i + 1));
        assert(b@.skip(i as int).drop_first() =~= b@.skip(i + 1));
        i += 1;
    }
    if i == a.len() {
        true
    } else if i == b.len() {
        false
    } else {
        a[i] < b[i]
    }
}

/// `x` inserted into `t` after every item whose key is at most its own.
pub open spec fn insert_by<A>(t: Seq<A>, x: A, key: spec_fn(A) -> Seq<char>) -> Seq<A>
    decreases t.len(),
{
    if t.len() == 0 {
        seq![x]
    } else if key_le(key(t.last()), key(x)) {
        t.push(x)
    } else {
        insert_by(t.drop_last(), x, key).push(t.last())
    }
}

/// The stable sort of `s` by `key`: items with equal keys keep their order.
pub open spec fn sort_by<A>(s: Seq<A>, key: spec_fn(A) -> Seq<char>) -> Seq<A>
    decreases s.len(),
{
    if s.len() == 0 {
        seq![]
    } else {
        insert_by(sort_by(s.drop_last(), key), s.last(), key)
    }
}

/// `key_le` relates any two strings one way or the other.
proof fn lemma_key_le_total(a: Seq<char>, b: Seq<char>)
    ensures
        key_le(a, b) || key_le(b, a),
    decreases a.len(),
{
    if a.len() > 0 && b.len() > 0 {
        if a[0] == b[0] {
            lemma_key_le_total(a.drop_first(), b.drop_first());
        }
    }
}

proof fn lemma_key_le_prefix(a: Seq<char>, b: Seq<char>)
    ensures
        key_le(a, a + b),
    decreases a.len(),
{
    if a.len() > 0 {
        assert((a + b).drop_first() =~= a.drop_first() + b);
        lemma_key_le_prefix(a.drop_first(), b);
    }
}

proof fn lemma_key_le_first_difference(p: Seq<char>, x: char, y: char, a: Seq<char>, b: Seq<char>)
    requires
        x < y,
    ensures
        key_le(p.push(x) + a, p.push(y) + b),
        !key_le(p.push(y) + b, p.push(x) + a),
    decreases p.len(),
{
    if p.len() > 0 {
        assert((p.push(x) + a).drop_first() =~= p.drop_first().push(x) + a);
        assert((p.push(y) + b).drop_first() =~= p.drop_first().push(y) + b);
        lemma_key_le_first_difference(p.drop_first(), x, y, a, b);
    } else {
        assert((p.push(x) + a)[0] == x);
        assert((p.push(y) + b)[0] == y);
    }
}

/// The completion order is dictionary order on chars: a string comes no
/// later than any string it begins, and at the first differing char the
/// smaller char comes first.
pub proof fn law_key_order_is_dictionary_order(
    p: Seq<char>,
    x: char,
    y: char,
    a: Seq<char>,
    b: Seq<char>,
)
    ensures
        key_le(p, p + a),
        x < y ==> key_le(p.push(x) + a, p.push(y) + b) && !key_le(p.push(y) + b, p.push(x) + a),
{
    lemma_key_le_prefix(p, a);
    if x < y {
        lemma_key_le_first_difference(p, x, y, a, b);
    }
}

/// Items `i - 1` and `i` of `s` are in key order.
pub open spec fn in_key_order<A>(s: Seq<A>, key: spec_fn(A) -> Seq<char>, i: int) -> bool {
    key_le(key(s[i - 1]), key(s[i]))
}

/// Every item's key is at most the next one's.
pub open spec fn sorted_by_key<A>(s: Seq<A>, key: spec_fn(A) -> Seq<char>) -> bool {
    forall|i: int| 0 < i < s.len() ==> #[trigger] in_key_order(s, key, i)
}

proof fn lemma_insert_by<A>(t: Seq<A>, x: A, key: spec_fn(A) -> Seq<char>)
    requires
        sorted_by_key(t, key),
    ensures
        sorted_by_key(insert_by(t, x, key), key),
        insert_by(t, x, key).to_multiset() == t.to_multiset().insert(x),
        insert_by(t, x, key).len() == t.len() + 1,
        insert_by(t, x, key).last() == x || (t.len() > 0 && insert_by(t, x, key).last()
            == t.last()),
    decreases t.len(),
{
    broadcast use vstd::seq_lib::group_to_multiset_ensures;
    broadcast use vstd::multiset::group_multiset_axioms;

    if t.len() == 0 {
        assert(t.to_multiset() =~= vstd::multiset::Multiset::empty());
        assert(seq![x] =~= t.push(x));
    } else if key_le(key(t.last()), key(x)) {
        let r = t.push(x);
        assert forall|i: int| 0 < i < r.len() implies #[trigger] in_key_order(r, key, i) by {
            if i < t.len() {
                assert(in_key_order(t, key, i));
            }
        }
    } else {
        let t0 = t.drop_last();
        assert forall|i: int| 0 < i < t0.len() implies #[trigger] in_key_order(t0, key, i) by {
            assert(in_key_order(t, key, i));
        }
        lemma_insert_by(t0, x, key);
        let r0 = insert_by(t0, x, key);
        let r = r0.push(t.last());
        lemma_key_le_total(key(t.last()), key(x));
        assert forall|i: int| 0 < i < r.len() implies #[trigger] in_key_order(r, key, i) by {
            if i < r0.len() {
                assert(in_key_order(r0, key, i));
            } else {
                if r0.last() != x {
                    assert(in_key_order(t, key, t.len() - 1));
                }
            }
        }
        assert(t =~= t0.push(t.last()));
        assert(r0.to_multiset().insert(t.last()) =~= t0.to_multiset().insert(t.last()).insert(x));
    }
}

/// Sorting keeps exactly the same items (with their multiplicities) and
/// puts them in key order.
pub proof fn law_sort_by_orders_items<A>(s: Seq<A>, key: spec_fn(A) -> Seq<char>)
    ensures
        sorted_by_key(sort_by(s, key), key),
        sort_by(s, key).to_multiset() == s.to_multiset(),
    decreases s.len(),
{
    broadcast use vstd::seq_lib::group_to_multiset_ensures;

    if s.len() == 0 {
        assert(sort_by(s, key).to_multiset() =~= s.to_multiset());
    } else {
        law_sort_by_orders_items(s.drop_last(), key);
        lemma_insert_by(sort_by(s.drop_last(), key), s.last(), key);
        assert(s =~= s.drop_last().push(s.last()));
    }
}

proof fn lemma_map_insert<A, B>(
    t: Seq<A>,
    x: A,
    f: spec_fn(A) -> B,
    ka: spec_fn(A) -> Seq<char>,
    kb: spec_fn(B) -> Seq<char>,
)
    requires
        forall|a: A| #[trigger] ka(a) == kb(f(a)),
    ensures
        insert_by(t, x, ka).map_values(f) == insert_by(t.map_values(f), f(x), kb),
    decreases t.len(),
{
    let tm = t.map_values(f);
    assert(ka(x) == kb(f(x)));
    if t.len() == 0 {
        assert(insert_by(t, x, ka).map_values(f) =~= seq![f(x)]);
    } else {
        assert(ka(t.last()) == kb(f(t.last())));
        assert(tm.last() == f(t.last()));
        if key_le(ka(t.last()), ka(x)) {
            assert(t.push(x).map_values(f) =~= tm.push(f(x)));
        } else {
            lemma_map_insert(t.drop_last(), x, f, ka, kb);
            assert(t.drop_last().map_values(f) =~= tm.drop_last());
            assert(insert_by(t.drop_last(), x, ka).push(t.last()).map_values(f) =~= insert_by(
                t.drop_last(),
                x,
                ka,
            ).map_values(f).push(f(t.last())));
        }
    }
}

proof fn lemma_map_sort<A, B>(
    s: Seq<A>,
    f: spec_fn(A) -> B,
    ka: spec_fn(A) -> Seq<char>,
    kb: spec_fn(B) -> Seq<char>,
)
    requires
        forall|a: A| #[trigger] ka(a) == kb(f(a)),
    ensures
        sort_by(s, ka).map_values(f) == sort_by(s.map_values(f), kb),
    decreases s.len(),
{
    if s.len() == 0 {
        assert(sort_by(s, ka).map_values(f) =~= seq![]);
    } else {
        lemma_map_sort(s.drop_last(), f, ka, kb);
        lemma_map_insert(sort_by(s.drop_last(), ka), s.last(), f, ka, kb);
        assert(s.drop_last().map_values(f) =~= s.map_values(f).drop_last());
    }
}

/// Sort `items` stably by `keys` (the key of each item, in order).
fn sort_by_keys<A>(
    items: Vec<A>,
    keys: Vec<Vec<char>>,
    Ghost(key): Ghost<spec_fn(A) -> Seq<char>>,
) -> (r: Vec<A>)
    requires
        keys@.len() == items@.len(),
        forall|j: int| 0 <= j < items@.len() ==> (#[trigger] keys@[j])@ == key(items@[j]),
    ensures
        r@ == sort_by(items@, key),
{
    let ghost orig = items@;
    let ghost okeys = keys@;
    let n = items.len();
    let mut items = items;
    let mut keys = keys;
    let mut out: Vec<A> = Vec::new();
    let mut out_keys: Vec<Vec<char>> = Vec::new();
    let mut i: usize = 0;
    while i < n
        invariant
            n == orig.len(),
            i <= n,
            items@ == orig.skip(i as int),
            keys@ == okeys.skip(i as int),
            okeys.len() == orig.len(),
            forall|j: int| 0 <= j < orig.len() ==> (#[trigger] okeys[j])@ == key(orig[j]),
            out@ == sort_by(orig.take(i as int), key),
            out_keys@.len() == out@.len(),
            forall|j: int| 0 <= j < out@.len() ==> (#[trigger] out_keys@[j])@ == key(out@[j]),
        decreases n - i,
    {
        let x = items.remove(0);
        let kx = keys.remove(0);
        assert(items@ =~= orig.skip(i + 1));
        assert(keys@ =~= okeys.skip(i + 1));
        assert(x == orig[i as int]);
        assert(kx == okeys[i as int]);
        let ghost t = out@;
        let mut p = out.len();
        proof {
            assert(t.take(t.len() as int) =~= t);
            assert(insert_by(t, x, key) + t.skip(t.len() as int) =~= insert_by(t, x, key));
        }
        while p > 0 && !key_le_exec(&out_keys[p - 1], &kx)
            invariant
                p <= t.len(),
                out@ == t,
                out_keys@.len() == t.len(),
                forall|j: int| 0 <= j < t.len() ==> (#[trigger] out_keys@[j])@ == key(t[j]),
                kx@ == key(x),
                insert_by(t, x, key) == insert_by(t.take(p as int), x, key) + t.skip(p as int),
            decreases p,
        {
            let ghost tp = t.take(p as int);
            assert(tp.drop_last() =~= t.take(p - 1));
            assert(tp.last() == t[p - 1]);
            assert(insert_by(tp, x, key) == insert_by(t.take(p - 1), x, key).push(t[p - 1]));
            assert(insert_by(t.take(p - 1), x, key).push(t[p - 1]) + t.skip(p as int) =~= insert_by(
                t.take(p - 1),
                x,
                key,
            ) + t.skip(p - 1));
            p -= 1;
        }
        proof {
            if p == 0 {
                assert(t.take(0) =~= Seq::<A>::empty());
            } else {
                assert(t.take(p as int).last() == t[p - 1]);
            }
            assert(insert_by(t, x, key) =~= t.insert(p as int, x));
            assert(orig.take(i + 1).drop_last() =~= orig.take(i as int));
        }
        let ghost keys_before = out_keys@;
        out.insert(p, x);
        out_keys.insert(p, kx);
        proof {
            assert forall|j: int| 0 <= j < out@.len() implies (#[trigger] out_keys@[j])@ == key(
                out@[j],
            ) by {
                if j < p {
                } else if j == p {
                } else {
                    assert(out_keys@[j] == keys_before[j - 1]);
                }
            }
        }
        i += 1;
    }
    assert(orig.take(n as int) =~= orig);
    out
}

/// A slash command as the completion list offers it: its name and its
/// alias (empty when it has none), both with the leading `/`.
pub struct CommandName {
    pub name: String,
    pub alias: String,
}

/// A known contact: its key (a phone number, or a service id for a contact
/// known only by username), its display name, and its username if known.
pub struct ContactRow {
    pub key: String,
    pub name: String,
    pub username: Option<String>,
}

/// A known group.
pub struct GroupRow {
    pub id: String,
    pub name: String,
}

/// A conversation of the sidebar, in sidebar order.
pub struct ConversationRow {
    pub id: String,
    pub name: String,
    pub is_group: bool,
}

/// Someone who can be mentioned in the open conversation: the phone number
/// (or id), the contact name (the number itself when unknown), the service
/// id when known.
pub struct MentionRow {
    pub phone: String,
    pub name: String,
    pub uuid: Option<String>,
}

/// A `/join` target: what the list shows, and what is inserted.
pub struct JoinCandidate {
    pub display: String,
    pub value: String,
}

/// The completion list to show.
pub enum Completion {
    /// Indexes into the command table.
    Command { candidates: Vec<usize> },
    Join { candidates: Vec<JoinCandidate> },
    /// `trigger_pos` is the byte offset of the `@`.
    Mention { candidates: Vec<MentionRow>, trigger_pos: usize },
    /// Nothing matches: the list closes.
    Closed,
}

/// [`Completion`] over plain values.
pub enum CompletionModel {
    Command(Seq<usize>),
    Join(Seq<(Seq<char>, Seq<char>)>),
    Mention(Seq<MentionRow>, int),
    Closed,
}

pub open spec fn join_view(v: Seq<JoinCandidate>) -> Seq<(Seq<char>, Seq<char>)> {
    v.map_values(|c: JoinCandidate| (c.display@, c.value@))
}

impl Completion {
    pub open spec fn model(self) -> CompletionModel {
        match self {
            Completion::Command { candidates } => CompletionModel::Command(candidates@),
            Completion::Join { candidates } => CompletionModel::Join(join_view(candidates@)),
            Completion::Mention { candidates, trigger_pos } => CompletionModel::Mention(
                candidates@,
                trigger_pos as int,
            ),
            Completion::Closed => CompletionModel::Closed,
        }
    }

    pub open spec fn count(self) -> nat {
        match self {
            Completion::Command { candidates } => candidates@.len(),
            Completion::Join { candidates } => candidates@.len(),
            Completion::Mention { candidates, .. } => candidates@.len(),
            Completion::Closed => 0,
        }
    }
}

/// Command completion applies: the line starts with `/` and has no space.
pub open spec fn command_mode(buf: Seq<char>) -> bool {
    buf.len() > 0 && buf[0] == '/' && !buf.contains(' ')
}

pub open spec fn command_matches(c: CommandName, prefix: Seq<char>) -> bool {
    occurs_at(c.name@, prefix, 0) || (c.alias@.len() > 0 && occurs_at(c.alias@, prefix, 0))
}

/// Indexes of the first `n` commands whose name or alias starts with `prefix`.
pub open spec fn command_candidates(cmds: Seq<CommandName>, prefix: Seq<char>, n: int) -> Seq<
    usize,
>
    decreases n,
{
    if n <= 0 {
        seq![]
    } else {
        command_candidates(cmds, prefix, n - 1) + if command_matches(cmds[n - 1], prefix) {
            seq![(n - 1) as usize]
        } else {
            seq![]
        }
    }
}

/// The filter text of a `/join` line (after `/join ` or `/j `), if it is one.
pub open spec fn join_filter(buf: Seq<char>) -> Option<Seq<char>> {
    if occurs_at(buf, "/join "@, 0) {
        Some(buf.skip(6))
    } else if occurs_at(buf, "/j "@, 0) {
        Some(buf.skip(3))
    } else {
        None
    }
}

/// An empty filter passes everything; else one of the texts, lower-cased,
/// must contain it.
pub open spec fn passes2(filter: Seq<char>, a: Seq<char>, b: Seq<char>) -> bool {
    filter.len() == 0 || contains_seq(lowercase_of(a), filter) || contains_seq(
        lowercase_of(b),
        filter,
    )
}

/// A contact's `/join` entry: by number for phone keys, by `@username` for
/// the others that have one; contacts with neither are not offered.
pub open spec fn contact_entry(c: ContactRow) -> Option<(Seq<char>, Seq<char>)> {
    if c.key@.len() > 0 && c.key@[0] == '+' {
        Some((c.name@ + " ("@ + c.key@ + ")"@, c.key@))
    } else if c.username is Some {
        let h = c.username->0@;
        Some((c.name@ + " (@"@ + h + ")"@, "@"@ + h))
    } else {
        None
    }
}

pub open spec fn join_contacts(cs: Seq<ContactRow>, f: Seq<char>, n: int) -> Seq<
    (Seq<char>, Seq<char>),
>
    decreases n,
{
    if n <= 0 {
        seq![]
    } else {
        let tail = match contact_entry(cs[n - 1]) {
            Some((display, value)) => if passes2(f, cs[n - 1].name@, value) {
                seq![(display, value)]
            } else {
                seq![]
            },
            None => seq![],
        };
        join_contacts(cs, f, n - 1) + tail
    }
}

pub open spec fn join_groups(gs: Seq<GroupRow>, f: Seq<char>, n: int) -> Seq<(Seq<char>, Seq<char>)>
    decreases n,
{
    if n <= 0 {
        seq![]
    } else {
        join_groups(gs, f, n - 1) + if passes2(f, gs[n - 1].name@, gs[n - 1].name@) {
            seq![("#"@ + gs[n - 1].name@, gs[n - 1].id@)]
        } else {
            seq![]
        }
    }
}

pub open spec fn listed(acc: Seq<(Seq<char>, Seq<char>)>, id: Seq<char>) -> bool {
    exists|j: int| 0 <= j < acc.len() && (#[trigger] acc[j]).1 == id
}

pub open spec fn conversation_entry(c: ConversationRow) -> (Seq<char>, Seq<char>) {
    if c.is_group {
        ("#"@ + c.name@, c.id@)
    } else {
        (c.name@ + " ("@ + c.id@ + ")"@, c.id@)
    }
}

/// Conversations from `i` on that are not listed yet, appended to `acc`.
pub open spec fn join_conversations(
    cvs: Seq<ConversationRow>,
    f: Seq<char>,
    i: int,
    acc: Seq<(Seq<char>, Seq<char>)>,
) -> Seq<(Seq<char>, Seq<char>)>
    decreases cvs.len() - i,
{
    if i < 0 || i >= cvs.len() {
        acc
    } else {
        let c = cvs[i];
        let next = if !listed(acc, c.id@) && passes2(f, c.name@, c.id@) {
            acc.push(conversation_entry(c))
        } else {
            acc
        };
        join_conversations(cvs, f, i + 1, next)
    }
}

pub open spec fn join_key(p: (Seq<char>, Seq<char>)) -> Seq<char> {
    lowercase_of(p.0)
}

/// The `/join` list's sort key: the lower-cased display text.
pub open spec fn join_key_fn() -> spec_fn((Seq<char>, Seq<char>)) -> Seq<char> {
    |p: (Seq<char>, Seq<char>)| join_key(p)
}

/// The `/join` list: contacts, groups, then the conversations not yet
/// listed, filtered, sorted by lower-cased display text.
pub open spec fn join_candidates(
    cs: Seq<ContactRow>,
    gs: Seq<GroupRow>,
    cvs: Seq<ConversationRow>,
    f: Seq<char>,
) -> Seq<(Seq<char>, Seq<char>)> {
    sort_by(
        join_conversations(
            cvs,
            f,
            0,
            join_contacts(cs, f, cs.len() as int) + join_groups(gs, f, gs.len() as int),
        ),
        join_key_fn(),
    )
}

pub open spec fn mention_passes(r: MentionRow, f: Seq<char>) -> bool {
    f.len() == 0 || contains_seq(lowercase_of(r.name@), f) || contains_seq(r.phone@, f)
}

pub open spec fn mention_filter(rows: Seq<MentionRow>, f: Seq<char>, n: int) -> Seq<MentionRow>
    decreases n,
{
    if n <= 0 {
        seq![]
    } else {
        mention_filter(rows, f, n - 1) + if mention_passes(rows[n - 1], f) {
            seq![rows[n - 1]]
        } else {
            seq![]
        }
    }
}

pub open spec fn mention_key(r: MentionRow) -> Seq<char> {
    lowercase_of(r.name@)
}

/// The mention list's sort key: the lower-cased contact name.
pub open spec fn mention_key_fn() -> spec_fn(MentionRow) -> Seq<char> {
    |r: MentionRow| mention_key(r)
}

/// The completion for the line `buf` with the cursor at char index `k`:
/// commands first, then `/join` targets, then mentions (when a conversation
/// is open, given by its mentionable rows); the first non-empty list wins.
pub open spec fn completion_spec(
    buf: Seq<char>,
    k: int,
    cmds: Seq<CommandName>,
    cs: Seq<ContactRow>,
    gs: Seq<GroupRow>,
    cvs: Seq<ConversationRow>,
    rows: Option<Seq<MentionRow>>,
) -> CompletionModel {
    let cmd = command_candidates(cmds, lowercase_of(buf), cmds.len() as int);
    let join = match join_filter(buf) {
        Some(rest) => join_candidates(cs, gs, cvs, lowercase_of(rest)),
        None => seq![],
    };
    if command_mode(buf) && cmd.len() > 0 {
        CompletionModel::Command(cmd)
    } else if join_filter(buf) is Some && join.len() > 0 {
        CompletionModel::Join(join)
    } else {
        match (rows, mention_trigger(buf, k)) {
            (Some(rs), Some(a)) => {
                let m = sort_by(
                    mention_filter(rs, lowercase_of(buf.subrange(a + 1, k)), rs.len() as int),
                    mention_key_fn(),
                );
                if m.len() > 0 {
                    CompletionModel::Mention(m, byte_offset(buf, a))
                } else {
                    CompletionModel::Closed
                }
            },
            _ => CompletionModel::Closed,
        }
    }
}

pub(crate) fn lower_chars(s: &str) -> (r: Vec<char>)
    ensures
        r@ == lowercase_of(s@),
{
    chars_of(to_lowercase(s).as_str())
}

fn has_space(cs: &Vec<char>) -> (r: bool)
    ensures
        r == cs@.contains(' '),
{
    let mut i: usize = 0;
    while i < cs.len()
        invariant
            i <= cs@.len(),
            forall|j: int| 0 <= j < i ==> cs@[j] != ' ',
        decreases cs@.len() - i,
    {
        if cs[i] == ' ' {
            assert(cs@[i as int] == ' ');
            return true;
        }
        i += 1;
    }
    false
}

fn command_completion(cs: &Vec<char>, buffer: &str, commands: &Vec<CommandName>) -> (r: Vec<usize>)
    requires
        cs@ == buffer@,
    ensures
        r@ == command_candidates(commands@, lowercase_of(buffer@), commands@.len() as int),
{
    let prefix = lower_chars(buffer);
    let mut out: Vec<usize> = Vec::new();
    let mut i: usize = 0;
    while i < commands.len()
        invariant
            i <= commands@.len(),
            prefix@ == lowercase_of(buffer@),
            out@ == command_candidates(commands@, prefix@, i as int),
        decreases commands@.len() - i,
    {
        let c = &commands[i];
        let name = chars_of(c.name.as_str());
        let alias = chars_of(c.alias.as_str());
        if matches_at(&name, &prefix, 0) || (alias.len() > 0 && matches_at(&alias, &prefix, 0)) {
            out.push(i);
        }
        i += 1;
    }
    out
}

fn concat3(a: &str, b: &String, c: &str) -> (r: String)
    ensures
        r@ == a@ + b@ + c@,
{
    let mut s = owned(a);
    append_chars(&mut s, &chars_of(b.as_str()));
    append_chars(&mut s, &chars_of(c));
    s
}

fn passes2_exec(filter: &Vec<char>, a: &String, b: &String) -> (r: bool)
    ensures
        r == passes2(filter@, a@, b@),
{
    filter.len() == 0 || contains_chars(&lower_chars(a.as_str()), filter) || contains_chars(
        &lower_chars(b.as_str()),
        filter,
    )
}

fn contact_entry_exec(c: &ContactRow) -> (r: Option<JoinCandidate>)
    ensures
        match r {
            Some(e) => contact_entry(*c) == Some((e.display@, e.value@)),
            None => contact_entry(*c) is None,
        },
{
    let key = chars_of(c.key.as_str());
    if key.len() > 0 && key[0] == '+' {
        let mut display = concat3("", &c.name, " (");
        append_chars(&mut display, &key);
        append_chars(&mut display, &chars_of(")"));
        proof {
            assert(""@ + c.name@ =~= c.name@) by {
                reveal_strlit("");
            }
        }
        Some(JoinCandidate { display, value: c.key.clone() })
    } else {
        match &c.username {
            Some(h) => {
                let display = concat3("", &c.name, " (@");
                let mut display = display;
                append_chars(&mut display, &chars_of(h.as_str()));
                append_chars(&mut display, &chars_of(")"));
                let value = concat3("@", h, "");
                proof {
                    reveal_strlit("");
                    assert(""@ + c.name@ =~= c.name@);
                    assert("@"@ + h@ + ""@ =~= "@"@ + h@);
                }
                Some(JoinCandidate { display, value })
            },
            None => None,
        }
    }
}

fn listed_exec(acc: &Vec<JoinCandidate>, id: &String) -> (r: bool)
    ensures
        r == listed(join_view(acc@), id@),
{
    let ghost v = join_view(acc@);
    let mut j: usize = 0;
    while j < acc.len()
        invariant
            j <= acc@.len(),
            v == join_view(acc@),
            forall|q: int| 0 <= q < j ==> v[q].1 != id@,
        decreases acc@.len() - j,
    {
        if acc[j].value == *id {
            assert(v[j as int].1 == id@);
            return true;
        }
        j += 1;
    }
    false
}

fn join_completion(
    filter: &Vec<char>,
    contacts: &Vec<ContactRow>,
    groups: &Vec<GroupRow>,
    conversations: &Vec<ConversationRow>,
) -> (r: Vec<JoinCandidate>)
    ensures
        join_view(r@) == join_candidates(contacts@, groups@, conversations@, filter@),
{
    let ghost f = filter@;
    let mut out: Vec<JoinCandidate> = Vec::new();
    let mut i: usize = 0;
    while i < contacts.len()
        invariant
            i <= contacts@.len(),
            f == filter@,
            join_view(out@) == join_contacts(contacts@, f, i as int),
        decreases contacts@.len() - i,
    {
        let ghost before = out@;
        match contact_entry_exec(&contacts[i]) {
            Some(e) => {
                if passes2_exec(filter, &contacts[i].name, &e.value) {
                    out.push(e);
                }
            },
            None => {},
        }
        assert(join_view(out@) =~= join_contacts(contacts@, f, i + 1)) by {
            assert(join_view(before) == join_contacts(contacts@, f, i as int));
        }
        i += 1;
    }
    let ghost after_contacts = join_view(out@);
    let mut g: usize = 0;
    while g < groups.len()
        invariant
            g <= groups@.len(),
            f == filter@,
            join_view(out@) == after_contacts + join_groups(groups@, f, g as int),
        decreases groups@.len() - g,
    {
        let ghost before = out@;
        let ghost gr = groups@[g as int];
        if passes2_exec(filter, &groups[g].name, &groups[g].name) {
            let display = concat3("#", &groups[g].name, "");
            proof {
                reveal_strlit("");
                assert("#"@ + gr.name@ + ""@ =~= "#"@ + gr.name@);
            }
            out.push(JoinCandidate { display, value: groups[g].id.clone() });
            assert(join_view(out@) =~= join_view(before).push(("#"@ + gr.name@, gr.id@)));
        }
        assert(join_groups(groups@, f, g + 1) == join_groups(groups@, f, g as int) + (if passes2(
            f,
            gr.name@,
            gr.name@,
        ) {
            seq![("#"@ + gr.name@, gr.id@)]
        } else {
            seq![]
        }));
        assert(join_view(out@) =~= after_contacts + join_groups(groups@, f, g + 1));
        g += 1;
    }
    assert(join_contacts(contacts@, f, contacts@.len() as int) + join_groups(
        groups@,
        f,
        groups@.len() as int,
    ) == join_view(out@));
    let mut c: usize = 0;
    while c < conversations.len()
        invariant
            c <= conversations@.len(),
            f == filter@,
            join_conversations(
                conversations@,
                f,
                0,
                join_contacts(contacts@, f, contacts@.len() as int) + join_groups(
                    groups@,
                    f,
                    groups@.len() as int,
                ),
            ) == join_conversations(conversations@, f, c as int, join_view(out@)),
        decreases conversations@.len() - c,
    {
        let conv = &conversations[c];
        let ghost before = out@;
        if !listed_exec(&out, &conv.id) && passes2_exec(filter, &conv.name, &conv.id) {
            let display = if conv.is_group {
                concat3("#", &conv.name, "")
            } else {
                let mut d = concat3("", &conv.name, " (");
                append_chars(&mut d, &chars_of(conv.id.as_str()));
                append_chars(&mut d, &chars_of(")"));
                d
            };
            proof {
                reveal_strlit("");
                assert("#"@ + conv.name@ + ""@ =~= "#"@ + conv.name@);
                assert(""@ + conv.name@ =~= conv.name@);
            }
            out.push(JoinCandidate { display, value: conv.id.clone() });
            assert(join_view(out@) =~= join_view(before).push(conversation_entry(*conv)));
        }
        c += 1;
    }
    let mut keys: Vec<Vec<char>> = Vec::new();
    let mut k: usize = 0;
    while k < out.len()
        invariant
            k <= out@.len(),
            keys@.len() == k,
            forall|j: int| 0 <= j < k ==> (#[trigger] keys@[j])@ == lowercase_of(out@[j].display@),
        decreases out@.len() - k,
    {
        keys.push(lower_chars(out[k].display.as_str()));
        k += 1;
    }
    let ghost unsorted = out@;
    let ghost ka = |cand: JoinCandidate| lowercase_of(cand.display@);
    let ghost fv = |cand: JoinCandidate| (cand.display@, cand.value@);
    let ghost kb = join_key_fn();
    let sorted = sort_by_keys(out, keys, Ghost(ka));
    proof {
        assert forall|a: JoinCandidate| #[trigger] ka(a) == kb(fv(a)) by {
        }
        lemma_map_sort(unsorted, fv, ka, kb);
        assert(join_view(unsorted) =~= unsorted.map_values(fv));
        assert(join_view(sorted@) =~= sorted@.map_values(fv));
    }
    sorted
}

fn clone_row(r: &MentionRow) -> (c: MentionRow)
    ensures
        c == *r,
{
    MentionRow {
        phone: r.phone.clone(),
        name: r.name.clone(),
        uuid: match &r.uuid {
            Some(u) => Some(u.clone()),
            None => None,
        },
    }
}

fn mention_completion(rows: &Vec<MentionRow>, filter: &Vec<char>) -> (r: Vec<MentionRow>)
    ensures
        r@ == sort_by(
            mention_filter(rows@, filter@, rows@.len() as int),
            mention_key_fn(),
        ),
{
    let mut out: Vec<MentionRow> = Vec::new();
    let mut keys: Vec<Vec<char>> = Vec::new();
    let mut i: usize = 0;
    while i < rows.len()
        invariant
            i <= rows@.len(),
            out@ == mention_filter(rows@, filter@, i as int),
            keys@.len() == out@.len(),
            forall|j: int| 0 <= j < out@.len() ==> (#[trigger] keys@[j])@ == mention_key(out@[j]),
        decreases rows@.len() - i,
    {
        let row = &rows[i];
        let lname = lower_chars(row.name.as_str());
        let phone = chars_of(row.phone.as_str());
        if filter.len() == 0 || contains_chars(&lname, filter) || contains_chars(&phone, filter) {
            out.push(clone_row(row));
            keys.push(lname);
        }
        assert(out@ =~= mention_filter(rows@, filter@, i + 1));
        i += 1;
    }
    sort_by_keys(out, keys, Ghost(mention_key_fn()))
}

/// The completion list for the input line `buffer` with the cursor at byte
/// `cursor`, and the list's selected index: kept when it is still in range,
/// else reset to the top (and 0 once the list closes). `commands` is the
/// command table; `contacts`, `groups` and `conversations` the known
/// contacts, groups and sidebar conversations; `mention_rows` the people who
/// can be mentioned in the open conversation (`None` when none is open).
pub fn autocomplete(
    buffer: &str,
    cursor: usize,
    commands: &Vec<CommandName>,
    contacts: &Vec<ContactRow>,
    groups: &Vec<GroupRow>,
    conversations: &Vec<ConversationRow>,
    mention_rows: &Option<Vec<MentionRow>>,
    index: usize,
) -> (r: (Completion, usize))
    requires
        is_cursor(buffer@, cursor as int),
    ensures
        r.0.model() == completion_spec(
            buffer@,
            char_index(buffer@, cursor as int),
            commands@,
            contacts@,
            groups@,
            conversations@,
            match mention_rows {
                Some(v) => Some(v@),
                None => None,
            },
        ),
        r.1 == (if index < r.0.count() {
            index
        } else {
            0
        }),
{
    let cs = chars_of(buffer);
    let completion = completion_exec(
        &cs,
        buffer,
        cursor,
        commands,
        contacts,
        groups,
        conversations,
        mention_rows,
    );
    let n = match &completion {
        Completion::Command { candidates } => candidates.len(),
        Completion::Join { candidates } => candidates.len(),
        Completion::Mention { candidates, .. } => candidates.len(),
        Completion::Closed => 0,
    };
    let idx = if index < n {
        index
    } else {
        0
    };
    (completion, idx)
}

fn completion_exec(
    cs: &Vec<char>,
    buffer: &str,
    cursor: usize,
    commands: &Vec<CommandName>,
    contacts: &Vec<ContactRow>,
    groups: &Vec<GroupRow>,
    conversations: &Vec<ConversationRow>,
    mention_rows: &Option<Vec<MentionRow>>,
) -> (r: Completion)
    requires
        cs@ == buffer@,
        is_cursor(buffer@, cursor as int),
    ensures
        r.model() == completion_spec(
            buffer@,
            char_index(buffer@, cursor as int),
            commands@,
            contacts@,
            groups@,
            conversations@,
            match mention_rows {
                Some(v) => Some(v@),
                None => None,
            },
        ),
{
    if cs.len() > 0 && cs[0] == '/' && !has_space(cs) {
        let cands = command_completion(cs, buffer, commands);
        if cands.len() > 0 {
            return Completion::Command { candidates: cands };
        }
    }
    let join_pat = chars_of("/join ");
    let j_pat = chars_of("/j ");
    let skip: usize = if matches_at(cs, &join_pat, 0) {
        6
    } else if matches_at(cs, &j_pat, 0) {
        3
    } else {
        0
    };
    if skip > 0 {
        proof {
            reveal_strlit("/join ");
            reveal_strlit("/j ");
        }
        let rest = string_from_range(cs, skip, cs.len());
        assert(rest@ =~= buffer@.skip(skip as int));
        let filter = lower_chars(rest.as_str());
        let cands = join_completion(&filter, contacts, groups, conversations);
        if cands.len() > 0 {
            return Completion::Join { candidates: cands };
        }
    }
    let rows = match mention_rows {
        Some(v) => v,
        None => {
            return Completion::Closed;
        },
    };
    let trig = find_mention_trigger(buffer, cursor);
    let pos = match trig {
        Some(p) => p,
        None => {
            return Completion::Closed;
        },
    };
    let k = cursor_char_index(cs, cursor);
    let ghost a = mention_trigger(buffer@, k as int)->0;
    let total = buffer.as_bytes().len();
    proof {
        lemma_last_at_sign_range(buffer@, k as int);
        lemma_offset_is_cursor(buffer@, a);
        lemma_utf8_len_is_encoding_len(buffer@);
        lemma_take_mono(buffer@, a, buffer@.len() as int);
        assert(buffer@.take(buffer@.len() as int) =~= buffer@);
        assert(pos == byte_offset(buffer@, a));
    }
    let at = cursor_char_index(cs, pos);
    let after = string_from_range(cs, at + 1, k);
    let filter = lower_chars(after.as_str());
    let cands = mention_completion(rows, &filter);
    if cands.len() > 0 {
        Completion::Mention { candidates: cands, trigger_pos: pos }
    } else {
        Completion::Closed
    }
}

proof fn lemma_last_at_sign_range(s: Seq<char>, k: int)
    ensures
        last_at_sign(s, k) matches Some(a) ==> 0 <= a < k && k <= s.len(),
    decreases k,
{
    if k > 0 && k <= s.len() && s[k - 1] != '@' {
        lemma_last_at_sign_range(s, k - 1);
    }
}

/// The `/join` list holds exactly the contact, group and conversation
/// entries that pass the filter, ordered by lower-cased display text.
pub proof fn law_join_list_is_ordered(
    cs: Seq<ContactRow>,
    gs: Seq<GroupRow>,
    cvs: Seq<ConversationRow>,
    f: Seq<char>,
)
    ensures
        sorted_by_key(join_candidates(cs, gs, cvs, f), join_key_fn()),
        join_candidates(cs, gs, cvs, f).to_multiset() == join_conversations(
            cvs,
            f,
            0,
            join_contacts(cs, f, cs.len() as int) + join_groups(gs, f, gs.len() as int),
        ).to_multiset(),
{
    law_sort_by_orders_items(
        join_conversations(
            cvs,
            f,
            0,
            join_contacts(cs, f, cs.len() as int) + join_groups(gs, f, gs.len() as int),
        ),
        join_key_fn(),
    );
}

/// The mention list holds exactly the rows that pass the filter, ordered by
/// lower-cased contact name.
pub proof fn law_mention_list_is_ordered(rows: Seq<MentionRow>, f: Seq<char>)
    ensures
        sorted_by_key(sort_by(mention_filter(rows, f, rows.len() as int), mention_key_fn()), mention_key_fn()),
        sort_by(mention_filter(rows, f, rows.len() as int), mention_key_fn()).to_multiset()
            == mention_filter(rows, f, rows.len() as int).to_multiset(),
{
    law_sort_by_orders_items(mention_filter(rows, f, rows.len() as int), mention_key_fn());
}

/// `x` is a `/join` entry made from one of the inputs and accepted by the
/// filter `f`: a contact's entry (its name or inserted value containing the
/// filter), a group shown as `#name` with its id (its name containing the
/// filter), or a conversation's entry (its name or id containing the filter).
/// Containment is of lower-cased text; an empty filter accepts everything.
pub open spec fn join_entry_from_inputs(
    cs: Seq<ContactRow>,
    gs: Seq<GroupRow>,
    cvs: Seq<ConversationRow>,
    f: Seq<char>,
    x: (Seq<char>, Seq<char>),
) -> bool {
    ||| exists|j: int|
        0 <= j < cs.len() && contact_entry(#[trigger] cs[j]) == Some(x) && (f.len() == 0
            || contains_seq(lowercase_of(cs[j].name@), f) || contains_seq(lowercase_of(x.1), f))
    ||| exists|j: int|
        0 <= j < gs.len() && x == ("#"@ + (#[trigger] gs[j]).name@, gs[j].id@) && (f.len() == 0
            || contains_seq(lowercase_of(gs[j].name@), f))
    ||| exists|j: int|
        0 <= j < cvs.len() && x == conversation_entry(#[trigger] cvs[j]) && (f.len() == 0
            || contains_seq(lowercase_of(cvs[j].name@), f) || contains_seq(
            lowercase_of(cvs[j].id@),
            f,
        ))
}

proof fn lemma_join_contacts_src(
    cs: Seq<ContactRow>,
    gs: Seq<GroupRow>,
    cvs: Seq<ConversationRow>,
    f: Seq<char>,
    n: int,
    i: int,
)
    requires
        0 <= n <= cs.len(),
        0 <= i < join_contacts(cs, f, n).len(),
    ensures
        join_entry_from_inputs(cs, gs, cvs, f, join_contacts(cs, f, n)[i]),
    decreases n,
{
    let prev = join_contacts(cs, f, n - 1);
    let tail = match contact_entry(cs[n - 1]) {
        Some((display, value)) => if passes2(f, cs[n - 1].name@, value) {
            seq![(display, value)]
        } else {
            seq![]
        },
        None => seq![],
    };
    assert(join_contacts(cs, f, n) == prev + tail);
    if i < prev.len() {
        lemma_join_contacts_src(cs, gs, cvs, f, n - 1, i);
        assert((prev + tail)[i] == prev[i]);
    } else {
        assert((prev + tail)[i] == tail[0]);
        let x = tail[0];
        assert(contact_entry(cs[n - 1]) == Some(x));
    }
}

proof fn lemma_join_groups_src(
    cs: Seq<ContactRow>,
    gs: Seq<GroupRow>,
    cvs: Seq<ConversationRow>,
    f: Seq<char>,
    n: int,
    i: int,
)
    requires
        0 <= n <= gs.len(),
        0 <= i < join_groups(gs, f, n).len(),
    ensures
        join_entry_from_inputs(cs, gs, cvs, f, join_groups(gs, f, n)[i]),
    decreases n,
{
    let prev = join_groups(gs, f, n - 1);
    let tail = if passes2(f, gs[n - 1].name@, gs[n - 1].name@) {
        seq![("#"@ + gs[n - 1].name@, gs[n - 1].id@)]
    } else {
        seq![]
    };
    assert(join_groups(gs, f, n) == prev + tail);
    if i < prev.len() {
        lemma_join_groups_src(cs, gs, cvs, f, n - 1, i);
        assert((prev + tail)[i] == prev[i]);
    } else {
        assert((prev + tail)[i] == tail[0]);
        let g = gs[n - 1];
        assert(tail[0] == ("#"@ + g.name@, g.id@));
    }
}

proof fn lemma_join_conversations_src(
    cs: Seq<ContactRow>,
    gs: Seq<GroupRow>,
    cvs: Seq<ConversationRow>,
    f: Seq<char>,
    i: int,
    acc: Seq<(Seq<char>, Seq<char>)>,
    x: (Seq<char>, Seq<char>),
)
    requires
        0 <= i,
        join_conversations(cvs, f, i, acc).contains(x),
        !acc.contains(x),
    ensures
        join_entry_from_inputs(cs, gs, cvs, f, x),
    decreases cvs.len() - i,
{
    if i < cvs.len() {
        let c = cvs[i];
        if !listed(acc, c.id@) && passes2(f, c.name@, c.id@) {
            let next = acc.push(conversation_entry(c));
            if x == conversation_entry(c) {
                assert(conversation_entry(cvs[i]) == x);
            } else {
                assert(!next.contains(x)) by {
                    if next.contains(x) {
                        let j = choose|j: int| 0 <= j < next.len() && next[j] == x;
                        assert(acc[j] == x);
                    }
                }
                lemma_join_conversations_src(cs, gs, cvs, f, i + 1, next, x);
            }
        } else {
            lemma_join_conversations_src(cs, gs, cvs, f, i + 1, acc, x);
        }
    }
}

/// Every `/join` candidate comes from the inputs and is accepted by the
/// filter: nothing that the typed text rules out is offered.
pub proof fn law_join_candidates_pass_the_filter(
    cs: Seq<ContactRow>,
    gs: Seq<GroupRow>,
    cvs: Seq<ConversationRow>,
    f: Seq<char>,
    x: (Seq<char>, Seq<char>),
)
    requires
        join_candidates(cs, gs, cvs, f).contains(x),
    ensures
        join_entry_from_inputs(cs, gs, cvs, f, x),
{
    broadcast use vstd::seq_lib::group_to_multiset_ensures;

    let jc = join_contacts(cs, f, cs.len() as int);
    let jg = join_groups(gs, f, gs.len() as int);
    let unsorted = join_conversations(cvs, f, 0, jc + jg);
    law_sort_by_orders_items(unsorted, join_key_fn());
    assert(join_candidates(cs, gs, cvs, f).to_multiset().count(x) > 0);
    assert(unsorted.contains(x));
    if (jc + jg).contains(x) {
        let j = choose|j: int| 0 <= j < (jc + jg).len() && (jc + jg)[j] == x;
        if j < jc.len() {
            lemma_join_contacts_src(cs, gs, cvs, f, cs.len() as int, j);
            assert((jc + jg)[j] == jc[j]);
        } else {
            lemma_join_groups_src(cs, gs, cvs, f, gs.len() as int, j - jc.len());
            assert((jc + jg)[j] == jg[j - jc.len()]);
        }
    } else {
        lemma_join_conversations_src(cs, gs, cvs, f, 0, jc + jg, x);
    }
}

proof fn lemma_mention_filter_members(rows: Seq<MentionRow>, f: Seq<char>, n: int, i: int)
    requires
        0 <= n <= rows.len(),
        0 <= i < mention_filter(rows, f, n).len(),
    ensures
        ({
            let r = mention_filter(rows, f, n)[i];
            &&& rows.contains(r)
            &&& (f.len() == 0 || contains_seq(lowercase_of(r.name@), f) || contains_seq(r.phone@, f))
        }),
    decreases n,
{
    let prev = mention_filter(rows, f, n - 1);
    let tail = if mention_passes(rows[n - 1], f) {
        seq![rows[n - 1]]
    } else {
        seq![]
    };
    assert(mention_filter(rows, f, n) == prev + tail);
    if i < prev.len() {
        lemma_mention_filter_members(rows, f, n - 1, i);
        assert((prev + tail)[i] == prev[i]);
    } else {
        assert((prev + tail)[i] == tail[0]);
        assert(rows[n - 1] == tail[0]);
    }
}

/// Every mention candidate is one of the mentionable rows and matches the
/// typed text: its lower-cased name or its number contains the filter (an
/// empty filter offers everyone).
pub proof fn law_mention_candidates_match(rows: Seq<MentionRow>, f: Seq<char>, r: MentionRow)
    requires
        sort_by(mention_filter(rows, f, rows.len() as int), mention_key_fn()).contains(r),
    ensures
        rows.contains(r),
        f.len() == 0 || contains_seq(lowercase_of(r.name@), f) || contains_seq(r.phone@, f),
{
    broadcast use vstd::seq_lib::group_to_multiset_ensures;

    let m = mention_filter(rows, f, rows.len() as int);
    law_sort_by_orders_items(m, mention_key_fn());
    assert(sort_by(m, mention_key_fn()).to_multiset().count(r) > 0);
    assert(m.contains(r));
    let i = choose|i: int| 0 <= i < m.len() && m[i] == r;
    lemma_mention_filter_members(rows, f, rows.len() as int, i);
}

proof fn lemma_command_candidates(cmds: Seq<CommandName>, prefix: Seq<char>, n: int)
    requires
        0 <= n <= cmds.len(),
        cmds.len() <= usize::MAX,
    ensures
        forall|i: int|
            0 <= i < command_candidates(cmds, prefix, n).len() ==> {
                let c = #[trigger] command_candidates(cmds, prefix, n)[i];
                &&& 0 <= c < n
                &&& (occurs_at(cmds[c as int].name@, prefix, 0) || (cmds[c as int].alias@.len() > 0
                    && occurs_at(cmds[c as int].alias@, prefix, 0)))
            },
        forall|c: int|
            0 <= c < n && (occurs_at(cmds[c].name@, prefix, 0) || (cmds[c].alias@.len() > 0
                && occurs_at(cmds[c].alias@, prefix, 0))) ==> command_candidates(
                cmds,
                prefix,
                n,
            ).contains(c as usize),
        forall|a: int, b: int|
            0 <= a < b < command_candidates(cmds, prefix, n).len() ==> #[trigger] command_candidates(
                cmds,
                prefix,
                n,
            )[a] < #[trigger] command_candidates(cmds, prefix, n)[b],
    decreases n,
{
    if n > 0 {
        lemma_command_candidates(cmds, prefix, n - 1);
        let prev = command_candidates(cmds, prefix, n - 1);
        let tail = if command_matches(cmds[n - 1], prefix) {
            seq![(n - 1) as usize]
        } else {
            seq![]
        };
        let all = command_candidates(cmds, prefix, n);
        assert(all == prev + tail);
        assert forall|c: int|
            0 <= c < n && (occurs_at(cmds[c].name@, prefix, 0) || (cmds[c].alias@.len() > 0
                && occurs_at(cmds[c].alias@, prefix, 0))) implies all.contains(c as usize) by {
            if c < n - 1 {
                let j = choose|j: int| 0 <= j < prev.len() && prev[j] == c as usize;
                assert(all[j] == prev[j]);
            } else {
                assert(all[prev.len() as int] == tail[0]);
            }
        }
        assert forall|i: int| 0 <= i < all.len() implies ({
            let c = #[trigger] all[i];
            &&& 0 <= c < n
            &&& (occurs_at(cmds[c as int].name@, prefix, 0) || (cmds[c as int].alias@.len() > 0
                && occurs_at(cmds[c as int].alias@, prefix, 0)))
        }) by {
            if i < prev.len() {
                assert(all[i] == prev[i]);
            } else {
                assert(tail.len() > 0);
                assert(all[i] == tail[0]);
                assert(tail[0] as int == n - 1);
            }
        }
        assert forall|a: int, b: int| 0 <= a < b < all.len() implies #[trigger] all[a]
            < #[trigger] all[b] by {
            if b < prev.len() {
                assert(all[a] == prev[a] && all[b] == prev[b]);
            } else {
                assert(all[a] == prev[a]);
                assert(tail.len() > 0);
                assert(all[b] == tail[0]);
                assert(tail[0] as int == n - 1);
                assert(prev[a] < n - 1);
            }
        }
    }
}

/// The command list offers exactly the commands whose name, or non-empty
/// alias, starts with the typed (lower-cased) text, in table order.
pub proof fn law_command_candidates_are_the_prefix_matches(cmds: Seq<CommandName>, typed: Seq<char>)
    requires
        cmds.len() <= usize::MAX,
    ensures
        forall|i: int|
            0 <= i < command_candidates(cmds, lowercase_of(typed), cmds.len() as int).len() ==> {
                let c = #[trigger] command_candidates(cmds, lowercase_of(typed), cmds.len() as int)[i];
                &&& 0 <= c < cmds.len()
                &&& (occurs_at(cmds[c as int].name@, lowercase_of(typed), 0) || (cmds[c as int].alias@.len() > 0
                    && occurs_at(cmds[c as int].alias@, lowercase_of(typed), 0)))
            },
        forall|c: int|
            0 <= c < cmds.len() && (occurs_at(cmds[c].name@, lowercase_of(typed), 0) || (cmds[c].alias@.len() > 0
                && occurs_at(cmds[c].alias@, lowercase_of(typed), 0))) ==> command_candidates(
                cmds,
                lowercase_of(typed),
                cmds.len() as int,
            ).contains(c as usize),
        forall|a: int, b: int|
            0 <= a < b < command_candidates(cmds, lowercase_of(typed), cmds.len() as int).len()
                ==> #[trigger] command_candidates(cmds, lowercase_of(typed), cmds.len() as int)[a]
                < #[trigger] command_candidates(cmds, lowercase_of(typed), cmds.len() as int)[b],
{
    lemma_command_candidates(cmds, lowercase_of(typed), cmds.len() as int);
}

} // verus!
