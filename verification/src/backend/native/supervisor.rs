//! Receive supervisor policies: connection status, retry schedule and the
//! store-backed identity directory.
//!
//! Network-class errors retry indefinitely with capped exponential backoff;
//! auth and store errors terminate with actionable copy instead.
use std::time::Duration;
use vstd::prelude::*;

use crate::backend::{backoff_secs, backoff_secs_exec};
use crate::clock::{duration_from_secs, duration_nanos, duration_secs};
use crate::text::owned;
use crate::types::{clone_opt_string, SignalEvent};

use super::receive::{opt_string_view, IdentityResolver};

verus! {

/// Connection lifecycle as the main loop sees it.
#[derive(Debug, Clone, PartialEq, Eq)]
pub enum EngineStatus {
    /// Opening the store / websocket (initial state).
    Connecting,
    /// Receive stream is live.
    Connected,
    /// Stream lost; retrying with capped backoff (1-based attempt count).
    Reconnecting { attempt: u32 },
    /// Unrecoverable: auth revoked or store unusable. The copy is
    /// user-facing.
    Terminal(String),
}

/// One boundary event plus the journal row that guarantees it survives a
/// crash. `journal_id` is `None` for transient events and when journaling
/// is unavailable.
pub struct EngineEvent {
    pub journal_id: Option<i64>,
    pub event: SignalEvent,
}

/// Same schedule as `ReconnectPolicy::backoff` (2s, 4s, ... capped 30s) but
/// with no attempt cap: the native engine self-heals indefinitely for
/// network-class failures.
pub fn backoff(attempt: u32) -> (d: Duration)
    ensures
        duration_nanos(d) == backoff_secs(attempt) * 1_000_000_000,
        duration_secs(d) == backoff_secs(attempt),
{
    duration_from_secs(backoff_secs_exec(attempt))
}

/// `None` for an empty string, else an owned copy.
pub fn non_empty(s: &str) -> (r: Option<String>)
    ensures
        opt_string_view(r) == (if s@.len() == 0 {
            None
        } else {
            Some(s@)
        }),
{
    if s.is_empty() {
        None
    } else {
        Some(owned(s))
    }
}

/// One directory entry: ACI uuid → (E.164, display name).
pub struct ResolverEntry {
    pub aci: String,
    pub number: Option<String>,
    pub name: Option<String>,
}

/// The entry for `aci` among `entries` from index `k` on.
pub open spec fn entry_for(entries: Seq<ResolverEntry>, aci: Seq<char>, k: int) -> Option<
    ResolverEntry,
>
    decreases entries.len() - k,
{
    if k < 0 || k >= entries.len() {
        None
    } else if entries[k].aci@ == aci {
        Some(entries[k])
    } else {
        entry_for(entries, aci, k + 1)
    }
}

/// Store-backed identity data: ACI uuid → (E.164, display name). At most
/// one entry per ACI; a later insert for the same ACI replaces the earlier.
pub struct StoreResolver {
    entries: Vec<ResolverEntry>,
}

impl StoreResolver {
    /// The directory entry recorded for `aci`.
    pub closed spec fn lookup(&self, aci: Seq<char>) -> Option<(Option<Seq<char>>, Option<Seq<char>>)> {
        match entry_for(self.entries@, aci, 0) {
            Some(e) => Some((opt_string_view(e.number), opt_string_view(e.name))),
            None => None,
        }
    }

    /// An empty directory.
    pub fn new() -> (r: Self)
        ensures
            forall|aci: Seq<char>| r.lookup(aci) is None,
    {
        StoreResolver { entries: Vec::new() }
    }

    /// Record (or replace) the directory entry of `aci`: a later read of
    /// `aci` gives back exactly what was written, and every other ACI's
    /// entry stays as it was.
    pub fn insert(&mut self, aci: String, number: Option<String>, name: Option<String>)
        ensures
            final(self).lookup(aci@) == Some((opt_string_view(number), opt_string_view(name))),
            forall|other: Seq<char>| other != aci@ ==> final(self).lookup(other) == old(self).lookup(other),
    {
        let ghost old_entries = self.entries@;
        let mut k: usize = 0;
        while k < self.entries.len()
            invariant
                self.entries@ == old_entries,
                old(self).entries@ == old_entries,
                k <= old_entries.len(),
                forall|j: int| 0 <= j < k ==> old_entries[j].aci@ != aci@,
            decreases old_entries.len() - k,
        {
            if self.entries[k].aci == aci {
                proof {
                    lemma_entry_for_prefix(old_entries, aci@, k as int);
                }
                self.entries.set(k, ResolverEntry { aci, number, name });
                proof {
                    assert(self.entries@ == old_entries.update(k as int, self.entries@[k as int]));
                    lemma_entry_for_update(old_entries, k as int, self.entries@[k as int]);
                    assert forall|other: Seq<char>| other != aci@ implies entry_for(
                        self.entries@,
                        other,
                        0,
                    ) == entry_for(old_entries, other, 0) by {
                        assert(other != self.entries@[k as int].aci@);
                    }
                    assert forall|other: Seq<char>| other != aci@ implies self.lookup(other)
                        == old(self).lookup(other) by {
                        assert(entry_for(self.entries@, other, 0) == entry_for(old_entries, other, 0));
                    }
                }
                return;
            }
            k += 1;
        }
        proof {
            lemma_entry_for_prefix(old_entries, aci@, old_entries.len() as int);
        }
        let entry = ResolverEntry { aci, number, name };
        self.entries.push(entry);
        proof {
            lemma_entry_for_push(old_entries, entry);
        }
    }
}

/// Looking up past a prefix that holds no entry for `aci` changes nothing.
proof fn lemma_entry_for_prefix(entries: Seq<ResolverEntry>, aci: Seq<char>, k: int)
    requires
        0 <= k <= entries.len(),
        forall|j: int| 0 <= j < k ==> entries[j].aci@ != aci,
    ensures
        entry_for(entries, aci, 0) == entry_for(entries, aci, k),
    decreases k,
{
    if k > 0 {
        lemma_entry_for_prefix_from(entries, aci, 0, k);
    }
}

proof fn lemma_entry_for_prefix_from(entries: Seq<ResolverEntry>, aci: Seq<char>, i: int, k: int)
    requires
        0 <= i <= k <= entries.len(),
        forall|j: int| 0 <= j < k ==> entries[j].aci@ != aci,
    ensures
        entry_for(entries, aci, i) == entry_for(entries, aci, k),
    decreases k - i,
{
    if i < k {
        lemma_entry_for_prefix_from(entries, aci, i + 1, k);
    }
}

/// Replacing the entry at `k` by one with the same ACI changes exactly the
/// lookups of that ACI (when no earlier entry shadows it).
proof fn lemma_entry_for_update(entries: Seq<ResolverEntry>, k: int, e: ResolverEntry)
    requires
        0 <= k < entries.len(),
        e.aci@ == entries[k].aci@,
        forall|j: int| 0 <= j < k ==> entries[j].aci@ != e.aci@,
    ensures
        entry_for(entries.update(k, e), e.aci@, 0) == Some(e),
        forall|other: Seq<char>|
            other != e.aci@ ==> entry_for(entries.update(k, e), other, 0) == entry_for(
                entries,
                other,
                0,
            ),
{
    let updated = entries.update(k, e);
    lemma_entry_for_prefix(updated, e.aci@, k);
    assert forall|other: Seq<char>| other != e.aci@ implies entry_for(updated, other, 0)
        == entry_for(entries, other, 0) by {
        lemma_entry_for_same_except(entries, updated, k, other, 0);
    }
}

proof fn lemma_entry_for_same_except(
    a: Seq<ResolverEntry>,
    b: Seq<ResolverEntry>,
    k: int,
    other: Seq<char>,
    i: int,
)
    requires
        a.len() == b.len(),
        0 <= k < a.len(),
        a[k].aci@ == b[k].aci@,
        a[k].aci@ != other,
        forall|j: int| 0 <= j < a.len() && j != k ==> a[j] == b[j],
    ensures
        entry_for(a, other, i) == entry_for(b, other, i),
    decreases a.len() - i,
{
    if 0 <= i < a.len() {
        lemma_entry_for_same_except(a, b, k, other, i + 1);
    }
}

/// Appending an entry for a new ACI adds exactly that lookup.
proof fn lemma_entry_for_push(entries: Seq<ResolverEntry>, e: ResolverEntry)
    requires
        forall|j: int| 0 <= j < entries.len() ==> entries[j].aci@ != e.aci@,
    ensures
        entry_for(entries.push(e), e.aci@, 0) == Some(e),
        forall|other: Seq<char>|
            other != e.aci@ ==> entry_for(entries.push(e), other, 0) == entry_for(entries, other, 0),
{
    let pushed = entries.push(e);
    lemma_entry_for_prefix(pushed, e.aci@, entries.len() as int);
    assert forall|other: Seq<char>| other != e.aci@ implies entry_for(pushed, other, 0)
        == entry_for(entries, other, 0) by {
        lemma_entry_for_push_other(entries, e, other, 0);
    }
}

proof fn lemma_entry_for_push_other(entries: Seq<ResolverEntry>, e: ResolverEntry, other: Seq<char>, i: int)
    requires
        other != e.aci@,
        0 <= i,
    ensures
        entry_for(entries.push(e), other, i) == entry_for(entries, other, i),
    decreases entries.len() + 1 - i,
{
    if i < entries.len() {
        lemma_entry_for_push_other(entries, e, other, i + 1);
    } else if i == entries.len() {
        assert(entry_for(entries.push(e), other, i + 1) is None);
    }
}

impl IdentityResolver for StoreResolver {
    open spec fn number_of(&self, aci: Seq<char>) -> Option<Seq<char>> {
        match self.lookup(aci) {
            Some(entry) => entry.0,
            None => None,
        }
    }

    open spec fn name_of(&self, aci: Seq<char>) -> Option<Seq<char>> {
        match self.lookup(aci) {
            Some(entry) => entry.1,
            None => None,
        }
    }

    fn number_for_aci(&self, aci: &str) -> (r: Option<String>) {
        match self.find(aci) {
            Some(k) => clone_opt_string(&self.entries[k].number),
            None => None,
        }
    }

    fn name_for_aci(&self, aci: &str) -> (r: Option<String>) {
        match self.find(aci) {
            Some(k) => clone_opt_string(&self.entries[k].name),
            None => None,
        }
    }
}

impl StoreResolver {
    /// Index of the entry for `aci`.
    fn find(&self, aci: &str) -> (r: Option<usize>)
        ensures
            match r {
                Some(k) => k < self.entries@.len() && entry_for(self.entries@, aci@, 0) == Some(
                    self.entries@[k as int],
                ),
                None => entry_for(self.entries@, aci@, 0) is None,
            },
    {
        let key = owned(aci);
        let mut k: usize = 0;
        while k < self.entries.len()
            invariant
                key@ == aci@,
                k <= self.entries@.len(),
                forall|j: int| 0 <= j < k ==> self.entries@[j].aci@ != aci@,
            decreases self.entries@.len() - k,
        {
            if self.entries[k].aci == key {
                proof {
                    lemma_entry_for_prefix(self.entries@, aci@, k as int);
                }
                return Some(k);
            }
            k += 1;
        }
        proof {
            lemma_entry_for_prefix(self.entries@, aci@, self.entries@.len() as int);
        }
        None
    }
}

} // verus!
