//! Inline voice-message playback support.
//!
//! Signal voice notes arrive as audio attachments (usually `audio/ogg` with
//! Opus inside). Rather than decode audio, the client shells out to a
//! command-line player that is already installed. This module holds the
//! decisions around that: which player command to run, which content types
//! and file extensions count as audio, and how long an Ogg Opus note is,
//! read straight from its page headers.
use std::time::Duration;
use vstd::prelude::*;

use crate::clock::{
    duration_as_secs, duration_from_millis, duration_millis, duration_nanos, duration_secs,
};
use crate::paths::{extension_of, path_extension};
use crate::text::{
    append_chars, char_is_whitespace, chars_of, decimal, is_white_space, owned, push_char,
    string_from_chars, trim_back, trim_front, trimmed, u64_decimal,
};

verus! {

// ---------------------------------------------------------------------------
// Player table and player selection
// ---------------------------------------------------------------------------

/// Known headless CLI players, in preference order, with the args that make
/// them play one file and exit without opening a window. `mpv`/`ffplay` (and
/// `cvlc`) decode opus/ogg notes; `afplay` is macOS-native; `paplay`/`aplay`
/// are last because they only reliably handle PCM/WAV.
pub open spec fn players_spec() -> Seq<(Seq<char>, Seq<Seq<char>>)> {
    seq![
        ("mpv"@, seq!["--no-video"@, "--really-quiet"@]),
        ("ffplay"@, seq!["-nodisp"@, "-autoexit"@, "-loglevel"@, "quiet"@]),
        ("afplay"@, Seq::empty()),
        ("cvlc"@, seq!["--play-and-exit"@, "--intf"@, "dummy"@]),
        ("paplay"@, Seq::empty()),
        ("aplay"@, seq!["-q"@]),
    ]
}

pub open spec fn strings_model(v: Seq<String>) -> Seq<Seq<char>> {
    v.map_values(|s: String| s@)
}

pub open spec fn players_model(v: Seq<(String, Vec<String>)>) -> Seq<(Seq<char>, Seq<Seq<char>>)> {
    v.map_values(|e: (String, Vec<String>)| (e.0@, strings_model(e.1@)))
}

pub open spec fn opt_strings_model(r: Option<Vec<String>>) -> Option<Seq<Seq<char>>> {
    match r {
        Some(v) => Some(strings_model(v@)),
        None => None,
    }
}

/// The args of the first table entry from `k` on named `name`.
pub open spec fn args_for(table: Seq<(Seq<char>, Seq<Seq<char>>)>, name: Seq<char>, k: int) -> Option<
    Seq<Seq<char>>,
>
    decreases table.len() - k,
{
    if k < 0 || k >= table.len() {
        None
    } else if table[k].0 == name {
        Some(table[k].1)
    } else {
        args_for(table, name, k + 1)
    }
}

/// The command (executable then args) of the first table entry from `k` on
/// whose executable is available.
pub open spec fn first_available(
    table: Seq<(Seq<char>, Seq<Seq<char>>)>,
    available: Seq<Seq<char>>,
    k: int,
) -> Option<Seq<Seq<char>>>
    decreases table.len() - k,
{
    if k < 0 || k >= table.len() {
        None
    } else if available.contains(table[k].0) {
        Some(seq![table[k].0] + table[k].1)
    } else {
        first_available(table, available, k + 1)
    }
}

/// The white-space separated words of `s`, in order.
pub open spec fn words(s: Seq<char>) -> Seq<Seq<char>>
    decreases s.len(),
{
    if s.len() == 0 {
        Seq::empty()
    } else {
        let w = words(s.drop_last());
        let c = s.last();
        if is_white_space(c) {
            w
        } else if s.len() >= 2 && !is_white_space(s[s.len() - 2]) {
            w.drop_last().push(w.last().push(c))
        } else {
            w.push(seq![c])
        }
    }
}

/// The player command chosen for an optional configured override and the
/// set of executables found on `PATH`.
pub open spec fn detect_player_spec(override_cmd: Option<Seq<char>>, available: Seq<Seq<char>>) -> Option<
    Seq<Seq<char>>,
> {
    match override_cmd {
        Some(cmd) => if words(cmd).len() > 0 {
            Some(words(cmd))
        } else {
            first_available(players_spec(), available, 0)
        },
        None => first_available(players_spec(), available, 0),
    }
}

proof fn lemma_blank_has_no_words(s: Seq<char>)
    requires
        forall|k: int| 0 <= k < s.len() ==> is_white_space(#[trigger] s[k]),
    ensures
        words(s).len() == 0,
    decreases s.len(),
{
    if s.len() > 0 {
        assert(is_white_space(s[s.len() - 1]));
        lemma_blank_has_no_words(s.drop_last());
    }
}

/// A blank (all white space) player override is ignored: the choice is the
/// same as with no override at all.
pub proof fn law_blank_override_ignored(cmd: Seq<char>, available: Seq<Seq<char>>)
    requires
        forall|k: int| 0 <= k < cmd.len() ==> is_white_space(#[trigger] cmd[k]),
    ensures
        detect_player_spec(Some(cmd), available) == detect_player_spec(None, available),
{
    lemma_blank_has_no_words(cmd);
}

/// The words joined back together, with nothing between them.
pub open spec fn joined_words(ws: Seq<Seq<char>>) -> Seq<char>
    decreases ws.len(),
{
    if ws.len() == 0 {
        seq![]
    } else {
        joined_words(ws.drop_last()) + ws.last()
    }
}

/// The chars of `s` that are not white space, in order.
pub open spec fn non_space(s: Seq<char>) -> Seq<char>
    decreases s.len(),
{
    if s.len() == 0 {
        seq![]
    } else if is_white_space(s.last()) {
        non_space(s.drop_last())
    } else {
        non_space(s.drop_last()).push(s.last())
    }
}

/// Splitting an override into words keeps every non-space char, in order,
/// and nothing else: each word is non-empty and holds no white space, and
/// the words joined together are the override without its white space.
pub proof fn law_words_split_at_white_space(s: Seq<char>)
    ensures
        joined_words(words(s)) == non_space(s),
        forall|i: int| 0 <= i < words(s).len() ==> (#[trigger] words(s)[i]).len() > 0,
        forall|i: int, j: int|
            0 <= i < words(s).len() && 0 <= j < words(s)[i].len() ==> !is_white_space(
                #[trigger] words(s)[i][j],
            ),
    decreases s.len(),
{
    if s.len() > 0 {
        law_words_split_at_white_space(s.drop_last());
        let w = words(s.drop_last());
        let c = s.last();
        if is_white_space(c) {
        } else if s.len() >= 2 && !is_white_space(s[s.len() - 2]) {
            assert(s.drop_last().last() == s[s.len() - 2]);
            lemma_last_word_char(s.drop_last());
            let nw = w.drop_last().push(w.last().push(c));
            assert(nw.drop_last() =~= w.drop_last());
            assert(w =~= w.drop_last().push(w.last()));
            assert(joined_words(w) == joined_words(w.drop_last()) + w.last());
            assert(joined_words(nw) =~= joined_words(w).push(c));
            assert forall|i: int, j: int|
                0 <= i < nw.len() && 0 <= j < nw[i].len() implies !is_white_space(
                #[trigger] nw[i][j],
            ) by {
                if i < nw.len() - 1 {
                    assert(nw[i] == w[i]);
                } else if j < w.last().len() {
                    assert(nw[i][j] == w[w.len() - 1][j]);
                }
            }
            assert forall|i: int| 0 <= i < nw.len() implies (#[trigger] nw[i]).len() > 0 by {
                if i < nw.len() - 1 {
                    assert(nw[i] == w[i]);
                }
            }
        } else {
            let nw = w.push(seq![c]);
            assert(nw.drop_last() =~= w);
            assert(joined_words(nw) =~= joined_words(w).push(c));
            assert forall|i: int, j: int|
                0 <= i < nw.len() && 0 <= j < nw[i].len() implies !is_white_space(
                #[trigger] nw[i][j],
            ) by {
                if i < w.len() {
                    assert(nw[i] == w[i]);
                }
            }
            assert forall|i: int| 0 <= i < nw.len() implies (#[trigger] nw[i]).len() > 0 by {
                if i < w.len() {
                    assert(nw[i] == w[i]);
                }
            }
        }
    } else {
        assert(words(s).len() == 0);
    }
}

proof fn lemma_last_word_char(s: Seq<char>)
    requires
        s.len() > 0,
        !is_white_space(s.last()),
    ensures
        words(s).len() > 0,
    decreases s.len(),
{
    if s.len() >= 2 && !is_white_space(s[s.len() - 2]) {
        assert(s.drop_last().last() == s[s.len() - 2]);
        lemma_last_word_char(s.drop_last());
    }
}

proof fn lemma_some_word(s: Seq<char>, k: int)
    requires
        0 <= k < s.len(),
        !is_white_space(s[k]),
    ensures
        words(s).len() > 0,
    decreases s.len(),
{
    if !is_white_space(s.last()) {
        lemma_last_word_char(s);
    } else {
        assert(k < s.len() - 1);
        assert(s.drop_last()[k] == s[k]);
        lemma_some_word(s.drop_last(), k);
    }
}

proof fn lemma_trim_front_empty(s: Seq<char>)
    ensures
        trim_front(s).len() == 0 <==> forall|k: int| 0 <= k < s.len() ==> is_white_space(#[trigger] s[k]),
        trim_front(s).len() > 0 ==> !is_white_space(trim_front(s)[0]),
    decreases s.len(),
{
    if s.len() > 0 && is_white_space(s[0]) {
        lemma_trim_front_empty(s.drop_first());
        if trim_front(s).len() == 0 {
            assert forall|k: int| 0 <= k < s.len() implies is_white_space(#[trigger] s[k]) by {
                if k > 0 {
                    assert(s.drop_first()[k - 1] == s[k]);
                }
            }
        } else {
            let j = choose|j: int| 0 <= j < s.drop_first().len() && !is_white_space(s.drop_first()[j]);
            assert(!is_white_space(s[j + 1]));
        }
    }
}

proof fn lemma_trim_back_keeps_first(s: Seq<char>)
    requires
        s.len() > 0,
        !is_white_space(s[0]),
    ensures
        trim_back(s).len() > 0,
    decreases s.len(),
{
    if is_white_space(s.last()) {
        assert(s.len() > 1);
        assert(s.drop_last()[0] == s[0]);
        lemma_trim_back_keeps_first(s.drop_last());
    }
}

/// An override is used exactly when it is not blank: it has a white-space
/// separated word if and only if trimming leaves something.
pub proof fn law_override_used_iff_trimmed_nonempty(cmd: Seq<char>)
    ensures
        words(cmd).len() > 0 <==> trimmed(cmd).len() > 0,
{
    lemma_trim_front_empty(cmd);
    if forall|k: int| 0 <= k < cmd.len() ==> is_white_space(#[trigger] cmd[k]) {
        lemma_blank_has_no_words(cmd);
        assert(trim_front(cmd).len() == 0);
        assert(trim_front(cmd) =~= Seq::<char>::empty());
    } else {
        let k = choose|k: int| 0 <= k < cmd.len() && !is_white_space(cmd[k]);
        lemma_some_word(cmd, k);
        lemma_trim_back_keeps_first(trim_front(cmd));
    }
}

proof fn lemma_first_available(
    table: Seq<(Seq<char>, Seq<Seq<char>>)>,
    available: Seq<Seq<char>>,
    k: int,
)
    requires
        0 <= k <= table.len(),
    ensures
        match first_available(table, available, k) {
            Some(cmd) => exists|j: int|
                k <= j < table.len() && available.contains(#[trigger] table[j].0) && cmd == seq![
                    table[j].0,
                ] + table[j].1 && forall|i: int| k <= i < j ==> !available.contains(table[i].0),
            None => forall|i: int| k <= i < table.len() ==> !available.contains(table[i].0),
        },
    decreases table.len() - k,
{
    if k < table.len() && !available.contains(table[k].0) {
        lemma_first_available(table, available, k + 1);
    }
}

/// Without a usable override, the player is the first known player (in
/// preference order) whose executable is available, run with its fixed
/// args; there is none exactly when no known player is available.
pub proof fn law_default_player_is_first_available(available: Seq<Seq<char>>)
    ensures
        match detect_player_spec(None, available) {
            Some(cmd) => exists|j: int|
                0 <= j < players_spec().len() && available.contains(
                    #[trigger] players_spec()[j].0,
                ) && cmd == seq![players_spec()[j].0] + players_spec()[j].1 && forall|i: int|
                    0 <= i < j ==> !available.contains(players_spec()[i].0),
            None => forall|i: int|
                0 <= i < players_spec().len() ==> !available.contains(players_spec()[i].0),
        },
{
    lemma_first_available(players_spec(), available, 0);
}

fn player_entry(name: &str, args: Vec<&str>) -> (e: (String, Vec<String>))
    ensures
        e.0@ == name@,
        strings_model(e.1@) == args@.map_values(|a: &str| a@),
{
    let mut out: Vec<String> = Vec::new();
    let mut k: usize = 0;
    while k < args.len()
        invariant
            k <= args@.len(),
            strings_model(out@) == args@.take(k as int).map_values(|a: &str| a@),
        decreases args@.len() - k,
    {
        let ghost before = out@;
        let item = owned(args[k]);
        out.push(item);
        proof {
            assert(out@ == before.push(item));
            assert(strings_model(out@) =~= strings_model(before).push(item@));
            assert(args@.take(k + 1) =~= args@.take(k as int).push(args@[k as int]));
            assert(args@.take(k + 1).map_values(|a: &str| a@) =~= args@.take(k as int).map_values(
                |a: &str| a@,
            ).push(args@[k as int]@));
        }
        k += 1;
    }
    assert(args@.take(args@.len() as int) =~= args@);
    assert(strings_model(out@) =~= args@.map_values(|a: &str| a@));
    (owned(name), out)
}

/// The player table as owned strings.
fn players() -> (v: Vec<(String, Vec<String>)>)
    ensures
        players_model(v@) == players_spec(),
{
    let a0 = vec!["--no-video", "--really-quiet"];
    let a1 = vec!["-nodisp", "-autoexit", "-loglevel", "quiet"];
    let a2: Vec<&str> = vec![];
    let a3 = vec!["--play-and-exit", "--intf", "dummy"];
    let a4: Vec<&str> = vec![];
    let a5 = vec!["-q"];
    assert(a0@.map_values(|a: &str| a@) =~= seq!["--no-video"@, "--really-quiet"@]);
    assert(a1@.map_values(|a: &str| a@) =~= seq!["-nodisp"@, "-autoexit"@, "-loglevel"@, "quiet"@]);
    assert(a2@.map_values(|a: &str| a@) =~= Seq::<Seq<char>>::empty());
    assert(a3@.map_values(|a: &str| a@) =~= seq!["--play-and-exit"@, "--intf"@, "dummy"@]);
    assert(a4@.map_values(|a: &str| a@) =~= Seq::<Seq<char>>::empty());
    assert(a5@.map_values(|a: &str| a@) =~= seq!["-q"@]);
    let mut v: Vec<(String, Vec<String>)> = Vec::new();
    v.push(player_entry("mpv", a0));
    v.push(player_entry("ffplay", a1));
    v.push(player_entry("afplay", a2));
    v.push(player_entry("cvlc", a3));
    v.push(player_entry("paplay", a4));
    v.push(player_entry("aplay", a5));
    assert(players_model(v@) =~= players_spec());
    v
}

/// Copy a list of strings.
fn clone_strings(v: &Vec<String>) -> (r: Vec<String>)
    ensures
        strings_model(r@) == strings_model(v@),
{
    let mut r: Vec<String> = Vec::new();
    let mut k: usize = 0;
    while k < v.len()
        invariant
            k <= v@.len(),
            strings_model(r@) == strings_model(v@.take(k as int)),
        decreases v@.len() - k,
    {
        let ghost before = r@;
        let item = v[k].clone();
        r.push(item);
        proof {
            assert(r@ == before.push(item));
            assert(strings_model(r@) =~= strings_model(before).push(item@));
            assert(v@.take(k + 1) =~= v@.take(k as int).push(v@[k as int]));
            assert(strings_model(v@.take(k + 1)) =~= strings_model(v@.take(k as int)).push(
                v@[k as int]@,
            ));
        }
        k += 1;
    }
    assert(v@.take(v@.len() as int) =~= v@);
    r
}

/// The executables of the known players, in preference order: the names a
/// caller looks up on `PATH` before asking `detect_player` to choose.
pub fn known_players() -> (r: Vec<String>)
    ensures
        strings_model(r@) == players_spec().map_values(|p: (Seq<char>, Seq<Seq<char>>)| p.0),
{
    let table = players();
    let mut r: Vec<String> = Vec::new();
    let mut k: usize = 0;
    while k < table.len()
        invariant
            k <= table@.len(),
            players_model(table@) == players_spec(),
            strings_model(r@) == players_spec().take(k as int).map_values(
                |p: (Seq<char>, Seq<Seq<char>>)| p.0,
            ),
        decreases table@.len() - k,
    {
        assert(players_model(table@)[k as int] == (table@[k as int].0@, strings_model(
            table@[k as int].1@,
        )));
        let ghost before = r@;
        let name = table[k].0.clone();
        r.push(name);
        proof {
            assert(strings_model(r@) =~= strings_model(before).push(name@));
            assert(players_spec().take(k + 1) =~= players_spec().take(k as int).push(
                players_spec()[k as int],
            ));
        }
        k += 1;
    }
    assert(players_spec().take(players_spec().len() as int) =~= players_spec());
    r
}

/// The fixed arguments for a known player name, or `None` if unknown.
pub fn player_args(name: &str) -> (r: Option<Vec<String>>)
    ensures
        opt_strings_model(r) == args_for(players_spec(), name@, 0),
{
    let table = players();
    let target = owned(name);
    let mut k: usize = 0;
    while k < table.len()
        invariant
            k <= table@.len(),
            players_model(table@) == players_spec(),
            target@ == name@,
            args_for(players_spec(), name@, 0) == args_for(players_spec(), name@, k as int),
        decreases table@.len() - k,
    {
        assert(players_model(table@)[k as int] == (table@[k as int].0@, strings_model(
            table@[k as int].1@,
        )));
        if table[k].0 == target {
            return Some(clone_strings(&table[k].1));
        }
        k += 1;
    }
    None
}

/// Whether `name` is one of `available`.
pub(crate) fn contains_name(available: &[String], name: &String) -> (r: bool)
    ensures
        r == strings_model(available@).contains(name@),
{
    let mut k: usize = 0;
    while k < available.len()
        invariant
            k <= available@.len(),
            forall|j: int| 0 <= j < k ==> available@[j]@ != name@,
        decreases available@.len() - k,
    {
        if available[k] == *name {
            assert(strings_model(available@)[k as int] == name@);
            return true;
        }
        k += 1;
    }
    assert(!strings_model(available@).contains(name@)) by {
        if strings_model(available@).contains(name@) {
            let j = choose|j: int|
                0 <= j < strings_model(available@).len() && strings_model(available@)[j] == name@;
            assert(available@[j]@ == name@);
        }
    }
    false
}

/// Split a command line on white space.
fn split_words(cmd: &str) -> (r: Vec<String>)
    ensures
        strings_model(r@) == words(cmd@),
{
    let chars = chars_of(cmd);
    let mut out: Vec<String> = Vec::new();
    let mut cur: Vec<char> = Vec::new();
    let mut i: usize = 0;
    assert(chars@.take(0) =~= Seq::<char>::empty());
    while i < chars.len()
        invariant
            chars@ == cmd@,
            i <= chars@.len(),
            cur@.len() > 0 <==> (i > 0 && !is_white_space(chars@[i - 1])),
            words(chars@.take(i as int)) == if cur@.len() > 0 {
                strings_model(out@).push(cur@)
            } else {
                strings_model(out@)
            },
        decreases chars@.len() - i,
    {
        let c = chars[i];
        let ghost prefix = chars@.take(i + 1);
        let ghost w = words(chars@.take(i as int));
        let ghost out0 = strings_model(out@);
        let ghost cur0 = cur@;
        assert(prefix.drop_last() =~= chars@.take(i as int));
        assert(prefix.last() == c);
        if char_is_whitespace(c) {
            assert(words(prefix) == w);
            if cur.len() > 0 {
                let word = string_from_chars(&cur);
                let ghost before = out@;
                out.push(word);
                cur = Vec::new();
                assert(out@ == before.push(word));
                assert(strings_model(out@) =~= out0.push(word@));
            }
        } else {
            if cur.len() > 0 {
                assert(prefix[prefix.len() - 2] == chars@[i - 1]);
                assert(w == out0.push(cur0));
                assert(w.drop_last() =~= out0);
                assert(w.last() == cur0);
                assert(words(prefix) == out0.push(cur0.push(c)));
            } else {
                assert(i == 0 || is_white_space(prefix[prefix.len() - 2]));
                assert(words(prefix) == out0.push(seq![c]));
            }
            cur.push(c);
            assert(cur@ =~= if cur0.len() > 0 {
                cur0.push(c)
            } else {
                seq![c]
            });
        }
        i += 1;
    }
    if cur.len() > 0 {
        let word = string_from_chars(&cur);
        let ghost before = out@;
        out.push(word);
        assert(out@ == before.push(word));
        assert(strings_model(out@) =~= strings_model(before).push(word@));
    }
    assert(chars@.take(chars@.len() as int) =~= chars@);
    out
}

/// Resolve the player command to use as `[executable, args...]`.
///
/// A non-blank `override_cmd` (the `audio_player` config option) wins and is
/// split on white space, so a user can point at any binary. Otherwise the
/// first known player whose executable is in `available` (the names found on
/// `PATH`) is chosen. Returns `None` when nothing is available, so the caller
/// can fall back to opening the file externally.
pub fn detect_player(override_cmd: Option<&str>, available: &[String]) -> (r: Option<Vec<String>>)
    ensures
        opt_strings_model(r) == detect_player_spec(
            match override_cmd {
                Some(c) => Some(c@),
                None => None,
            },
            strings_model(available@),
        ),
{
    if let Some(cmd) = override_cmd {
        let parts = split_words(cmd);
        if parts.len() > 0 {
            return Some(parts);
        }
    }
    let table = players();
    let mut k: usize = 0;
    while k < table.len()
        invariant
            k <= table@.len(),
            players_model(table@) == players_spec(),
            override_cmd matches Some(c) ==> words(c@).len() == 0,
            first_available(players_spec(), strings_model(available@), 0) == first_available(
                players_spec(),
                strings_model(available@),
                k as int,
            ),
        decreases table@.len() - k,
    {
        assert(players_model(table@)[k as int] == (table@[k as int].0@, strings_model(
            table@[k as int].1@,
        )));
        if contains_name(available, &table[k].0) {
            let ghost name = table@[k as int].0@;
            let mut command: Vec<String> = Vec::new();
            let exe = table[k].0.clone();
            command.push(exe);
            let args = clone_strings(&table[k].1);
            assert(strings_model(command@) =~= seq![name] + strings_model(args@).take(0));
            let mut j: usize = 0;
            while j < args.len()
                invariant
                    j <= args@.len(),
                    strings_model(command@) == seq![name] + strings_model(args@).take(j as int),
                decreases args@.len() - j,
            {
                let ghost before = command@;
                let item = args[j].clone();
                command.push(item);
                proof {
                    assert(command@ == before.push(item));
                    assert(strings_model(command@) =~= strings_model(before).push(item@));
                    assert(strings_model(args@).take(j + 1) =~= strings_model(args@).take(
                        j as int,
                    ).push(args@[j as int]@));
                }
                j += 1;
            }
            assert(strings_model(args@).take(args@.len() as int) =~= strings_model(args@));
            assert(strings_model(args@) == players_spec()[k as int].1);
            assert(name == players_spec()[k as int].0);
            assert(strings_model(available@).contains(players_spec()[k as int].0));
            assert(first_available(players_spec(), strings_model(available@), k as int) == Some(
                strings_model(command@),
            ));
            return Some(command);
        }
        k += 1;
    }
    None
}

// ---------------------------------------------------------------------------
// Content types and extensions
// ---------------------------------------------------------------------------

/// `s` starts with `prefix`.
pub open spec fn has_prefix(s: Seq<char>, prefix: Seq<char>) -> bool {
    prefix.len() <= s.len() && s.take(prefix.len() as int) == prefix
}

/// Whether `chars` starts with `prefix`.
fn starts_with_chars(chars: &Vec<char>, prefix: &Vec<char>) -> (r: bool)
    ensures
        r == has_prefix(chars@, prefix@),
{
    if prefix.len() > chars.len() {
        return false;
    }
    let mut k: usize = 0;
    while k < prefix.len()
        invariant
            prefix@.len() <= chars@.len(),
            k <= prefix@.len(),
            forall|j: int| 0 <= j < k ==> chars@[j] == prefix@[j],
        decreases prefix@.len() - k,
    {
        if chars[k] != prefix[k] {
            assert(chars@.take(prefix@.len() as int)[k as int] != prefix@[k as int]);
            return false;
        }
        k += 1;
    }
    assert(chars@.take(prefix@.len() as int) =~= prefix@);
    true
}

/// Whether a content type is an audio attachment (a voice note or audio file).
pub fn is_audio(content_type: &str) -> (r: bool)
    ensures
        r == has_prefix(content_type@, "audio/"@),
{
    starts_with_chars(&chars_of(content_type), &chars_of("audio/"))
}

/// ASCII lower-casing of one char.
pub open spec fn ascii_lower(c: char) -> char {
    if 'A' <= c <= 'Z' {
        ((c as u32) + 32) as char
    } else {
        c
    }
}

/// ASCII lower-casing of a string, as `str::to_ascii_lowercase` does.
pub open spec fn ascii_lowercase(s: Seq<char>) -> Seq<char> {
    s.map_values(|c: char| ascii_lower(c))
}

fn ascii_lower_char(c: char) -> (r: char)
    ensures
        r == ascii_lower(c),
{
    if 'A' <= c && c <= 'Z' {
        ((c as u8) + 32) as char
    } else {
        c
    }
}

/// ASCII lower-casing, as `str::to_ascii_lowercase` does: ASCII upper-case
/// letters mapped to lower case, every other char unchanged.
pub fn to_ascii_lowercase(s: &str) -> (r: String)
    ensures
        r@ == ascii_lowercase(s@),
{
    let cs = chars_of(s);
    let mut out = String::new();
    let mut k: usize = 0;
    while k < cs.len()
        invariant
            k <= cs@.len(),
            cs@ == s@,
            out@ == ascii_lowercase(cs@.take(k as int)),
        decreases cs@.len() - k,
    {
        push_char(&mut out, ascii_lower_char(cs[k]));
        assert(ascii_lowercase(cs@.take(k + 1)) =~= ascii_lowercase(cs@.take(k as int)).push(
            ascii_lower(cs@[k as int]),
        ));
        k += 1;
    }
    assert(cs@.take(cs@.len() as int) =~= cs@);
    out
}

/// File extensions of playable audio files.
pub open spec fn audio_extensions() -> Seq<Seq<char>> {
    seq!["mp3"@, "ogg"@, "oga"@, "m4a"@, "wav"@, "flac"@, "opus"@, "aac"@]
}

pub(crate) fn audio_extension_list() -> (v: Vec<String>)
    ensures
        strings_model(v@) == audio_extensions(),
{
    let v = vec![
        owned("mp3"),
        owned("ogg"),
        owned("oga"),
        owned("m4a"),
        owned("wav"),
        owned("flac"),
        owned("opus"),
        owned("aac"),
    ];
    assert(strings_model(v@) =~= audio_extensions());
    v
}

/// Whether a file extension (as `Path::extension` reports it) marks a
/// playable audio file, compared ASCII-case-insensitively.
pub fn is_audio_extension(extension: Option<&str>) -> (r: bool)
    ensures
        r == match extension {
            Some(e) => audio_extensions().contains(ascii_lowercase(e@)),
            None => false,
        },
{
    match extension {
        Some(e) => {
            let lower = to_ascii_lowercase(e);
            contains_name(audio_extension_list().as_slice(), &lower)
        },
        None => false,
    }
}

/// Whether a path has an audio extension in the sense of `is_audio_extension`.
pub open spec fn is_audio_path_spec(path: Seq<char>) -> bool {
    match extension_of(path) {
        Some(e) => audio_extensions().contains(ascii_lowercase(e)),
        None => false,
    }
}

/// Whether a file path looks like a playable audio file by extension. Used to
/// decide, at open time, whether to play inline rather than hand off to the OS.
pub fn is_audio_path(path: &str) -> (r: bool)
    ensures
        r == is_audio_path_spec(path@),
{
    match path_extension(path) {
        Some(e) => is_audio_extension(Some(e.as_str())),
        None => false,
    }
}

// ---------------------------------------------------------------------------
// Ogg Opus duration
// ---------------------------------------------------------------------------

/// The little-endian `u64` stored at `d[p..p + 8]`.
pub open spec fn le_u64_at(d: Seq<u8>, p: int) -> int {
    d[p] + 256 * (d[p + 1] + 256 * (d[p + 2] + 256 * (d[p + 3] + 256 * (d[p + 4] + 256 * (d[p
        + 5] + 256 * (d[p + 6] + 256 * d[p + 7]))))))
}

/// The `OggS` capture pattern starts at `p`.
pub open spec fn is_capture_at(d: Seq<u8>, p: int) -> bool {
    d[p] == 0x4F && d[p + 1] == 0x67 && d[p + 2] == 0x67 && d[p + 3] == 0x53
}

/// The `OpusHead` magic starts at `p`.
pub open spec fn is_opus_head_at(d: Seq<u8>, p: int) -> bool {
    &&& d[p] == 0x4F && d[p + 1] == 0x70 && d[p + 2] == 0x75 && d[p + 3] == 0x73
    &&& d[p + 4] == 0x48 && d[p + 5] == 0x65 && d[p + 6] == 0x61 && d[p + 7] == 0x64
}

/// Sum of the lacing values `d[from..to]`: the payload length of a page.
pub open spec fn lacing_sum(d: Seq<u8>, from: int, to: int) -> int
    decreases to - from,
{
    if to <= from {
        0
    } else {
        lacing_sum(d, from, to - 1) + d[to - 1]
    }
}

/// A payload length is never negative.
pub proof fn lemma_lacing_sum_nonneg(d: Seq<u8>, from: int, to: int)
    ensures
        lacing_sum(d, from, to) >= 0,
    decreases to - from,
{
    if to > from {
        lemma_lacing_sum_nonneg(d, from, to - 1);
    }
}

/// Walk the Ogg pages from `pos`, carrying the OpusHead pre-skip and the last
/// granule position seen. `None` means the stream is not Ogg Opus (its first
/// page is not an OpusHead header); otherwise the walk stops at the first
/// truncated or non-Ogg page.
pub open spec fn ogg_walk(d: Seq<u8>, pos: int, pre_skip: Option<int>, last: Option<int>) -> Option<
    (Option<int>, Option<int>),
>
    decreases d.len() - pos,
{
    if pos < 0 || pos + 27 > d.len() || !is_capture_at(d, pos) {
        Some((pre_skip, last))
    } else {
        let granule = le_u64_at(d, pos + 6);
        let seg_end = pos + 27 + d[pos + 26];
        if seg_end > d.len() {
            Some((pre_skip, last))
        } else {
            let payload_end = seg_end + lacing_sum(d, pos + 27, seg_end);
            if payload_end > d.len() {
                Some((pre_skip, last))
            } else if pre_skip is None && (payload_end - seg_end < 12 || !is_opus_head_at(
                d,
                seg_end,
            )) {
                None
            } else {
                let pre1 = if pre_skip is None {
                    Some(d[seg_end + 10] + 256 * d[seg_end + 11])
                } else {
                    pre_skip
                };
                // A granule of all ones marks a page where no packet ends.
                let last1 = if granule != 0xFFFF_FFFF_FFFF_FFFF {
                    Some(granule)
                } else {
                    last
                };
                proof {
                    lemma_lacing_sum_nonneg(d, pos + 27, seg_end);
                }
                ogg_walk(d, payload_end, pre1, last1)
            }
        }
    }
}

/// The sum of a byte string's values.
pub open spec fn byte_sum(s: Seq<u8>) -> int
    decreases s.len(),
{
    if s.len() == 0 {
        0
    } else {
        s[0] + byte_sum(s.drop_first())
    }
}

proof fn lemma_byte_sum_push(s: Seq<u8>, x: u8)
    ensures
        byte_sum(s.push(x)) == byte_sum(s) + x,
    decreases s.len(),
{
    let t = s.push(x);
    if s.len() > 0 {
        assert(t.drop_first() =~= s.drop_first().push(x));
        lemma_byte_sum_push(s.drop_first(), x);
        assert(t[0] == s[0]);
    } else {
        assert(t.drop_first() =~= Seq::<u8>::empty());
        assert(byte_sum(t.drop_first()) == 0);
        assert(t[0] == x);
    }
    assert(byte_sum(t) == t[0] + byte_sum(t.drop_first()));
}

proof fn lemma_lacing_is_byte_sum(d: Seq<u8>, from: int, to: int)
    requires
        0 <= from <= to <= d.len(),
    ensures
        lacing_sum(d, from, to) == byte_sum(d.subrange(from, to)),
    decreases to - from,
{
    if to > from {
        lemma_lacing_is_byte_sum(d, from, to - 1);
        assert(d.subrange(from, to) =~= d.subrange(from, to - 1).push(d[to - 1]));
        lemma_byte_sum_push(d.subrange(from, to - 1), d[to - 1]);
    } else {
        assert(d.subrange(from, to) =~= Seq::<u8>::empty());
    }
}

/// One past the end of the Ogg page at `pos`: its 27-byte header, then its
/// segment table (as many lacing values as the header's segment count),
/// then a payload as long as all those lacing values together.
pub open spec fn page_end(d: Seq<u8>, pos: int) -> int {
    let table_end = pos + 27 + d[pos + 26];
    table_end + byte_sum(d.subrange(pos + 27, table_end))
}

/// A whole Ogg page lies at `pos`: the capture pattern, then a header, a
/// segment table and a payload that all fit in the data.
pub open spec fn whole_page_at(d: Seq<u8>, pos: int) -> bool {
    &&& 0 <= pos
    &&& pos + 27 <= d.len()
    &&& is_capture_at(d, pos)
    &&& pos + 27 + d[pos + 26] <= d.len()
    &&& page_end(d, pos) <= d.len()
}

/// Pages are read one after another: once the identification header was
/// read, a whole page at `pos` is stepped over entirely (header, segment
/// table, and every byte its lacing values announce), its granule position
/// noted unless it is all ones, and the walk goes on at the next page.
pub proof fn law_ogg_walk_steps_over_whole_pages(d: Seq<u8>, pos: int, pre: int, last: Option<int>)
    requires
        whole_page_at(d, pos),
    ensures
        ogg_walk(d, pos, Some(pre), last) == ogg_walk(
            d,
            page_end(d, pos),
            Some(pre),
            if le_u64_at(d, pos + 6) != 0xFFFF_FFFF_FFFF_FFFF {
                Some(le_u64_at(d, pos + 6))
            } else {
                last
            },
        ),
{
    lemma_lacing_is_byte_sum(d, pos + 27, pos + 27 + d[pos + 26]);
}

/// The first page of an Ogg Opus stream holds the OpusHead identification
/// header: the walk reads its pre-skip (little-endian, payload bytes 10 and
/// 11), notes its granule unless all ones, and goes on just past the page.
pub proof fn law_ogg_walk_reads_the_head_page(d: Seq<u8>, pos: int)
    requires
        whole_page_at(d, pos),
        page_end(d, pos) - (pos + 27 + d[pos + 26]) >= 12,
        is_opus_head_at(d, pos + 27 + d[pos + 26]),
    ensures
        ({
            let payload = pos + 27 + d[pos + 26];
            ogg_walk(d, pos, None, None) == ogg_walk(
                d,
                page_end(d, pos),
                Some(d[payload + 10] + 256 * d[payload + 11]),
                if le_u64_at(d, pos + 6) != 0xFFFF_FFFF_FFFF_FFFF {
                    Some(le_u64_at(d, pos + 6))
                } else {
                    None
                },
            )
        }),
{
    lemma_lacing_is_byte_sum(d, pos + 27, pos + 27 + d[pos + 26]);
}

/// The walk ends at the end of the data, with what it gathered.
pub proof fn law_ogg_walk_ends_at_the_end(d: Seq<u8>, pre: Option<int>, last: Option<int>)
    ensures
        ogg_walk(d, d.len() as int, pre, last) == Some((pre, last)),
{
}

/// Samples in an Ogg Opus stream: last granule position minus the OpusHead
/// pre-skip (floored at zero), or `None` when the data is not Ogg Opus or no
/// page carries a granule.
pub open spec fn ogg_opus_samples_spec(d: Seq<u8>) -> Option<int> {
    match ogg_walk(d, 0, None, None) {
        Some((Some(pre), Some(last))) => Some(
            if last >= pre {
                last - pre
            } else {
                0
            },
        ),
        _ => None,
    }
}

pub open spec fn opt_u64_model(o: Option<u64>) -> Option<int> {
    match o {
        Some(x) => Some(x as int),
        None => None,
    }
}

/// The little-endian `u64` stored in the eight bytes at `data[at..at + 8]`.
fn read_le_u64(data: &[u8], at: usize) -> (r: u64)
    requires
        at + 8 <= data@.len(),
    ensures
        r == le_u64_at(data@, at as int),
{
    let b0 = data[at] as u128;
    let b1 = data[at + 1] as u128;
    let b2 = data[at + 2] as u128;
    let b3 = data[at + 3] as u128;
    let b4 = data[at + 4] as u128;
    let b5 = data[at + 5] as u128;
    let b6 = data[at + 6] as u128;
    let b7 = data[at + 7] as u128;
    let v: u128 = b0 + 256 * (b1 + 256 * (b2 + 256 * (b3 + 256 * (b4 + 256 * (b5 + 256 * (b6
        + 256 * b7))))));
    v as u64
}

/// The little-endian `u16` made of two bytes.
fn read_le_u16(lo: u8, hi: u8) -> (r: u16)
    ensures
        r == lo + 256 * hi,
{
    lo as u16 + 256 * (hi as u16)
}

/// Total sample count of in-memory Ogg Opus data (see
/// [`ogg_opus_samples_spec`]). Opus granule positions count 48 kHz samples.
pub fn ogg_opus_samples(data: &[u8]) -> (r: Option<u64>)
    ensures
        opt_u64_model(r) == ogg_opus_samples_spec(data@),
{
    let n = data.len();
    let mut pos: usize = 0;
    let mut pre_skip: Option<u64> = None;
    let mut last_granule: Option<u64> = None;

    loop
        invariant
            n == data@.len(),
            ogg_walk(data@, pos as int, opt_u64_model(pre_skip), opt_u64_model(last_granule))
                == ogg_walk(data@, 0, None, None),
        decreases n - pos,
    {
        if n < 27 || pos > n - 27 {
            return samples_after(last_granule, pre_skip, Ghost(data@));
        }
        if !(data[pos] == 0x4F && data[pos + 1] == 0x67 && data[pos + 2] == 0x67 && data[pos + 3]
            == 0x53) {
            return samples_after(last_granule, pre_skip, Ghost(data@));
        }
        let granule = read_le_u64(data, pos + 6);
        let n_segments = data[pos + 26] as usize;
        if n_segments > n - (pos + 27) {
            return samples_after(last_granule, pre_skip, Ghost(data@));
        }
        let seg_table_end = pos + 27 + n_segments;
        let mut payload_len: usize = 0;
        let mut k = pos + 27;
        while k < seg_table_end
            invariant
                seg_table_end <= n == data@.len(),
                pos + 27 <= k <= seg_table_end,
                payload_len == lacing_sum(data@, pos + 27, k as int),
                payload_len <= 255 * (k - (pos + 27)),
                seg_table_end - (pos + 27) <= 255,
            decreases seg_table_end - k,
        {
            payload_len = payload_len + data[k] as usize;
            k += 1;
        }
        if payload_len > n - seg_table_end {
            return samples_after(last_granule, pre_skip, Ghost(data@));
        }
        let payload_end = seg_table_end + payload_len;

        if pre_skip.is_none() {
            // The first page's payload must be the OpusHead identification
            // header; anything else is not an Ogg Opus stream.
            if payload_len < 12 || !(data[seg_table_end] == 0x4F && data[seg_table_end + 1] == 0x70
                && data[seg_table_end + 2] == 0x75 && data[seg_table_end + 3] == 0x73
                && data[seg_table_end + 4] == 0x48 && data[seg_table_end + 5] == 0x65
                && data[seg_table_end + 6] == 0x61 && data[seg_table_end + 7] == 0x64) {
                return None;
            }
            pre_skip = Some(read_le_u16(data[seg_table_end + 10], data[seg_table_end + 11]) as u64);
        }
        // Granule of -1 marks a page where no packet ends; skip those.
        if granule != u64::MAX {
            last_granule = Some(granule);
        }
        pos = payload_end;
    }
}

/// The sample count once the page walk has stopped with this state.
fn samples_after(last_granule: Option<u64>, pre_skip: Option<u64>, Ghost(d): Ghost<Seq<u8>>) -> (r:
    Option<u64>)
    requires
        ogg_walk(d, 0, None, None) == Some((opt_u64_model(pre_skip), opt_u64_model(last_granule))),
    ensures
        opt_u64_model(r) == ogg_opus_samples_spec(d),
{
    match (last_granule, pre_skip) {
        (Some(last), Some(pre)) => Some(last.saturating_sub(pre)),
        _ => None,
    }
}

/// Duration of in-memory Ogg Opus data, or `None` for other formats or
/// malformed data. No decoder needed: Opus granule positions count 48 kHz
/// samples, so duration = (last page granule - OpusHead pre-skip) / 48000.
/// The duration is reported in whole milliseconds (rounded down), and the
/// arithmetic is wide enough that no sample count overflows it.
pub fn ogg_opus_duration_from_bytes(data: &[u8]) -> (r: Option<Duration>)
    ensures
        match ogg_opus_samples_spec(data@) {
            Some(s) => r matches Some(d) && duration_nanos(d) == (s * 1000 / 48_000) * 1_000_000
                && duration_millis(d) == s * 1000 / 48_000,
            None => r is None,
        },
{
    match ogg_opus_samples(data) {
        Some(samples) => {
            let wide: u128 = samples as u128 * 1000;
            let ms: u128 = wide / 48_000;
            assert(ms <= samples) by (nonlinear_arith)
                requires
                    wide == samples * 1000,
                    ms == wide / 48_000,
            ;
            Some(duration_from_millis(ms as u64))
        },
        None => None,
    }
}

// ---------------------------------------------------------------------------
// m:ss rendering
// ---------------------------------------------------------------------------

/// Decimal rendering zero-padded to at least two digits, as `{:02}` does.
pub open spec fn decimal_pad2(n: nat) -> Seq<char> {
    if n < 10 {
        seq!['0'] + decimal(n)
    } else {
        decimal(n)
    }
}

/// `m:ss` rendering of a number of seconds.
pub open spec fn mmss(secs: nat) -> Seq<char> {
    decimal(secs / 60) + seq![':'] + decimal_pad2(secs % 60)
}

/// Decimal minutes, a colon, and seconds zero-padded to two digits, as
/// `format!("{}:{:02}", minutes, seconds)` renders them.
fn render_min_sec(minutes: u64, seconds: u64) -> (r: String)
    ensures
        r@ == decimal(minutes as nat) + seq![':'] + decimal_pad2(seconds as nat),
{
    let mut out = u64_decimal(minutes);
    push_char(&mut out, ':');
    let ghost head = out@;
    if seconds < 10 {
        push_char(&mut out, '0');
    }
    let digits = chars_of(u64_decimal(seconds).as_str());
    append_chars(&mut out, &digits);
    proof {
        if seconds < 10 {
            assert(out@ =~= head + (seq!['0'] + decimal(seconds as nat)));
        } else {
            assert(out@ =~= head + decimal(seconds as nat));
        }
    }
    out
}

/// Format a duration as m:ss for the voice label / progress line.
pub fn format_mmss(d: Duration) -> (r: String)
    ensures
        r@ == mmss(duration_secs(d) as nat),
{
    let secs = duration_as_secs(&d);
    render_min_sec(secs / 60, secs % 60)
}

} // verus!
