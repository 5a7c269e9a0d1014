//! Editing the composer's input buffer: where the cursor sits (line and
//! column), the bounds of the cursor's line, deleting the word before the
//! cursor, and spotting an @-mention being typed. Cursor positions are byte
//! offsets into the buffer and always fall on char boundaries.
use vstd::prelude::*;

use crate::text::{
    append_chars, char_is_whitespace, char_len_utf8, chars_of, find_line_start, is_white_space,
    lemma_take_mono, lemma_take_succ, lemma_utf8_len_is_encoding_len, line_start, push_char,
    string_from_range, utf8_len, utf8_width,
};

verus! {

/// `cursor` is a byte offset of `s` on a char boundary: the UTF-8 length of
/// some prefix of `s`.
pub open spec fn is_cursor(s: Seq<char>, cursor: int) -> bool {
    exists|k: int| 0 <= k <= s.len() && utf8_len(s.take(k)) == cursor
}

/// The char index a cursor stands at.
pub open spec fn char_index(s: Seq<char>, cursor: int) -> int {
    choose|k: int| 0 <= k <= s.len() && utf8_len(s.take(k)) == cursor
}

/// The byte offset of char index `k`.
pub open spec fn byte_offset(s: Seq<char>, k: int) -> int {
    utf8_len(s.take(k)) as int
}

/// Longer prefixes are strictly longer in bytes.
proof fn lemma_take_strict(s: Seq<char>, j: int, k: int)
    requires
        0 <= j < k <= s.len(),
    ensures
        utf8_len(s.take(j)) < utf8_len(s.take(k)),
    decreases k - j,
{
    lemma_take_succ(s, k - 1);
    if j < k - 1 {
        lemma_take_strict(s, j, k - 1);
    }
}

/// A cursor names exactly one char index.
proof fn lemma_char_index(s: Seq<char>, k: int)
    requires
        0 <= k <= s.len(),
    ensures
        is_cursor(s, utf8_len(s.take(k)) as int),
        char_index(s, utf8_len(s.take(k)) as int) == k,
{
    let cursor = utf8_len(s.take(k)) as int;
    assert(0 <= k <= s.len() && utf8_len(s.take(k)) == cursor);
    let c = char_index(s, cursor);
    if c < k {
        lemma_take_strict(s, c, k);
    } else if c > k {
        lemma_take_strict(s, k, c);
    }
}

/// The char index of a cursor, found by walking the chars' widths.
pub(crate) fn cursor_char_index(cs: &Vec<char>, cursor: usize) -> (k: usize)
    requires
        is_cursor(cs@, cursor as int),
    ensures
        k <= cs@.len(),
        k == char_index(cs@, cursor as int),
        utf8_len(cs@.take(k as int)) == cursor,
{
    let ghost target = char_index(cs@, cursor as int);
    let n = cs.len();
    let mut k: usize = 0;
    let mut acc: usize = 0;
    proof {
        assert(cs@.take(0) =~= Seq::<char>::empty());
    }
    while acc < cursor
        invariant
            0 <= target <= cs@.len(),
            n == cs@.len(),
            utf8_len(cs@.take(target)) == cursor,
            k <= target,
            acc == utf8_len(cs@.take(k as int)),
        decreases cursor - acc,
    {
        proof {
            if k == target {
                assert(false);
            }
            lemma_take_succ(cs@, k as int);
            lemma_take_mono(cs@, k + 1, target);
        }
        acc = acc + char_len_utf8(cs[k]);
        k += 1;
    }
    proof {
        if (k as int) < target {
            lemma_take_strict(cs@, k as int, target);
        }
        lemma_char_index(cs@, k as int);
    }
    k
}

/// Number of `\n` in `s`.
pub open spec fn newline_count(s: Seq<char>) -> nat
    decreases s.len(),
{
    if s.len() == 0 {
        0
    } else {
        newline_count(s.drop_last()) + if s.last() == '\n' {
            1nat
        } else {
            0nat
        }
    }
}

/// Newlines among the first `k` chars of `cs`.
fn count_newlines(cs: &Vec<char>, k: usize) -> (r: usize)
    requires
        k <= cs@.len(),
    ensures
        r == newline_count(cs@.take(k as int)),
        r <= k,
{
    let mut n: usize = 0;
    let mut i: usize = 0;
    proof {
        assert(cs@.take(0) =~= Seq::<char>::empty());
    }
    while i < k
        invariant
            i <= k <= cs@.len(),
            n == newline_count(cs@.take(i as int)),
            n <= i,
        decreases k - i,
    {
        assert(cs@.take(i + 1).drop_last() =~= cs@.take(i as int));
        if cs[i] == '\n' {
            n += 1;
        }
        i += 1;
    }
    n
}

/// Number of lines in the input buffer: one more than its newlines.
pub fn input_line_count(buffer: &str) -> (r: usize)
    requires
        buffer@.len() < usize::MAX,
    ensures
        r == newline_count(buffer@) + 1,
{
    let cs = chars_of(buffer);
    proof {
        assert(cs@.take(cs@.len() as int) =~= cs@);
    }
    count_newlines(&cs, cs.len()) + 1
}

/// Line index and column (in chars) of the cursor within the input buffer:
/// the newlines before the cursor, and the chars between the start of the
/// cursor's line and the cursor.
pub fn cursor_line_col(buffer: &str, cursor: usize) -> (r: (usize, usize))
    requires
        is_cursor(buffer@, cursor as int),
    ensures
        r.0 == newline_count(buffer@.take(char_index(buffer@, cursor as int))),
        r.1 == char_index(buffer@, cursor as int) - line_start(
            buffer@,
            char_index(buffer@, cursor as int),
        ),
{
    let cs = chars_of(buffer);
    let k = cursor_char_index(&cs, cursor);
    let line = count_newlines(&cs, k);
    let start = find_line_start(&cs, k);
    (line, k - start)
}

/// Byte offset of the bytes of `cs[..k]`, which fits the buffer's length.
fn byte_offset_of(cs: &Vec<char>, k: usize, total: usize) -> (r: usize)
    requires
        k <= cs@.len(),
        utf8_len(cs@) == total,
    ensures
        r == byte_offset(cs@, k as int),
{
    let mut acc: usize = 0;
    let mut i: usize = 0;
    proof {
        assert(cs@.take(0) =~= Seq::<char>::empty());
        assert(cs@.take(cs@.len() as int) =~= cs@);
    }
    while i < k
        invariant
            i <= k <= cs@.len(),
            utf8_len(cs@) == total,
            acc == utf8_len(cs@.take(i as int)),
        decreases k - i,
    {
        proof {
            lemma_take_succ(cs@, i as int);
            lemma_take_mono(cs@, i + 1, cs@.len() as int);
        }
        assert(cs@.take(cs@.len() as int) =~= cs@);
        acc = acc + char_len_utf8(cs[i]);
        i += 1;
    }
    acc
}

/// Byte offset of the start of the cursor's line.
pub fn current_line_start(buffer: &str, cursor: usize) -> (r: usize)
    requires
        is_cursor(buffer@, cursor as int),
    ensures
        r == byte_offset(buffer@, line_start(buffer@, char_index(buffer@, cursor as int))),
{
    let total = buffer.as_bytes().len();
    proof {
        lemma_utf8_len_is_encoding_len(buffer@);
    }
    let cs = chars_of(buffer);
    let k = cursor_char_index(&cs, cursor);
    let start = find_line_start(&cs, k);
    byte_offset_of(&cs, start, total)
}

/// Index of the first `\n` at or after `k`, or the length if none.
pub open spec fn line_end(s: Seq<char>, k: int) -> int
    decreases s.len() - k,
{
    if k < 0 || k >= s.len() {
        s.len() as int
    } else if s[k] == '\n' {
        k
    } else {
        line_end(s, k + 1)
    }
}

/// Byte offset of the end of the cursor's line: its newline, or the end of
/// the buffer.
pub fn current_line_end(buffer: &str, cursor: usize) -> (r: usize)
    requires
        is_cursor(buffer@, cursor as int),
    ensures
        r == byte_offset(buffer@, line_end(buffer@, char_index(buffer@, cursor as int))),
{
    let total = buffer.as_bytes().len();
    proof {
        lemma_utf8_len_is_encoding_len(buffer@);
    }
    let cs = chars_of(buffer);
    let k = cursor_char_index(&cs, cursor);
    let mut j = k;
    while j < cs.len() && cs[j] != '\n'
        invariant
            k <= j <= cs@.len(),
            line_end(cs@, k as int) == line_end(cs@, j as int),
        decreases cs@.len() - j,
    {
        j += 1;
    }
    byte_offset_of(&cs, j, total)
}

/// Start of the run of white space that ends at `k`.
pub open spec fn space_back(s: Seq<char>, k: int) -> int
    decreases k,
{
    if k > 0 && k <= s.len() && is_white_space(s[k - 1]) {
        space_back(s, k - 1)
    } else {
        k
    }
}

/// Start of the run of non-white-space chars that ends at `k`.
pub open spec fn word_back(s: Seq<char>, k: int) -> int
    decreases k,
{
    if k > 0 && k <= s.len() && !is_white_space(s[k - 1]) {
        word_back(s, k - 1)
    } else {
        k
    }
}

/// Where deleting the word before char index `k` stops: back over white
/// space, then back over the word before it.
pub open spec fn word_start(s: Seq<char>, k: int) -> int {
    word_back(s, space_back(s, k))
}

/// Delete the word before the cursor (Ctrl+W): the white space just before
/// it and the word before that. The cursor moves to where the deletion
/// started; the text after the cursor is kept.
pub fn delete_word_back(buffer: &mut String, cursor: &mut usize)
    requires
        is_cursor(old(buffer)@, *old(cursor) as int),
    ensures
        ({
            let s = old(buffer)@;
            let k = char_index(s, *old(cursor) as int);
            let j = word_start(s, k);
            &&& final(buffer)@ == s.take(j) + s.skip(k)
            &&& *final(cursor) == byte_offset(s, j)
        }),
{
    let total = buffer.as_str().as_bytes().len();
    proof {
        lemma_utf8_len_is_encoding_len(buffer@);
    }
    let cs = chars_of(buffer.as_str());
    let k = cursor_char_index(&cs, *cursor);
    let mut p = k;
    while p > 0 && char_is_whitespace(cs[p - 1])
        invariant
            p <= k <= cs@.len(),
            space_back(cs@, k as int) == space_back(cs@, p as int),
        decreases p,
    {
        p -= 1;
    }
    let mut q = p;
    while q > 0 && !char_is_whitespace(cs[q - 1])
        invariant
            q <= p <= cs@.len(),
            word_back(cs@, p as int) == word_back(cs@, q as int),
        decreases q,
    {
        q -= 1;
    }
    let mut rebuilt = string_from_range(&cs, 0, q);
    let tail = string_from_range(&cs, k, cs.len());
    let tail_chars = chars_of(tail.as_str());
    append_chars(&mut rebuilt, &tail_chars);
    proof {
        assert(cs@.subrange(0, q as int) =~= cs@.take(q as int));
        assert(cs@.subrange(k as int, cs@.len() as int) =~= cs@.skip(k as int));
    }
    *buffer = rebuilt;
    *cursor = byte_offset_of(&cs, q, total);
}

/// Index of the last `@` before char index `k`, if any.
pub open spec fn last_at_sign(s: Seq<char>, k: int) -> Option<int>
    decreases k,
{
    if k <= 0 || k > s.len() {
        None
    } else if s[k - 1] == '@' {
        Some(k - 1)
    } else {
        last_at_sign(s, k - 1)
    }
}

/// The mention being typed at char index `k`: the last `@` before the
/// cursor, when it starts the buffer or follows white space, and no space
/// lies between it and the cursor. Its char index.
pub open spec fn mention_trigger(s: Seq<char>, k: int) -> Option<int> {
    match last_at_sign(s, k) {
        None => None,
        Some(a) => if a > 0 && !is_white_space(s[a - 1]) {
            None
        } else if exists|j: int| a < j < k && s[j] == ' ' {
            None
        } else {
            Some(a)
        },
    }
}

proof fn lemma_last_at_sign(s: Seq<char>, k: int)
    requires
        0 <= k <= s.len(),
    ensures
        last_at_sign(s, k) matches Some(a) ==> 0 <= a < k && s[a] == '@' && forall|j: int|
            a < j < k ==> s[j] != '@',
        last_at_sign(s, k) is None ==> forall|j: int| 0 <= j < k ==> s[j] != '@',
    decreases k,
{
    if k > 0 && s[k - 1] != '@' {
        lemma_last_at_sign(s, k - 1);
    }
}

/// A mention is being typed at char index `k` exactly when the last `@`
/// before `k` starts the text or follows white space, and no space lies
/// between it and `k`; the trigger is that `@`.
pub proof fn law_mention_trigger_is_the_last_at_sign(s: Seq<char>, k: int)
    requires
        0 <= k <= s.len(),
    ensures
        mention_trigger(s, k) matches Some(a) ==> {
            &&& 0 <= a < k
            &&& s[a] == '@'
            &&& forall|j: int| a < j < k ==> s[j] != '@' && s[j] != ' '
            &&& (a == 0 || is_white_space(s[a - 1]))
        },
        mention_trigger(s, k) is None ==> forall|a: int|
            0 <= a < k && #[trigger] s[a] == '@' && (forall|j: int| a < j < k ==> s[j] != '@') ==> (a > 0
                && !is_white_space(s[a - 1])) || exists|j: int| a < j < k && s[j] == ' ',
{
    lemma_last_at_sign(s, k);
    if mention_trigger(s, k) is None {
        assert forall|a: int|
            0 <= a < k && #[trigger] s[a] == '@' && (forall|j: int| a < j < k ==> s[j] != '@') implies (a > 0
            && !is_white_space(s[a - 1])) || exists|j: int| a < j < k && s[j] == ' ' by {
            if last_at_sign(s, k) is None {
                assert(s[a] != '@');
            } else {
                let b = last_at_sign(s, k)->0;
                if b < a {
                    assert(s[a] != '@');
                } else if b > a {
                    assert(s[b] != '@');
                }
            }
        }
    }
}

/// Byte offset of the `@` of a mention being typed at the cursor, if any.
pub fn find_mention_trigger(buffer: &str, cursor: usize) -> (r: Option<usize>)
    requires
        is_cursor(buffer@, cursor as int),
    ensures
        match mention_trigger(buffer@, char_index(buffer@, cursor as int)) {
            Some(a) => r == Some(byte_offset(buffer@, a) as usize),
            None => r is None,
        },
{
    let total = buffer.as_bytes().len();
    proof {
        lemma_utf8_len_is_encoding_len(buffer@);
    }
    let cs = chars_of(buffer);
    let k = cursor_char_index(&cs, cursor);
    let mut a = k;
    while a > 0 && cs[a - 1] != '@'
        invariant
            a <= k <= cs@.len(),
            last_at_sign(cs@, k as int) == last_at_sign(cs@, a as int),
        decreases a,
    {
        a -= 1;
    }
    if a == 0 {
        return None;
    }
    let at = a - 1;
    if at > 0 && !char_is_whitespace(cs[at - 1]) {
        return None;
    }
    let mut j = at + 1;
    while j < k
        invariant
            at < j <= k <= cs@.len(),
            cs@ == buffer@,
            k == char_index(buffer@, cursor as int),
            last_at_sign(cs@, k as int) == Some(at as int),
            forall|i: int| at < i < j ==> cs@[i] != ' ',
        decreases k - j,
    {
        if cs[j] == ' ' {
            assert(at < j < k && cs@[j as int] == ' ');
            return None;
        }
        j += 1;
    }
    let offset = byte_offset_of(&cs, at, total);
    proof {
        lemma_take_mono(cs@, at as int, cs@.len() as int);
        assert(cs@.take(cs@.len() as int) =~= cs@);
    }
    Some(offset)
}

proof fn lemma_line_start_le(s: Seq<char>, k: int)
    requires
        0 <= k <= s.len(),
    ensures
        0 <= line_start(s, k) <= k,
        forall|j: int| line_start(s, k) <= j < k ==> s[j] != '\n',
    decreases k,
{
    if k > 0 && s[k - 1] != '\n' {
        lemma_line_start_le(s, k - 1);
    }
}

proof fn lemma_line_end_ge(s: Seq<char>, k: int)
    requires
        0 <= k <= s.len(),
    ensures
        k <= line_end(s, k) <= s.len(),
        forall|j: int| k <= j < line_end(s, k) ==> s[j] != '\n',
    decreases s.len() - k,
{
    if k < s.len() && s[k] != '\n' {
        lemma_line_end_ge(s, k + 1);
    }
}

proof fn lemma_line_start_after_newline(s: Seq<char>, k: int)
    requires
        0 <= k <= s.len(),
    ensures
        line_start(s, k) > 0 ==> s[line_start(s, k) - 1] == '\n',
        line_start(s, k) == 0 ==> forall|j: int| 0 <= j < k ==> s[j] != '\n',
    decreases k,
{
    lemma_line_start_le(s, k);
    if k > 0 && s[k - 1] != '\n' {
        lemma_line_start_after_newline(s, k - 1);
    }
}

proof fn lemma_line_start_from(s: Seq<char>, a: int, t: int)
    requires
        0 <= a <= t <= s.len(),
        a == 0 || s[a - 1] == '\n',
        forall|j: int| a <= j < t ==> s[j] != '\n',
    ensures
        line_start(s, t) == a,
    decreases t - a,
{
    if t > a {
        lemma_line_start_from(s, a, t - 1);
    }
}

/// Up moves to the line just before the cursor's line, keeping the column
/// where that line is long enough and going to its end otherwise; on the
/// first line (no newline before the cursor) there is no target.
pub proof fn law_up_goes_to_previous_line(s: Seq<char>, k: int)
    requires
        0 <= k <= s.len(),
    ensures
        up_target(s, k) is None <==> forall|j: int| 0 <= j < k ==> s[j] != '\n',
        up_target(s, k) matches Some(t) ==> {
            let st = line_start(s, k);
            &&& 0 <= t < st
            &&& s[st - 1] == '\n'
            &&& forall|j: int| t <= j < st - 1 ==> s[j] != '\n'
            &&& t - line_start(s, t) == (if k - st < (st - 1) - line_start(s, t) {
                k - st
            } else {
                (st - 1) - line_start(s, t)
            })
        },
{
    lemma_line_start_le(s, k);
    lemma_line_start_after_newline(s, k);
    let st = line_start(s, k);
    if st > 0 {
        assert(!(forall|j: int| 0 <= j < k ==> s[j] != '\n')) by {
            assert(s[st - 1] == '\n');
        }
        lemma_line_start_le(s, st - 1);
        lemma_line_start_after_newline(s, st - 1);
        let ps = line_start(s, st - 1);
        let t = up_target(s, k)->0;
        lemma_line_start_from(s, ps, t);
    }
}

proof fn lemma_line_end_at_newline(s: Seq<char>, k: int)
    requires
        0 <= k <= s.len(),
    ensures
        line_end(s, k) < s.len() ==> s[line_end(s, k)] == '\n',
    decreases s.len() - k,
{
    if k < s.len() && s[k] != '\n' {
        lemma_line_end_at_newline(s, k + 1);
    }
}

/// Down moves to the line just after the cursor's line, keeping the column
/// where that line is long enough and going to its end otherwise; on the
/// last line (no newline at or after the cursor) there is no target.
pub proof fn law_down_goes_to_next_line(s: Seq<char>, k: int)
    requires
        0 <= k <= s.len(),
    ensures
        down_target(s, k) is None <==> forall|j: int| k <= j < s.len() ==> s[j] != '\n',
        down_target(s, k) matches Some(t) ==> {
            let e = line_end(s, k);
            let col = k - line_start(s, k);
            &&& k <= e < t <= s.len()
            &&& s[e] == '\n'
            &&& forall|j: int| k <= j < e ==> s[j] != '\n'
            &&& forall|j: int| e < j < t ==> s[j] != '\n'
            &&& (t - (e + 1) == col || (t - (e + 1) < col && (t == s.len() || s[t] == '\n')))
        },
{
    lemma_line_end_ge(s, k);
    lemma_line_end_at_newline(s, k);
    lemma_line_start_le(s, k);
    let e = line_end(s, k);
    if e < s.len() {
        assert(!(forall|j: int| k <= j < s.len() ==> s[j] != '\n')) by {
            assert(s[e] == '\n');
        }
        lemma_line_end_ge(s, e + 1);
        lemma_line_end_at_newline(s, e + 1);
    }
}

/// The cursor lies within its line: the line's start is at or before it,
/// the line's end at or after it, and no newline lies between them.
pub proof fn law_cursor_within_its_line(s: Seq<char>, cursor: int)
    requires
        is_cursor(s, cursor),
    ensures
        byte_offset(s, line_start(s, char_index(s, cursor))) <= cursor <= byte_offset(
            s,
            line_end(s, char_index(s, cursor)),
        ),
        forall|j: int|
            line_start(s, char_index(s, cursor)) <= j < line_end(s, char_index(s, cursor))
                ==> s[j] != '\n',
{
    let k = char_index(s, cursor);
    lemma_line_start_le(s, k);
    lemma_line_end_ge(s, k);
    lemma_take_mono(s, line_start(s, k), k);
    lemma_take_mono(s, k, line_end(s, k));
}

/// Char index the cursor moves to on Up: the same column on the previous
/// line, clamped to that line's length; `None` on the first line (where Up
/// browses the input history instead).
pub open spec fn up_target(s: Seq<char>, k: int) -> Option<int> {
    let start = line_start(s, k);
    if start == 0 {
        None
    } else {
        let prev_start = line_start(s, start - 1);
        let prev_len = (start - 1) - prev_start;
        let col = k - start;
        Some(prev_start + if col < prev_len {
            col
        } else {
            prev_len
        })
    }
}

/// Char index the cursor moves to on Down: the same column on the next
/// line, clamped to that line's length; `None` on the last line (where Down
/// browses the input history instead).
pub open spec fn down_target(s: Seq<char>, k: int) -> Option<int> {
    let end = line_end(s, k);
    if end >= s.len() {
        None
    } else {
        let next_start = end + 1;
        let next_len = line_end(s, next_start) - next_start;
        let col = k - line_start(s, k);
        Some(next_start + if col < next_len {
            col
        } else {
            next_len
        })
    }
}

/// Byte offset the cursor moves to on Up, or `None` on the first line.
pub fn cursor_up_target(buffer: &str, cursor: usize) -> (r: Option<usize>)
    requires
        is_cursor(buffer@, cursor as int),
    ensures
        match up_target(buffer@, char_index(buffer@, cursor as int)) {
            Some(t) => r == Some(byte_offset(buffer@, t) as usize),
            None => r is None,
        },
{
    let total = buffer.as_bytes().len();
    proof {
        lemma_utf8_len_is_encoding_len(buffer@);
    }
    let cs = chars_of(buffer);
    let k = cursor_char_index(&cs, cursor);
    let start = find_line_start(&cs, k);
    if start == 0 {
        return None;
    }
    proof {
        lemma_line_start_le(cs@, k as int);
    }
    let prev_start = find_line_start(&cs, start - 1);
    let prev_len = (start - 1) - prev_start;
    let col = k - start;
    let target = prev_start + if col < prev_len {
        col
    } else {
        prev_len
    };
    proof {
        lemma_take_mono(cs@, target as int, cs@.len() as int);
        assert(cs@.take(cs@.len() as int) =~= cs@);
    }
    Some(byte_offset_of(&cs, target, total))
}

/// Byte offset the cursor moves to on Down, or `None` on the last line.
pub fn cursor_down_target(buffer: &str, cursor: usize) -> (r: Option<usize>)
    requires
        is_cursor(buffer@, cursor as int),
    ensures
        match down_target(buffer@, char_index(buffer@, cursor as int)) {
            Some(t) => r == Some(byte_offset(buffer@, t) as usize),
            None => r is None,
        },
{
    let total = buffer.as_bytes().len();
    proof {
        lemma_utf8_len_is_encoding_len(buffer@);
    }
    let cs = chars_of(buffer);
    let n = cs.len();
    let k = cursor_char_index(&cs, cursor);
    let mut end = k;
    while end < n && cs[end] != '\n'
        invariant
            k <= end <= n,
            n == cs@.len(),
            line_end(cs@, k as int) == line_end(cs@, end as int),
        decreases n - end,
    {
        end += 1;
    }
    if end >= n {
        return None;
    }
    let next_start = end + 1;
    let mut next_end = next_start;
    while next_end < n && cs[next_end] != '\n'
        invariant
            next_start <= next_end <= n,
            n == cs@.len(),
            line_end(cs@, next_start as int) == line_end(cs@, next_end as int),
        decreases n - next_end,
    {
        next_end += 1;
    }
    proof {
        lemma_line_start_le(cs@, k as int);
    }
    let start = find_line_start(&cs, k);
    let next_len = next_end - next_start;
    let col = k - start;
    let target = next_start + if col < next_len {
        col
    } else {
        next_len
    };
    proof {
        lemma_take_mono(cs@, target as int, cs@.len() as int);
        assert(cs@.take(cs@.len() as int) =~= cs@);
    }
    Some(byte_offset_of(&cs, target, total))
}

/// The composer's input line as the history navigation sees it: the text
/// and cursor, the sent-message history (oldest first), the history entry
/// being browsed, and the draft put aside when browsing began.
#[derive(Default)]
pub struct InputState {
    pub buffer: String,
    pub cursor: usize,
    pub history: Vec<String>,
    pub history_index: Option<usize>,
    pub history_draft: String,
}

/// Mathematical view of [`InputState`].
#[verifier::ext_equal]
pub struct InputModel {
    pub buffer: Seq<char>,
    pub cursor: int,
    pub history: Seq<Seq<char>>,
    pub index: Option<int>,
    pub draft: Seq<char>,
}

impl View for InputState {
    type V = InputModel;

    open spec fn view(&self) -> InputModel {
        InputModel {
            buffer: self.buffer@,
            cursor: self.cursor as int,
            history: self.history@.map_values(|h: String| h@),
            index: match self.history_index {
                Some(i) => Some(i as int),
                None => None,
            },
            draft: self.history_draft@,
        }
    }
}

/// The browsed entry, if any, is one of the history's.
pub open spec fn input_wf(m: InputModel) -> bool {
    m.index matches Some(i) ==> 0 <= i < m.history.len()
}

/// `m` showing `text` with the cursor at its end.
pub open spec fn showing(m: InputModel, text: Seq<char>) -> InputModel {
    InputModel { buffer: text, cursor: utf8_len(text) as int, ..m }
}

/// One step up the history: from the draft, put the text aside and show the
/// newest entry; from an entry, show the one before it; at the oldest entry
/// or with no history, nothing changes.
pub open spec fn history_up_spec(m: InputModel) -> InputModel {
    if m.history.len() == 0 {
        m
    } else {
        match m.index {
            None => showing(
                InputModel { draft: m.buffer, index: Some(m.history.len() - 1), ..m },
                m.history[m.history.len() - 1],
            ),
            Some(i) => if i > 0 {
                showing(InputModel { index: Some(i - 1), ..m }, m.history[i - 1])
            } else {
                m
            },
        }
    }
}

/// One step down the history: show the next entry, or past the newest bring
/// the draft back and stop browsing; not browsing, nothing changes.
pub open spec fn history_down_spec(m: InputModel) -> InputModel {
    match m.index {
        None => m,
        Some(i) => if i + 1 < m.history.len() {
            showing(InputModel { index: Some(i + 1), ..m }, m.history[i + 1])
        } else {
            showing(InputModel { index: None, ..m }, m.draft)
        },
    }
}

impl InputState {
    /// Show `text` with the cursor at its end.
    fn show(&mut self, text: String)
        ensures
            final(self)@ == showing(old(self)@, text@),
    {
        let len = text.as_str().as_bytes().len();
        proof {
            lemma_utf8_len_is_encoding_len(text@);
        }
        self.buffer = text;
        self.cursor = len;
    }

    /// Navigate up through the input history (older entries).
    pub fn history_up(&mut self)
        requires
            input_wf(old(self)@),
        ensures
            input_wf(final(self)@),
            final(self)@ == history_up_spec(old(self)@),
    {
        if self.history.len() == 0 {
            return;
        }
        let target = match self.history_index {
            None => {
                self.history_draft = self.buffer.clone();
                self.history.len() - 1
            },
            Some(idx) => {
                if idx > 0 {
                    idx - 1
                } else {
                    return;
                }
            },
        };
        self.history_index = Some(target);
        let text = self.history[target].clone();
        self.show(text);
    }

    /// Navigate down through the input history (newer entries).
    pub fn history_down(&mut self)
        requires
            input_wf(old(self)@),
        ensures
            input_wf(final(self)@),
            final(self)@ == history_down_spec(old(self)@),
    {
        let idx = match self.history_index {
            Some(idx) => idx,
            None => return,
        };
        if idx < self.history.len() - 1 {
            self.history_index = Some(idx + 1);
            let text = self.history[idx + 1].clone();
            self.show(text);
        } else {
            let text = self.history_draft.clone();
            self.history_index = None;
            self.show(text);
        }
    }
}

/// `k` steps up the history.
pub open spec fn history_ups(m: InputModel, k: nat) -> InputModel
    decreases k,
{
    if k == 0 {
        m
    } else {
        history_ups(history_up_spec(m), (k - 1) as nat)
    }
}

/// `k` steps down the history.
pub open spec fn history_downs(m: InputModel, k: nat) -> InputModel
    decreases k,
{
    if k == 0 {
        m
    } else {
        history_downs(history_down_spec(m), (k - 1) as nat)
    }
}

/// From the draft, `k` steps up show the `k`-th newest entry, with the
/// draft put aside.
proof fn lemma_history_ups(m: InputModel, k: nat)
    requires
        m.index is None,
        1 <= k <= m.history.len(),
    ensures
        history_ups(m, k).index == Some(m.history.len() - k),
        history_ups(m, k).draft == m.buffer,
        history_ups(m, k).history == m.history,
        history_ups(m, k).buffer == m.history[m.history.len() - k],
    decreases k,
{
    let m1 = history_up_spec(m);
    assert(history_ups(m, k) == history_ups(m1, (k - 1) as nat));
    lemma_history_ups_from(m1, (k - 1) as nat);
}

proof fn lemma_history_ups_from(x: InputModel, j: nat)
    requires
        x.index matches Some(i) && j <= i < x.history.len(),
    ensures
        history_ups(x, j).index == Some(x.index->0 - j),
        history_ups(x, j).draft == x.draft,
        history_ups(x, j).history == x.history,
        j > 0 ==> history_ups(x, j).buffer == x.history[x.index->0 - j],
        j == 0 ==> history_ups(x, j) == x,
    decreases j,
{
    if j > 0 {
        assert(history_ups(x, j) == history_ups(history_up_spec(x), (j - 1) as nat));
        lemma_history_ups_from(history_up_spec(x), (j - 1) as nat);
    }
}

/// From entry `n - j`, `j` steps down bring back the draft and end browsing.
proof fn lemma_history_downs(x: InputModel, j: nat)
    requires
        1 <= j <= x.history.len(),
        x.index == Some(x.history.len() - j),
    ensures
        history_downs(x, j).index is None,
        history_downs(x, j).buffer == x.draft,
        history_downs(x, j).cursor == utf8_len(x.draft),
    decreases j,
{
    let x1 = history_down_spec(x);
    assert(history_downs(x, j) == history_downs(x1, (j - 1) as nat));
    if j > 1 {
        lemma_history_downs(x1, (j - 1) as nat);
    } else {
        assert(history_downs(x1, 0) == x1);
    }
}

/// Browsing the history up `k` steps from the draft (at most the length of
/// the history) and back down `k` steps restores what was being typed, with
/// the cursor at its end, and ends browsing.
pub proof fn law_history_up_then_down_restores_draft(m: InputModel, k: nat)
    requires
        input_wf(m),
        m.index is None,
        1 <= k <= m.history.len(),
    ensures
        history_downs(history_ups(m, k), k).buffer == m.buffer,
        history_downs(history_ups(m, k), k).cursor == utf8_len(m.buffer),
        history_downs(history_ups(m, k), k).index is None,
{
    lemma_history_ups(m, k);
    lemma_history_downs(history_ups(m, k), k);
}

// ---------------------------------------------------------------------------
// Editing keys
// ---------------------------------------------------------------------------

/// A key the input line handles itself.
#[derive(Debug, Clone, Copy, PartialEq, Eq, Structural)]
pub enum EditKey {
    Backspace,
    Delete,
    Left,
    Right,
    Home,
    End,
    Up,
    Down,
    Char(char),
    /// Any other key: not an editing key.
    Other,
}

/// `m` with the cursor moved to char index `j`.
pub open spec fn cursor_at(m: InputModel, j: int) -> InputModel {
    InputModel { cursor: byte_offset(m.buffer, j), ..m }
}

/// The input line after an editing key. Backspace deletes the char before
/// the cursor and Delete the char at it; Left and Right move one char;
/// Home and End go to the bounds of the cursor's line; Up and Down move to
/// the same column of the neighbouring line, or browse the history from the
/// first or last line; a char is inserted at the cursor, which moves past it.
pub open spec fn edit_spec(m: InputModel, key: EditKey) -> InputModel {
    let s = m.buffer;
    let k = char_index(s, m.cursor);
    match key {
        EditKey::Backspace => if k > 0 {
            InputModel { buffer: s.take(k - 1) + s.skip(k), cursor: byte_offset(s, k - 1), ..m }
        } else {
            m
        },
        EditKey::Delete => if k < s.len() {
            InputModel { buffer: s.take(k) + s.skip(k + 1), ..m }
        } else {
            m
        },
        EditKey::Left => if k > 0 {
            cursor_at(m, k - 1)
        } else {
            m
        },
        EditKey::Right => if k < s.len() {
            cursor_at(m, k + 1)
        } else {
            m
        },
        EditKey::Home => cursor_at(m, line_start(s, k)),
        EditKey::End => cursor_at(m, line_end(s, k)),
        EditKey::Up => match up_target(s, k) {
            Some(t) => cursor_at(m, t),
            None => history_up_spec(m),
        },
        EditKey::Down => match down_target(s, k) {
            Some(t) => cursor_at(m, t),
            None => history_down_spec(m),
        },
        EditKey::Char(c) => InputModel {
            buffer: s.take(k).push(c) + s.skip(k),
            cursor: m.cursor + utf8_width(c),
            ..m
        },
        EditKey::Other => m,
    }
}

/// `cs[..a]`, then `ins` if any, then `cs[b..]`.
fn splice(cs: &Vec<char>, a: usize, b: usize, ins: Option<char>) -> (r: String)
    requires
        a <= b <= cs@.len(),
    ensures
        r@ == match ins {
            Some(c) => cs@.take(a as int).push(c) + cs@.skip(b as int),
            None => cs@.take(a as int) + cs@.skip(b as int),
        },
{
    let mut out = string_from_range(cs, 0, a);
    if let Some(c) = ins {
        push_char(&mut out, c);
    }
    let tail = string_from_range(cs, b, cs.len());
    append_chars(&mut out, &chars_of(tail.as_str()));
    proof {
        assert(cs@.subrange(0, a as int) =~= cs@.take(a as int));
        assert(cs@.subrange(b as int, cs@.len() as int) =~= cs@.skip(b as int));
    }
    out
}

/// A char index's byte offset is a cursor.
pub(crate) proof fn lemma_offset_is_cursor(s: Seq<char>, j: int)
    requires
        0 <= j <= s.len(),
    ensures
        is_cursor(s, byte_offset(s, j)),
        char_index(s, byte_offset(s, j)) == j,
{
    lemma_char_index(s, j);
}

impl InputState {
    /// Apply an editing key to the input line; returns whether the key was
    /// an editing key. Backspace at the very start drops a pending
    /// attachment instead. The cursor stays on a char boundary.
    pub fn apply_input_edit(&mut self, key: EditKey, pending_attachment: &mut bool) -> (handled:
        bool)
        requires
            input_wf(old(self)@),
            is_cursor(old(self)@.buffer, old(self)@.cursor),
        ensures
            input_wf(final(self)@),
            is_cursor(final(self)@.buffer, final(self)@.cursor),
            final(self)@ == edit_spec(old(self)@, key),
            *final(pending_attachment) == if key == EditKey::Backspace && char_index(
                old(self)@.buffer,
                old(self)@.cursor,
            ) == 0 {
                false
            } else {
                *old(pending_attachment)
            },
            handled == (key != EditKey::Other),
    {
        let ghost m = self@;
        let total = self.buffer.as_str().as_bytes().len();
        proof {
            lemma_utf8_len_is_encoding_len(self.buffer@);
        }
        let cs = chars_of(self.buffer.as_str());
        let k = cursor_char_index(&cs, self.cursor);
        let n = cs.len();
        match key {
            EditKey::Backspace => {
                if k > 0 {
                    let new_cursor = byte_offset_of(&cs, k - 1, total);
                    let text = splice(&cs, k - 1, k, None);
                    self.buffer = text;
                    self.cursor = new_cursor;
                    proof {
                        assert(self.buffer@.take(k - 1) =~= cs@.take(k - 1));
                        lemma_offset_is_cursor(self.buffer@, k - 1);
                        assert(self@ =~= edit_spec(m, key));
                    }
                } else {
                    *pending_attachment = false;
                }
                true
            },
            EditKey::Delete => {
                if k < n {
                    let text = splice(&cs, k, k + 1, None);
                    self.buffer = text;
                    proof {
                        assert(self.buffer@.take(k as int) =~= cs@.take(k as int));
                        lemma_offset_is_cursor(self.buffer@, k as int);
                    }
                }
                true
            },
            EditKey::Left => {
                if k > 0 {
                    self.cursor = byte_offset_of(&cs, k - 1, total);
                    proof {
                        lemma_offset_is_cursor(cs@, k - 1);
                    }
                }
                true
            },
            EditKey::Right => {
                if k < n {
                    self.cursor = byte_offset_of(&cs, k + 1, total);
                    proof {
                        lemma_offset_is_cursor(cs@, k + 1);
                    }
                }
                true
            },
            EditKey::Home => {
                let start = find_line_start(&cs, k);
                self.cursor = byte_offset_of(&cs, start, total);
                proof {
                    lemma_line_start_le(cs@, k as int);
                    lemma_offset_is_cursor(cs@, start as int);
                }
                true
            },
            EditKey::End => {
                let mut end = k;
                while end < n && cs[end] != '\n'
                    invariant
                        k <= end <= n,
                        n == cs@.len(),
                        line_end(cs@, k as int) == line_end(cs@, end as int),
                    decreases n - end,
                {
                    end += 1;
                }
                self.cursor = byte_offset_of(&cs, end, total);
                proof {
                    lemma_offset_is_cursor(cs@, end as int);
                }
                true
            },
            EditKey::Up => {
                match cursor_up_target(self.buffer.as_str(), self.cursor) {
                    Some(t) => {
                        self.cursor = t;
                        proof {
                            lemma_line_start_le(cs@, k as int);
                            let start = line_start(cs@, k as int);
                            if start > 0 {
                                lemma_line_start_le(cs@, start - 1);
                            }
                            let j = up_target(cs@, k as int)->0;
                            lemma_offset_is_cursor(cs@, j);
                            lemma_take_mono(cs@, j, n as int);
                            lemma_take_full(cs@);
                        }
                    },
                    None => {
                        self.history_up();
                        proof {
                            lemma_take_full(self.buffer@);
                            lemma_offset_is_cursor(self.buffer@, self.buffer@.len() as int);
                        }
                    },
                }
                true
            },
            EditKey::Down => {
                match cursor_down_target(self.buffer.as_str(), self.cursor) {
                    Some(t) => {
                        self.cursor = t;
                        proof {
                            lemma_line_start_le(cs@, k as int);
                            lemma_line_end_ge(cs@, k as int);
                            let end = line_end(cs@, k as int);
                            lemma_line_end_ge(cs@, end + 1);
                            let j = down_target(cs@, k as int)->0;
                            lemma_offset_is_cursor(cs@, j);
                            lemma_take_mono(cs@, j, n as int);
                            lemma_take_full(cs@);
                        }
                    },
                    None => {
                        self.history_down();
                        proof {
                            lemma_take_full(self.buffer@);
                            lemma_offset_is_cursor(self.buffer@, self.buffer@.len() as int);
                        }
                    },
                }
                true
            },
            EditKey::Char(c) => {
                let text = splice(&cs, k, k, Some(c));
                let new_total = text.as_str().as_bytes().len();
                proof {
                    lemma_utf8_len_is_encoding_len(text@);
                }
                let new_chars = chars_of(text.as_str());
                let nn = new_chars.len();
                assert(nn == n + 1);
                let new_cursor = byte_offset_of(&new_chars, k + 1, new_total);
                proof {
                    assert(new_chars@.take(k + 1) =~= cs@.take(k as int).push(c));
                    assert(new_chars@.take(k + 1).drop_last() =~= cs@.take(k as int));
                    lemma_offset_is_cursor(new_chars@, k + 1);
                }
                self.buffer = text;
                self.cursor = new_cursor;
                true
            },
            EditKey::Other => false,
        }
    }
}

/// The whole of a sequence is its longest prefix.
proof fn lemma_take_full(s: Seq<char>)
    ensures
        s.take(s.len() as int) == s,
{
    assert(s.take(s.len() as int) =~= s);
}

/// Typing a char and then pressing Backspace gives back the input line as it
/// was: the same text and the same cursor.
pub proof fn law_type_then_backspace_restores(m: InputModel, c: char)
    requires
        is_cursor(m.buffer, m.cursor),
    ensures
        edit_spec(edit_spec(m, EditKey::Char(c)), EditKey::Backspace) == m,
{
    let s = m.buffer;
    let k = char_index(s, m.cursor);
    assert(0 <= k <= s.len() && utf8_len(s.take(k)) == m.cursor);
    let s2 = s.take(k).push(c) + s.skip(k);
    let m2 = edit_spec(m, EditKey::Char(c));
    assert(m2.buffer == s2);
    assert(s2.take(k + 1) =~= s.take(k).push(c));
    assert(s2.take(k) =~= s.take(k));
    lemma_take_succ(s2, k);
    assert(byte_offset(s2, k + 1) == m.cursor + utf8_width(c));
    lemma_offset_is_cursor(s2, k + 1);
    assert(char_index(s2, m2.cursor) == k + 1);
    assert(s2.take(k) + s2.skip(k + 1) =~= s);
}

/// Left then Right, away from the start of the line buffer, puts the cursor
/// back where it was; so does Right then Left away from its end.
pub proof fn law_left_right_cancel(m: InputModel)
    requires
        is_cursor(m.buffer, m.cursor),
    ensures
        char_index(m.buffer, m.cursor) > 0 ==> edit_spec(edit_spec(m, EditKey::Left), EditKey::Right)
            == m,
        char_index(m.buffer, m.cursor) < m.buffer.len() ==> edit_spec(
            edit_spec(m, EditKey::Right),
            EditKey::Left,
        ) == m,
{
    let s = m.buffer;
    let k = char_index(s, m.cursor);
    assert(0 <= k <= s.len() && utf8_len(s.take(k)) == m.cursor);
    if k > 0 {
        lemma_offset_is_cursor(s, k - 1);
        lemma_offset_is_cursor(s, k);
    }
    if k < s.len() {
        lemma_offset_is_cursor(s, k + 1);
        lemma_offset_is_cursor(s, k);
    }
}

} // verus!
