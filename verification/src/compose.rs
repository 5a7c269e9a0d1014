//! Composer text-formatting markup.
//!
//! Signal has no wire-format markup; styles travel as (start, length, STYLE)
//! ranges alongside a plain body. The composer accepts a WhatsApp-style
//! input syntax and converts it to those ranges at send time: `*bold*`,
//! `_italic_`, `~strikethrough~`, `` `monospace` ``, `||spoiler||`.
//!
//! Rules (to avoid mangling ordinary text like `snake_case` or `2 * 3`):
//! - an opening marker must not follow an alphanumeric char and must be
//!   directly attached to non-whitespace text;
//! - a closing marker must be directly attached to preceding non-whitespace
//!   text and must not be followed by an alphanumeric char;
//! - a span never crosses a newline;
//! - text inside a detected URI (`https://`, `http://`, `file:///`) is
//!   always literal, so underscores in URLs survive;
//! - spans do not nest: content inside a span is copied verbatim.
//!
//! Unmatched or invalid markers are left in the text untouched.
use vstd::prelude::*;

use crate::text::{
    char_is_alphanumeric, char_is_whitespace, char_len_utf16, chars_of, is_alphanumeric,
    is_white_space, lemma_len_concat, lemma_subrange_len, lemma_take_mono, lemma_take_succ,
    lemma_utf16_le_utf8, lemma_utf8_len_is_encoding_len, push_char, utf16_len, utf8_len,
};
use crate::types::StyleType;

verus! {

/// The result of parsing composer markup: the stripped body plus the same
/// style ranges in the two coordinate systems callers need. `byte_ranges`
/// feeds local display; `utf16_ranges` feeds the wire `textStyle` param;
/// `removed_utf16` lets callers shift offsets that were computed on the
/// input text (mention placeholders).
pub struct Markup {
    /// Text with style markers removed.
    pub body: String,
    /// Style ranges as byte (start, end) offsets into `body`.
    pub byte_ranges: Vec<(usize, usize, StyleType)>,
    /// Style ranges as UTF-16 (start, length) into `body`.
    pub utf16_ranges: Vec<(usize, usize, StyleType)>,
    /// UTF-16 offsets, in the input text, of each removed marker char,
    /// ascending. Every marker char is ASCII, so each is one UTF-16 unit.
    pub removed_utf16: Vec<usize>,
}

// ---------------------------------------------------------------------------
// The meaning of markup
// ---------------------------------------------------------------------------

pub open spec fn https_scheme() -> Seq<char> {
    seq!['h', 't', 't', 'p', 's', ':', '/', '/']
}

pub open spec fn http_scheme() -> Seq<char> {
    seq!['h', 't', 't', 'p', ':', '/', '/']
}

pub open spec fn file_scheme() -> Seq<char> {
    seq!['f', 'i', 'l', 'e', ':', '/', '/', '/']
}

/// `pat` occurs in `chars` starting at index `i`.
pub open spec fn matches_at(chars: Seq<char>, i: int, pat: Seq<char>) -> bool {
    &&& 0 <= i
    &&& i + pat.len() <= chars.len()
    &&& forall|k: int| 0 <= k < pat.len() ==> chars[i + k] == pat[k]
}

/// A URI scheme starts at index `i`.
pub open spec fn scheme_at(chars: Seq<char>, i: int) -> bool {
    ||| matches_at(chars, i, https_scheme())
    ||| matches_at(chars, i, http_scheme())
    ||| matches_at(chars, i, file_scheme())
}

/// Char `j` belongs to a URI: a scheme starts at or before it and no white
/// space lies between that start and `j`.
pub open spec fn in_uri(chars: Seq<char>, j: int) -> bool {
    exists|s: int|
        0 <= s <= j && #[trigger] scheme_at(chars, s) && forall|k: int|
            s <= k <= j ==> !is_white_space(#[trigger] chars[k])
}

/// For every char, whether it belongs to a URI.
pub open spec fn uri_mask_spec(chars: Seq<char>) -> Seq<bool> {
    Seq::new(chars.len(), |j: int| in_uri(chars, j))
}

/// The style marker starting at `chars[i]`, as (marker length, style).
pub open spec fn delim_spec(chars: Seq<char>, i: int) -> Option<(int, StyleType)> {
    if chars[i] == '|' && i + 1 < chars.len() && chars[i + 1] == '|' {
        Some((2, StyleType::Spoiler))
    } else if chars[i] == '*' {
        Some((1, StyleType::Bold))
    } else if chars[i] == '_' {
        Some((1, StyleType::Italic))
    } else if chars[i] == '~' {
        Some((1, StyleType::Strikethrough))
    } else if chars[i] == '`' {
        Some((1, StyleType::Monospace))
    } else {
        None
    }
}

/// Each marker stands for its style: `*` bold, `_` italic, `~`
/// strikethrough, `` ` `` monospace (one char each), `||` spoiler (two
/// chars); no other char opens or closes a span.
pub proof fn law_markers_name_their_styles(chars: Seq<char>, i: int)
    requires
        0 <= i < chars.len(),
    ensures
        chars[i] == '*' ==> delim_spec(chars, i) == Some((1int, StyleType::Bold)),
        chars[i] == '_' ==> delim_spec(chars, i) == Some((1int, StyleType::Italic)),
        chars[i] == '~' ==> delim_spec(chars, i) == Some((1int, StyleType::Strikethrough)),
        chars[i] == '`' ==> delim_spec(chars, i) == Some((1int, StyleType::Monospace)),
        chars[i] == '|' && i + 1 < chars.len() && chars[i + 1] == '|' ==> delim_spec(chars, i)
            == Some((2int, StyleType::Spoiler)),
        delim_spec(chars, i) is Some ==> chars[i] == '*' || chars[i] == '_' || chars[i] == '~'
            || chars[i] == '`' || (chars[i] == '|' && i + 1 < chars.len() && chars[i + 1] == '|'),
{
}

/// The `k`-th char at `j` repeats the `k`-th char of the opener before
/// `content_start`.
pub open spec fn marker_char_matches(chars: Seq<char>, content_start: int, dlen: int, j: int, k: int) -> bool {
    chars[j + k] == chars[content_start - dlen + k]
}

/// A valid closer for the opener just before `content_start` sits at `j`:
/// the same marker chars, outside a URI, attached to the preceding text and
/// not followed by an alphanumeric char.
pub open spec fn closes_at(
    chars: Seq<char>,
    mask: Seq<bool>,
    content_start: int,
    dlen: int,
    j: int,
) -> bool {
    &&& forall|k: int| 0 <= k < dlen ==> #[trigger] marker_char_matches(chars, content_start, dlen, j, k)
    &&& !mask[j]
    &&& !is_white_space(chars[j - 1])
    &&& (j + dlen >= chars.len() || !is_alphanumeric(chars[j + dlen]))
}

/// The first closer at or after `j`, unless a newline comes first.
pub open spec fn first_closer(
    chars: Seq<char>,
    mask: Seq<bool>,
    content_start: int,
    dlen: int,
    j: int,
) -> Option<int>
    decreases chars.len() - j,
{
    if j < 0 || dlen <= 0 || j + dlen > chars.len() {
        None
    } else if chars[j] == '\n' {
        None
    } else if closes_at(chars, mask, content_start, dlen, j) {
        Some(j)
    } else {
        first_closer(chars, mask, content_start, dlen, j + 1)
    }
}

/// The span that opens at `chars[i]`, as (closer index, marker length,
/// style), if a valid one does.
pub open spec fn span_at(chars: Seq<char>, mask: Seq<bool>, i: int) -> Option<(int, int, StyleType)> {
    if mask[i] {
        None
    } else {
        match delim_spec(chars, i) {
            None => None,
            Some((dlen, style)) => {
                let prev_ok = i == 0 || !is_alphanumeric(chars[i - 1]);
                let next_ok = i + dlen < chars.len() && !is_white_space(chars[i + dlen]);
                if prev_ok && next_ok {
                    match first_closer(chars, mask, i + dlen, dlen, i + dlen + 1) {
                        Some(close) => Some((close, dlen, style)),
                        None => None,
                    }
                } else {
                    None
                }
            }
        }
    }
}

/// Mathematical counterpart of [`Markup`].
#[verifier::ext_equal]
pub struct MarkupModel {
    pub body: Seq<char>,
    pub byte_ranges: Seq<(int, int, StyleType)>,
    pub utf16_ranges: Seq<(int, int, StyleType)>,
    pub removed: Seq<int>,
}

/// UTF-16 offset of `chars[k]` in the input text.
pub open spec fn prefix_utf16(chars: Seq<char>, k: int) -> int {
    utf16_len(chars.take(k)) as int
}

/// UTF-16 offsets of the `dlen` marker chars starting at `at`.
pub open spec fn marker_offsets(chars: Seq<char>, at: int, dlen: int) -> Seq<int> {
    Seq::new(dlen as nat, |k: int| prefix_utf16(chars, at + k))
}

/// The state after emitting the span opening at `i` and closing at `close`.
pub open spec fn with_span(
    chars: Seq<char>,
    st: MarkupModel,
    i: int,
    close: int,
    dlen: int,
    style: StyleType,
) -> MarkupModel {
    let body = st.body + chars.subrange(i + dlen, close);
    MarkupModel {
        body,
        byte_ranges: st.byte_ranges.push((utf8_len(st.body) as int, utf8_len(body) as int, style)),
        utf16_ranges: st.utf16_ranges.push(
            (utf16_len(st.body) as int, utf16_len(body) - utf16_len(st.body), style),
        ),
        removed: st.removed + marker_offsets(chars, i, dlen) + marker_offsets(chars, close, dlen),
    }
}

/// The state after copying one literal char.
pub open spec fn with_char(st: MarkupModel, c: char) -> MarkupModel {
    MarkupModel { body: st.body.push(c), ..st }
}

/// Left-to-right scan from index `i` with state `st`: a valid span is
/// stripped of its markers and recorded, anything else is copied.
pub open spec fn scan(chars: Seq<char>, mask: Seq<bool>, i: int, st: MarkupModel) -> MarkupModel
    decreases chars.len() - i,
{
    if i < 0 || i >= chars.len() {
        st
    } else {
        match span_at(chars, mask, i) {
            Some((close, dlen, style)) => {
                if i < close + dlen <= chars.len() {
                    scan(chars, mask, close + dlen, with_span(chars, st, i, close, dlen, style))
                } else {
                    st
                }
            },
            None => scan(chars, mask, i + 1, with_char(st, chars[i])),
        }
    }
}

pub open spec fn empty_model() -> MarkupModel {
    MarkupModel {
        body: Seq::empty(),
        byte_ranges: Seq::empty(),
        utf16_ranges: Seq::empty(),
        removed: Seq::empty(),
    }
}

/// What `parse_markup` makes of a text.
pub open spec fn markup_model(text: Seq<char>) -> MarkupModel {
    scan(text, uri_mask_spec(text), 0, empty_model())
}

pub open spec fn ranges_model(v: Seq<(usize, usize, StyleType)>) -> Seq<(int, int, StyleType)> {
    v.map_values(|t: (usize, usize, StyleType)| (t.0 as int, t.1 as int, t.2))
}

pub open spec fn offsets_model(v: Seq<usize>) -> Seq<int> {
    v.map_values(|x: usize| x as int)
}

impl Markup {
    pub open spec fn model(&self) -> MarkupModel {
        MarkupModel {
            body: self.body@,
            byte_ranges: ranges_model(self.byte_ranges@),
            utf16_ranges: ranges_model(self.utf16_ranges@),
            removed: offsets_model(self.removed_utf16@),
        }
    }
}

pub open spec fn delim_model(r: Option<(usize, StyleType)>) -> Option<(int, StyleType)> {
    match r {
        Some((d, s)) => Some((d as int, s)),
        None => None,
    }
}

pub open spec fn index_model(r: Option<usize>) -> Option<int> {
    match r {
        Some(j) => Some(j as int),
        None => None,
    }
}

// ---------------------------------------------------------------------------
// Lemmas
// ---------------------------------------------------------------------------

/// A closer found from `j` lies at or after `j` and leaves room for the marker.
pub proof fn lemma_first_closer_bounds(
    chars: Seq<char>,
    mask: Seq<bool>,
    content_start: int,
    dlen: int,
    j: int,
)
    ensures
        first_closer(chars, mask, content_start, dlen, j) matches Some(c) ==> j <= c && c + dlen
            <= chars.len() && closes_at(chars, mask, content_start, dlen, c),
    decreases chars.len() - j,
{
    if j < 0 || dlen <= 0 || j + dlen > chars.len() {
    } else if chars[j] == '\n' {
    } else if closes_at(chars, mask, content_start, dlen, j) {
    } else {
        lemma_first_closer_bounds(chars, mask, content_start, dlen, j + 1);
    }
}

/// The chars that can open or close a span.
pub open spec fn is_marker_char(c: char) -> bool {
    c == '*' || c == '_' || c == '~' || c == '`' || c == '|'
}

/// The markup model with `chars[..i]` copied verbatim and nothing else.
pub open spec fn verbatim_model(chars: Seq<char>, i: int) -> MarkupModel {
    MarkupModel { body: chars.take(i), ..empty_model() }
}

proof fn lemma_scan_plain(chars: Seq<char>, mask: Seq<bool>, i: int)
    requires
        0 <= i <= chars.len(),
        mask.len() == chars.len(),
        forall|k: int| 0 <= k < chars.len() ==> !is_marker_char(#[trigger] chars[k]),
    ensures
        scan(chars, mask, i, verbatim_model(chars, i)) == verbatim_model(chars, chars.len() as int),
    decreases chars.len() - i,
{
    if i < chars.len() {
        assert(!is_marker_char(chars[i]));
        assert(delim_spec(chars, i) is None);
        assert(chars.take(i).push(chars[i]) =~= chars.take(i + 1));
        assert(with_char(verbatim_model(chars, i), chars[i]) =~= verbatim_model(chars, i + 1));
        lemma_scan_plain(chars, mask, i + 1);
    }
}

/// Text without any marker char passes through unchanged: the body is the
/// text itself and no range or removed offset is reported.
pub proof fn law_plain_text_unchanged(text: Seq<char>)
    requires
        forall|k: int| 0 <= k < text.len() ==> !is_marker_char(#[trigger] text[k]),
    ensures
        markup_model(text) == (MarkupModel { body: text, ..empty_model() }),
{
    assert(text.take(0) =~= Seq::<char>::empty());
    assert(verbatim_model(text, 0) =~= empty_model());
    lemma_scan_plain(text, uri_mask_spec(text), 0);
    assert(text.take(text.len() as int) =~= text);
}

/// The invariant of a scan that has consumed `chars[..i]` into `st`.
pub open spec fn scan_state_ok(chars: Seq<char>, i: int, st: MarkupModel) -> bool {
    &&& 0 <= i <= chars.len()
    &&& st.body.len() + st.removed.len() == i
    &&& utf16_len(st.body) + st.removed.len() == prefix_utf16(chars, i)
    &&& forall|a: int, b: int|
        0 <= a < b < st.removed.len() ==> #[trigger] st.removed[a] < #[trigger] st.removed[b]
    &&& forall|a: int| 0 <= a < st.removed.len() ==> 0 <= #[trigger] st.removed[a] < prefix_utf16(chars, i)
    &&& st.byte_ranges.len() == st.utf16_ranges.len()
    &&& forall|r: int|
        0 <= r < st.byte_ranges.len() ==> 0 <= (#[trigger] st.byte_ranges[r]).0 <= st.byte_ranges[r].1
            <= utf8_len(st.body)
    &&& forall|r: int|
        0 <= r < st.utf16_ranges.len() ==> 0 <= (#[trigger] st.utf16_ranges[r]).0 && 0
            <= st.utf16_ranges[r].1 && st.utf16_ranges[r].0 + st.utf16_ranges[r].1 <= utf16_len(
            st.body,
        )
}

/// Marker chars are single UTF-16 units, so consecutive marker offsets step
/// by one.
proof fn lemma_marker_offsets(chars: Seq<char>, at: int, dlen: int)
    requires
        0 <= at,
        at + dlen <= chars.len(),
        1 <= dlen <= 2,
        forall|k: int| 0 <= k < dlen ==> is_marker_char(#[trigger] chars[at + k]),
    ensures
        forall|k: int|
            0 <= k < dlen ==> #[trigger] marker_offsets(chars, at, dlen)[k] == prefix_utf16(chars, at)
                + k,
        prefix_utf16(chars, at + dlen) == prefix_utf16(chars, at) + dlen,
        marker_offsets(chars, at, dlen).len() == dlen,
{
    lemma_take_succ(chars, at);
    assert(is_marker_char(chars[at + 0]));
    if dlen == 2 {
        lemma_take_succ(chars, at + 1);
        assert(is_marker_char(chars[at + 1]));
    }
}

proof fn lemma_span_step(
    chars: Seq<char>,
    mask: Seq<bool>,
    i: int,
    st: MarkupModel,
    close: int,
    dlen: int,
    style: StyleType,
)
    requires
        scan_state_ok(chars, i, st),
        mask.len() == chars.len(),
        0 <= i < chars.len(),
        span_at(chars, mask, i) == Some((close, dlen, style)),
    ensures
        i < close + dlen <= chars.len(),
        scan_state_ok(chars, close + dlen, with_span(chars, st, i, close, dlen, style)),
{
    let (d, sty) = delim_spec(chars, i)->0;
    assert(d == dlen);
    lemma_first_closer_bounds(chars, mask, i + dlen, dlen, i + dlen + 1);
    assert(forall|k: int| 0 <= k < dlen ==> is_marker_char(#[trigger] chars[i + k])) by {
        assert(is_marker_char(chars[i + 0]));
        if dlen == 2 {
            assert(is_marker_char(chars[i + 1]));
        }
    }
    assert(forall|k: int| 0 <= k < dlen ==> is_marker_char(#[trigger] chars[close + k])) by {
        assert(marker_char_matches(chars, i + dlen, dlen, close, 0));
        if dlen == 2 {
            assert(marker_char_matches(chars, i + dlen, dlen, close, 1));
        }
        assert forall|k: int| 0 <= k < dlen implies #[trigger] chars[close + k] == chars[i + k] by {
            assert(marker_char_matches(chars, i + dlen, dlen, close, k));
        }
    }
    lemma_marker_offsets(chars, i, dlen);
    lemma_marker_offsets(chars, close, dlen);
    let content = chars.subrange(i + dlen, close);
    lemma_subrange_len(chars, i + dlen, close);
    lemma_len_concat(st.body, content);
    lemma_take_mono(chars, i + dlen, close);
    let st1 = with_span(chars, st, i, close, dlen, style);
    let m1 = marker_offsets(chars, i, dlen);
    let m2 = marker_offsets(chars, close, dlen);
    assert(st1.removed.len() == st.removed.len() + 2 * dlen);
    assert forall|a: int| 0 <= a < st1.removed.len() implies 0 <= #[trigger] st1.removed[a]
        < prefix_utf16(chars, close + dlen) by {
        if a < st.removed.len() {
            assert(st1.removed[a] == st.removed[a]);
        } else if a < st.removed.len() + dlen {
            assert(st1.removed[a] == m1[a - st.removed.len()]);
        } else {
            assert(st1.removed[a] == m2[a - st.removed.len() - dlen]);
        }
    }
    assert forall|a: int, b: int| 0 <= a < b < st1.removed.len() implies #[trigger] st1.removed[a]
        < #[trigger] st1.removed[b] by {
        let o = st.removed.len();
        if b < o {
            assert(st1.removed[a] == st.removed[a] && st1.removed[b] == st.removed[b]);
        } else if b < o + dlen {
            assert(st1.removed[b] == m1[b - o]);
            if a < o {
                assert(st1.removed[a] == st.removed[a]);
            } else {
                assert(st1.removed[a] == m1[a - o]);
            }
        } else {
            assert(st1.removed[b] == m2[b - o - dlen]);
            if a < o {
                assert(st1.removed[a] == st.removed[a]);
            } else if a < o + dlen {
                assert(st1.removed[a] == m1[a - o]);
            } else {
                assert(st1.removed[a] == m2[a - o - dlen]);
            }
        }
    }
    assert forall|r: int| 0 <= r < st1.byte_ranges.len() implies 0 <= (
    #[trigger] st1.byte_ranges[r]).0 <= st1.byte_ranges[r].1 <= utf8_len(st1.body) by {
        if r < st.byte_ranges.len() {
            assert(st1.byte_ranges[r] == st.byte_ranges[r]);
        }
    }
    assert forall|r: int| 0 <= r < st1.utf16_ranges.len() implies 0 <= (
    #[trigger] st1.utf16_ranges[r]).0 && 0 <= st1.utf16_ranges[r].1 && st1.utf16_ranges[r].0
        + st1.utf16_ranges[r].1 <= utf16_len(st1.body) by {
        if r < st.utf16_ranges.len() {
            assert(st1.utf16_ranges[r] == st.utf16_ranges[r]);
        }
    }
}

proof fn lemma_scan_ok(chars: Seq<char>, mask: Seq<bool>, i: int, st: MarkupModel)
    requires
        scan_state_ok(chars, i, st),
        mask.len() == chars.len(),
    ensures
        scan_state_ok(chars, chars.len() as int, scan(chars, mask, i, st)),
    decreases chars.len() - i,
{
    if i < chars.len() {
        match span_at(chars, mask, i) {
            Some((close, dlen, style)) => {
                lemma_span_step(chars, mask, i, st, close, dlen, style);
                lemma_scan_ok(chars, mask, close + dlen, with_span(chars, st, i, close, dlen, style));
            },
            None => {
                let st1 = with_char(st, chars[i]);
                lemma_take_succ(chars, i);
                assert(st1.body.drop_last() =~= st.body);
                lemma_len_concat(st.body, seq![chars[i]]);
                assert(st.body + seq![chars[i]] =~= st1.body);
                assert(utf8_len(st1.body) >= utf8_len(st.body));
                lemma_scan_ok(chars, mask, i + 1, st1);
            },
        }
    }
}

/// Shape of every parse: each removed marker is one UTF-16 unit of the
/// input text, so the body is exactly that many chars and units shorter;
/// removed offsets are strictly ascending offsets into the input text;
/// byte and UTF-16 ranges come in equal numbers and lie inside the body.
pub proof fn law_markup_shape(text: Seq<char>)
    ensures
        markup_model(text).body.len() + markup_model(text).removed.len() == text.len(),
        utf16_len(markup_model(text).body) + markup_model(text).removed.len() == utf16_len(text),
        forall|a: int, b: int|
            0 <= a < b < markup_model(text).removed.len() ==> #[trigger] markup_model(text).removed[a]
                < #[trigger] markup_model(text).removed[b],
        forall|a: int|
            0 <= a < markup_model(text).removed.len() ==> 0 <= #[trigger] markup_model(text).removed[a]
                < utf16_len(text),
        markup_model(text).byte_ranges.len() == markup_model(text).utf16_ranges.len(),
        forall|r: int|
            0 <= r < markup_model(text).byte_ranges.len() ==> 0 <= (
            #[trigger] markup_model(text).byte_ranges[r]).0 <= markup_model(text).byte_ranges[r].1
                <= utf8_len(markup_model(text).body),
        forall|r: int|
            0 <= r < markup_model(text).utf16_ranges.len() ==> 0 <= (
            #[trigger] markup_model(text).utf16_ranges[r]).0 && 0
                <= markup_model(text).utf16_ranges[r].1 && markup_model(text).utf16_ranges[r].0
                + markup_model(text).utf16_ranges[r].1 <= utf16_len(markup_model(text).body),
{
    assert(text.take(0) =~= Seq::<char>::empty());
    assert(text.take(text.len() as int) =~= text);
    lemma_scan_ok(text, uri_mask_spec(text), 0, empty_model());
}

/// `r` is the UTF-16 offset of a marker char of `chars` outside any URI.
pub open spec fn marker_at_offset(chars: Seq<char>, r: int) -> bool {
    exists|k: int|
        0 <= k < chars.len() && #[trigger] prefix_utf16(chars, k) == r && !in_uri(chars, k)
            && is_marker_char(chars[k])
}

/// Every removed offset of `st` is that of a marker char outside any URI.
pub open spec fn removed_markers_ok(chars: Seq<char>, st: MarkupModel) -> bool {
    forall|a: int| 0 <= a < st.removed.len() ==> marker_at_offset(chars, #[trigger] st.removed[a])
}

/// The char after an opening `|` of a spoiler marker is in a URI only if the
/// opening one is: no scheme starts with `|`.
proof fn lemma_bar_not_in_uri(chars: Seq<char>, j: int)
    requires
        0 < j < chars.len(),
        chars[j] == '|',
        !in_uri(chars, j - 1),
    ensures
        !in_uri(chars, j),
{
    if in_uri(chars, j) {
        let s = choose|s: int|
            0 <= s <= j && #[trigger] scheme_at(chars, s) && forall|k: int|
                s <= k <= j ==> !is_white_space(#[trigger] chars[k]);
        if s == j {
            if matches_at(chars, s, https_scheme()) {
                assert(chars[s + 0] == https_scheme()[0]);
            } else if matches_at(chars, s, http_scheme()) {
                assert(chars[s + 0] == http_scheme()[0]);
            } else {
                assert(chars[s + 0] == file_scheme()[0]);
            }
        } else {
            assert(forall|k: int| s <= k <= j - 1 ==> !is_white_space(#[trigger] chars[k]));
            assert(in_uri(chars, j - 1));
        }
    }
}

proof fn lemma_scan_markers(chars: Seq<char>, i: int, st: MarkupModel)
    requires
        0 <= i <= chars.len(),
        removed_markers_ok(chars, st),
    ensures
        removed_markers_ok(chars, scan(chars, uri_mask_spec(chars), i, st)),
    decreases chars.len() - i,
{
    let mask = uri_mask_spec(chars);
    if i < chars.len() {
        match span_at(chars, mask, i) {
            Some((close, dlen, style)) => {
                if i < close + dlen <= chars.len() {
                    lemma_first_closer_bounds(chars, mask, i + dlen, dlen, i + dlen + 1);
                    let st1 = with_span(chars, st, i, close, dlen, style);
                    let n = st.removed.len();
                    assert(!in_uri(chars, i));
                    assert(!in_uri(chars, close));
                    assert(marker_char_matches(chars, i + dlen, dlen, close, 0));
                    if dlen == 2 {
                        assert(marker_char_matches(chars, i + dlen, dlen, close, 1));
                        lemma_bar_not_in_uri(chars, i + 1);
                        lemma_bar_not_in_uri(chars, close + 1);
                    }
                    assert forall|a: int| 0 <= a < st1.removed.len() implies marker_at_offset(
                        chars,
                        #[trigger] st1.removed[a],
                    ) by {
                        if a < n {
                            assert(st1.removed[a] == st.removed[a]);
                        } else if a < n + dlen {
                            let k = i + (a - n);
                            assert(st1.removed[a] == prefix_utf16(chars, k));
                        } else {
                            let k = close + (a - n - dlen);
                            assert(st1.removed[a] == prefix_utf16(chars, k));
                        }
                    }
                    lemma_scan_markers(chars, close + dlen, st1);
                }
            },
            None => {
                lemma_scan_markers(chars, i + 1, with_char(st, chars[i]));
            },
        }
    }
}

/// Offsets of longer prefixes are strictly larger in UTF-16 units.
proof fn lemma_prefix_utf16_strict(chars: Seq<char>, j: int, k: int)
    requires
        0 <= j < k <= chars.len(),
    ensures
        prefix_utf16(chars, j) < prefix_utf16(chars, k),
    decreases k - j,
{
    lemma_take_succ(chars, k - 1);
    if j < k - 1 {
        lemma_prefix_utf16_strict(chars, j, k - 1);
    }
}

/// Text inside a URI is always literal: no char of a URI is ever removed as
/// a marker, so underscores, asterisks and the like in links survive.
/// Every removed offset is that of a marker char outside any URI.
pub proof fn law_uri_chars_never_removed(text: Seq<char>)
    ensures
        forall|a: int|
            0 <= a < markup_model(text).removed.len() ==> marker_at_offset(
                text,
                #[trigger] markup_model(text).removed[a],
            ),
        forall|k: int|
            0 <= k < text.len() && in_uri(text, k) ==> !markup_model(text).removed.contains(
                #[trigger] prefix_utf16(text, k),
            ),
{
    lemma_scan_markers(text, 0, empty_model());
    let m = markup_model(text);
    assert forall|k: int|
        0 <= k < text.len() && in_uri(text, k) implies !m.removed.contains(
        #[trigger] prefix_utf16(text, k),
    ) by {
        if m.removed.contains(prefix_utf16(text, k)) {
            let a = choose|a: int| 0 <= a < m.removed.len() && m.removed[a] == prefix_utf16(text, k);
            assert(marker_at_offset(text, m.removed[a]));
            let k0 = choose|k0: int|
                0 <= k0 < text.len() && #[trigger] prefix_utf16(text, k0) == m.removed[a]
                    && !in_uri(text, k0) && is_marker_char(text[k0]);
            if k0 < k {
                lemma_prefix_utf16_strict(text, k0, k);
            } else if k < k0 {
                lemma_prefix_utf16_strict(text, k, k0);
            }
        }
    }
}

/// The byte range `rng` of `body` covers whole chars, none of them a newline.
pub open spec fn single_line_range(body: Seq<char>, rng: (int, int, StyleType)) -> bool {
    exists|p: int, q: int|
        0 <= p <= q <= body.len() && #[trigger] utf8_len(body.take(p)) == rng.0 && #[trigger] utf8_len(
            body.take(q),
        ) == rng.1 && forall|x: int| p <= x < q ==> body[x] != '\n'
}

/// Every byte range of `st` is a single-line range of its body.
pub open spec fn ranges_single_line(st: MarkupModel) -> bool {
    forall|r: int|
        0 <= r < st.byte_ranges.len() ==> single_line_range(st.body, #[trigger] st.byte_ranges[r])
}

/// No newline lies between the search start and the closer found.
proof fn lemma_first_closer_no_newline(
    chars: Seq<char>,
    mask: Seq<bool>,
    content_start: int,
    dlen: int,
    j: int,
)
    ensures
        first_closer(chars, mask, content_start, dlen, j) matches Some(c) ==> forall|x: int|
            j <= x < c ==> chars[x] != '\n',
    decreases chars.len() - j,
{
    if j < 0 || dlen <= 0 || j + dlen > chars.len() {
    } else if chars[j] == '\n' {
    } else if closes_at(chars, mask, content_start, dlen, j) {
    } else {
        lemma_first_closer_no_newline(chars, mask, content_start, dlen, j + 1);
    }
}

/// Appending to a body keeps its single-line ranges single-line.
proof fn lemma_single_line_extend(body: Seq<char>, extra: Seq<char>, rng: (int, int, StyleType))
    requires
        single_line_range(body, rng),
    ensures
        single_line_range(body + extra, rng),
{
    let (p, q) = choose|p: int, q: int|
        0 <= p <= q <= body.len() && #[trigger] utf8_len(body.take(p)) == rng.0 && #[trigger] utf8_len(
            body.take(q),
        ) == rng.1 && forall|x: int| p <= x < q ==> body[x] != '\n';
    let b2 = body + extra;
    assert(b2.take(p) =~= body.take(p));
    assert(b2.take(q) =~= body.take(q));
    assert(forall|x: int| p <= x < q ==> b2[x] == body[x]);
    assert(utf8_len(b2.take(p)) == rng.0 && utf8_len(b2.take(q)) == rng.1);
}

proof fn lemma_scan_single_line(chars: Seq<char>, i: int, st: MarkupModel)
    requires
        0 <= i <= chars.len(),
        ranges_single_line(st),
    ensures
        ranges_single_line(scan(chars, uri_mask_spec(chars), i, st)),
    decreases chars.len() - i,
{
    let mask = uri_mask_spec(chars);
    if i < chars.len() {
        match span_at(chars, mask, i) {
            Some((close, dlen, style)) => {
                if i < close + dlen <= chars.len() {
                    lemma_first_closer_bounds(chars, mask, i + dlen, dlen, i + dlen + 1);
                    lemma_first_closer_no_newline(chars, mask, i + dlen, dlen, i + dlen + 1);
                    let content = chars.subrange(i + dlen, close);
                    let st1 = with_span(chars, st, i, close, dlen, style);
                    assert(st1.body == st.body + content);
                    assert forall|r: int| 0 <= r < st1.byte_ranges.len() implies single_line_range(
                        st1.body,
                        #[trigger] st1.byte_ranges[r],
                    ) by {
                        if r < st.byte_ranges.len() {
                            assert(st1.byte_ranges[r] == st.byte_ranges[r]);
                            lemma_single_line_extend(st.body, content, st.byte_ranges[r]);
                        } else {
                            let p = st.body.len() as int;
                            let q = st1.body.len() as int;
                            assert(st1.body.take(p) =~= st.body);
                            assert(st1.body.take(q) =~= st1.body);
                            assert(forall|x: int| p <= x < q ==> st1.body[x] == chars[i + dlen + (x - p)]);
                            assert(forall|x: int| p <= x < q ==> st1.body[x] != '\n');
                        }
                    }
                    lemma_scan_single_line(chars, close + dlen, st1);
                }
            },
            None => {
                let st1 = with_char(st, chars[i]);
                assert forall|r: int| 0 <= r < st1.byte_ranges.len() implies single_line_range(
                    st1.body,
                    #[trigger] st1.byte_ranges[r],
                ) by {
                    assert(st1.body == st.body + seq![chars[i]]);
                    lemma_single_line_extend(st.body, seq![chars[i]], st.byte_ranges[r]);
                }
                lemma_scan_single_line(chars, i + 1, st1);
            },
        }
    }
}

/// A styled span never crosses a newline: each byte range covers whole
/// chars of the body, none of them a newline.
pub proof fn law_spans_stay_on_one_line(text: Seq<char>)
    ensures
        ranges_single_line(markup_model(text)),
{
    lemma_scan_single_line(text, 0, empty_model());
}

/// The byte range `br` and the UTF-16 range `ur` (start, length) of `body`
/// have the same style and cover the same non-empty run of whole chars.
pub open spec fn range_agrees(
    body: Seq<char>,
    br: (int, int, StyleType),
    ur: (int, int, StyleType),
) -> bool {
    &&& br.2 == ur.2
    &&& br.0 < br.1
    &&& ur.1 > 0
    &&& exists|p: int, q: int|
        0 <= p < q <= body.len() && #[trigger] utf8_len(body.take(p)) == br.0 && #[trigger] utf8_len(
            body.take(q),
        ) == br.1 && utf16_len(body.take(p)) == ur.0 && utf16_len(body.take(q)) == ur.0 + ur.1
}

/// The ranges of `st` pair up (byte range `r` with UTF-16 range `r`), each
/// pair covers the same chars, and the ranges come in order without
/// overlapping, inside the body.
pub open spec fn ranges_agree_in_order(st: MarkupModel) -> bool {
    &&& st.byte_ranges.len() == st.utf16_ranges.len()
    &&& forall|r: int|
        0 <= r < st.byte_ranges.len() ==> range_agrees(
            st.body,
            #[trigger] st.byte_ranges[r],
            st.utf16_ranges[r],
        )
    &&& forall|a: int, b: int|
        0 <= a < b < st.byte_ranges.len() ==> (#[trigger] st.byte_ranges[a]).1 <= (
        #[trigger] st.byte_ranges[b]).0
    &&& forall|a: int, b: int|
        0 <= a < b < st.utf16_ranges.len() ==> (#[trigger] st.utf16_ranges[a]).0
            + st.utf16_ranges[a].1 <= (#[trigger] st.utf16_ranges[b]).0
    &&& forall|r: int|
        0 <= r < st.byte_ranges.len() ==> (#[trigger] st.byte_ranges[r]).1 <= utf8_len(st.body)
    &&& forall|r: int|
        0 <= r < st.utf16_ranges.len() ==> (#[trigger] st.utf16_ranges[r]).0
            + st.utf16_ranges[r].1 <= utf16_len(st.body)
}

/// Appending to a body keeps its agreeing ranges agreeing.
proof fn lemma_range_agrees_extend(
    body: Seq<char>,
    extra: Seq<char>,
    br: (int, int, StyleType),
    ur: (int, int, StyleType),
)
    requires
        range_agrees(body, br, ur),
    ensures
        range_agrees(body + extra, br, ur),
{
    let (p, q) = choose|p: int, q: int|
        0 <= p < q <= body.len() && #[trigger] utf8_len(body.take(p)) == br.0 && #[trigger] utf8_len(
            body.take(q),
        ) == br.1 && utf16_len(body.take(p)) == ur.0 && utf16_len(body.take(q)) == ur.0 + ur.1;
    let b2 = body + extra;
    assert(b2.take(p) =~= body.take(p));
    assert(b2.take(q) =~= body.take(q));
    assert(utf8_len(b2.take(p)) == br.0 && utf8_len(b2.take(q)) == br.1);
}

#[verifier::rlimit(40)]
proof fn lemma_scan_agree(chars: Seq<char>, i: int, st: MarkupModel)
    requires
        0 <= i <= chars.len(),
        ranges_agree_in_order(st),
    ensures
        ranges_agree_in_order(scan(chars, uri_mask_spec(chars), i, st)),
    decreases chars.len() - i,
{
    let mask = uri_mask_spec(chars);
    if i < chars.len() {
        match span_at(chars, mask, i) {
            Some((close, dlen, style)) => {
                if i < close + dlen <= chars.len() {
                    lemma_first_closer_bounds(chars, mask, i + dlen, dlen, i + dlen + 1);
                    let content = chars.subrange(i + dlen, close);
                    let st1 = with_span(chars, st, i, close, dlen, style);
                    assert(st1.body == st.body + content);
                    assert(content.len() > 0);
                    lemma_len_concat(st.body, content);
                    assert(utf8_len(content) > 0);
                    assert(utf16_len(content) > 0);
                    let n = st.byte_ranges.len() as int;
                    let p = st.body.len() as int;
                    let q = st1.body.len() as int;
                    assert(st1.body.take(p) =~= st.body);
                    assert(st1.body.take(q) =~= st1.body);
                    assert(range_agrees(st1.body, st1.byte_ranges[n], st1.utf16_ranges[n]));
                    assert forall|r: int| 0 <= r < st1.byte_ranges.len() implies range_agrees(
                        st1.body,
                        #[trigger] st1.byte_ranges[r],
                        st1.utf16_ranges[r],
                    ) by {
                        if r < n {
                            assert(st1.byte_ranges[r] == st.byte_ranges[r]);
                            assert(st1.utf16_ranges[r] == st.utf16_ranges[r]);
                            lemma_range_agrees_extend(
                                st.body,
                                content,
                                st.byte_ranges[r],
                                st.utf16_ranges[r],
                            );
                        }
                    }
                    assert forall|a: int, b: int|
                        0 <= a < b < st1.byte_ranges.len() implies (
                    #[trigger] st1.byte_ranges[a]).1 <= (#[trigger] st1.byte_ranges[b]).0 by {
                        if b < n {
                            assert(st1.byte_ranges[a] == st.byte_ranges[a]);
                            assert(st1.byte_ranges[b] == st.byte_ranges[b]);
                        } else {
                            assert(st1.byte_ranges[a] == st.byte_ranges[a]);
                        }
                    }
                    assert forall|a: int, b: int|
                        0 <= a < b < st1.utf16_ranges.len() implies (
                    #[trigger] st1.utf16_ranges[a]).0 + st1.utf16_ranges[a].1 <= (
                    #[trigger] st1.utf16_ranges[b]).0 by {
                        if b < n {
                            assert(st1.utf16_ranges[a] == st.utf16_ranges[a]);
                            assert(st1.utf16_ranges[b] == st.utf16_ranges[b]);
                        } else {
                            assert(st1.utf16_ranges[a] == st.utf16_ranges[a]);
                        }
                    }
                    assert forall|r: int| 0 <= r < st1.byte_ranges.len() implies (
                    #[trigger] st1.byte_ranges[r]).1 <= utf8_len(st1.body) by {
                        if r < n {
                            assert(st1.byte_ranges[r] == st.byte_ranges[r]);
                        }
                    }
                    assert forall|r: int| 0 <= r < st1.utf16_ranges.len() implies (
                    #[trigger] st1.utf16_ranges[r]).0 + st1.utf16_ranges[r].1 <= utf16_len(
                        st1.body,
                    ) by {
                        if r < n {
                            assert(st1.utf16_ranges[r] == st.utf16_ranges[r]);
                        }
                    }
                    lemma_scan_agree(chars, close + dlen, st1);
                }
            },
            None => {
                let st1 = with_char(st, chars[i]);
                assert(st1.body == st.body + seq![chars[i]]);
                lemma_len_concat(st.body, seq![chars[i]]);
                assert forall|r: int| 0 <= r < st1.byte_ranges.len() implies range_agrees(
                    st1.body,
                    #[trigger] st1.byte_ranges[r],
                    st1.utf16_ranges[r],
                ) by {
                    lemma_range_agrees_extend(
                        st.body,
                        seq![chars[i]],
                        st.byte_ranges[r],
                        st.utf16_ranges[r],
                    );
                }
                lemma_scan_agree(chars, i + 1, st1);
            },
        }
    }
}

/// Styled ranges are sound: byte range `r` and UTF-16 range `r` of a parse
/// have the same style and cover the same non-empty run of whole chars of
/// the body, and the ranges come in body order without overlapping.
pub proof fn law_ranges_agree_in_order(text: Seq<char>)
    ensures
        ranges_agree_in_order(markup_model(text)),
{
    lemma_scan_agree(text, 0, empty_model());
}

/// `chars[k]` stays in the body: its UTF-16 offset is not a removed one.
pub open spec fn keeps(chars: Seq<char>, removed: Seq<int>, k: int) -> bool {
    !removed.contains(prefix_utf16(chars, k))
}

/// `chars[..n]` without the chars whose UTF-16 offsets are in `removed`.
pub open spec fn without_offsets(chars: Seq<char>, removed: Seq<int>, n: int) -> Seq<char>
    decreases n,
{
    if n <= 0 {
        seq![]
    } else {
        without_offsets(chars, removed, n - 1) + if keeps(chars, removed, n - 1) {
            seq![chars[n - 1]]
        } else {
            seq![]
        }
    }
}

/// Offsets at or past `chars[n]` do not affect `chars[..n]`.
proof fn lemma_without_extra(chars: Seq<char>, removed: Seq<int>, extra: Seq<int>, n: int)
    requires
        0 <= n <= chars.len(),
        forall|x: int| 0 <= x < extra.len() ==> #[trigger] extra[x] >= prefix_utf16(chars, n),
    ensures
        without_offsets(chars, removed + extra, n) == without_offsets(chars, removed, n),
    decreases n,
{
    if n > 0 {
        let k = n - 1;
        let v = prefix_utf16(chars, k);
        lemma_prefix_utf16_strict(chars, k, n);
        lemma_without_extra(chars, removed, extra, n - 1);
        let all = removed + extra;
        if all.contains(v) {
            let j = choose|j: int| 0 <= j < all.len() && all[j] == v;
            if j >= removed.len() {
                assert(extra[j - removed.len()] == v);
            }
            assert(removed[j] == v);
        }
        if removed.contains(v) {
            let j = choose|j: int| 0 <= j < removed.len() && removed[j] == v;
            assert(all[j] == v);
        }
        assert(keeps(chars, all, k) == keeps(chars, removed, k));
    }
}

/// A run of kept chars is copied.
proof fn lemma_without_kept(chars: Seq<char>, removed: Seq<int>, a: int, b: int)
    requires
        0 <= a <= b <= chars.len(),
        forall|k: int| a <= k < b ==> keeps(chars, removed, k),
    ensures
        without_offsets(chars, removed, b) == without_offsets(chars, removed, a) + chars.subrange(
            a,
            b,
        ),
    decreases b - a,
{
    if a < b {
        lemma_without_kept(chars, removed, a, b - 1);
        assert(keeps(chars, removed, b - 1));
        assert(chars.subrange(a, b - 1).push(chars[b - 1]) =~= chars.subrange(a, b));
    } else {
        assert(chars.subrange(a, b) =~= Seq::<char>::empty());
    }
}

/// A run of removed chars is dropped.
proof fn lemma_without_dropped(chars: Seq<char>, removed: Seq<int>, a: int, b: int)
    requires
        0 <= a <= b <= chars.len(),
        forall|k: int| a <= k < b ==> !keeps(chars, removed, k),
    ensures
        without_offsets(chars, removed, b) == without_offsets(chars, removed, a),
    decreases b - a,
{
    if a < b {
        lemma_without_dropped(chars, removed, a, b - 1);
        assert(!keeps(chars, removed, b - 1));
    }
}

#[verifier::rlimit(60)]
proof fn lemma_scan_without(chars: Seq<char>, i: int, st: MarkupModel)
    requires
        scan_state_ok(chars, i, st),
        st.body == without_offsets(chars, st.removed, i),
    ensures
        scan(chars, uri_mask_spec(chars), i, st).body == without_offsets(
            chars,
            scan(chars, uri_mask_spec(chars), i, st).removed,
            chars.len() as int,
        ),
    decreases chars.len() - i,
{
    let mask = uri_mask_spec(chars);
    if i < chars.len() {
        match span_at(chars, mask, i) {
            Some((close, dlen, style)) => {
                lemma_span_step(chars, mask, i, st, close, dlen, style);
                lemma_first_closer_bounds(chars, mask, i + dlen, dlen, i + dlen + 1);
                let st1 = with_span(chars, st, i, close, dlen, style);
                let m1 = marker_offsets(chars, i, dlen);
                let m2 = marker_offsets(chars, close, dlen);
                let r1 = st.removed + m1 + m2;
                assert(st1.removed == r1);
                assert(st.removed + (m1 + m2) =~= r1);
                assert forall|x: int| 0 <= x < (m1 + m2).len() implies #[trigger] (m1 + m2)[x]
                    >= prefix_utf16(chars, i) by {
                    if x < dlen {
                        lemma_take_mono(chars, i, i + x);
                    } else {
                        lemma_take_mono(chars, i, close + (x - dlen));
                    }
                }
                lemma_without_extra(chars, st.removed, m1 + m2, i);
                assert forall|k: int| i <= k < i + dlen implies !keeps(chars, r1, k) by {
                    assert(r1[st.removed.len() + (k - i)] == prefix_utf16(chars, k));
                }
                lemma_without_dropped(chars, r1, i, i + dlen);
                assert forall|k: int| i + dlen <= k < close implies keeps(chars, r1, k) by {
                    let v = prefix_utf16(chars, k);
                    if r1.contains(v) {
                        let j = choose|j: int| 0 <= j < r1.len() && r1[j] == v;
                        if j < st.removed.len() {
                            lemma_take_mono(chars, i, k);
                        } else if j < st.removed.len() + dlen {
                            lemma_prefix_utf16_strict(chars, i + (j - st.removed.len()), k);
                        } else {
                            lemma_prefix_utf16_strict(chars, k, close);
                            lemma_take_mono(chars, close, close + (j - st.removed.len() - dlen));
                        }
                    }
                }
                lemma_without_kept(chars, r1, i + dlen, close);
                assert forall|k: int| close <= k < close + dlen implies !keeps(chars, r1, k) by {
                    assert(r1[st.removed.len() + dlen + (k - close)] == prefix_utf16(chars, k));
                }
                lemma_without_dropped(chars, r1, close, close + dlen);
                lemma_scan_without(chars, close + dlen, st1);
            },
            None => {
                let st1 = with_char(st, chars[i]);
                if st.removed.contains(prefix_utf16(chars, i)) {
                    let j = choose|j: int|
                        0 <= j < st.removed.len() && st.removed[j] == prefix_utf16(chars, i);
                    assert(st.removed[j] < prefix_utf16(chars, i));
                }
                assert(st1.body =~= without_offsets(chars, st1.removed, i + 1));
                lemma_take_succ(chars, i);
                assert(st1.body.drop_last() =~= st.body);
                lemma_len_concat(st.body, seq![chars[i]]);
                assert(st.body + seq![chars[i]] =~= st1.body);
                assert(utf8_len(st1.body) >= utf8_len(st.body));
                assert(scan_state_ok(chars, i + 1, st1));
                lemma_scan_without(chars, i + 1, st1);
            },
        }
    }
}

/// The body is the text with exactly the removed markers taken out: a char
/// of the text is dropped if and only if its UTF-16 offset is a removed one.
pub proof fn law_body_is_text_without_markers(text: Seq<char>)
    ensures
        markup_model(text).body == without_offsets(
            text,
            markup_model(text).removed,
            text.len() as int,
        ),
{
    assert(text.take(0) =~= Seq::<char>::empty());
    lemma_scan_without(text, 0, empty_model());
}

// ---------------------------------------------------------------------------
// Executable parser
// ---------------------------------------------------------------------------

/// The style marker starting at `chars[i]`, as (marker length, style).
fn delim_at(chars: &[char], i: usize) -> (r: Option<(usize, StyleType)>)
    requires
        i < chars@.len(),
    ensures
        delim_model(r) == delim_spec(chars@, i as int),
{
    let c = chars[i];
    if c == '|' && i + 1 < chars.len() && chars[i + 1] == '|' {
        Some((2, StyleType::Spoiler))
    } else if c == '*' {
        Some((1, StyleType::Bold))
    } else if c == '_' {
        Some((1, StyleType::Italic))
    } else if c == '~' {
        Some((1, StyleType::Strikethrough))
    } else if c == '`' {
        Some((1, StyleType::Monospace))
    } else {
        None
    }
}

/// Whether `pat` occurs in `chars` at index `i`.
fn pattern_at(chars: &[char], i: usize, pat: &Vec<char>) -> (r: bool)
    ensures
        r == matches_at(chars@, i as int, pat@),
{
    let n = chars.len();
    if pat.len() > n || i > n - pat.len() {
        return false;
    }
    let mut k: usize = 0;
    while k < pat.len()
        invariant
            n == chars@.len(),
            k <= pat@.len(),
            i + pat@.len() <= chars@.len(),
            forall|m: int| 0 <= m < k ==> chars@[i + m] == pat@[m],
        decreases pat@.len() - k,
    {
        if chars[i + k] != pat[k] {
            return false;
        }
        k += 1;
    }
    true
}

/// Whether a URI scheme starts at `chars[i]`.
fn starts_scheme(chars: &[char], i: usize) -> (r: bool)
    ensures
        r == scheme_at(chars@, i as int),
{
    let https = vec!['h', 't', 't', 'p', 's', ':', '/', '/'];
    let http = vec!['h', 't', 't', 'p', ':', '/', '/'];
    let file = vec!['f', 'i', 'l', 'e', ':', '/', '/', '/'];
    assert(https@ =~= https_scheme());
    assert(http@ =~= http_scheme());
    assert(file@ =~= file_scheme());
    pattern_at(chars, i, &https) || pattern_at(chars, i, &http) || pattern_at(chars, i, &file)
}

/// Mark every char that is part of a URI so markers inside URLs stay literal.
/// A URI runs from its scheme to the next whitespace.
fn uri_mask(chars: &[char]) -> (mask: Vec<bool>)
    ensures
        mask@ == uri_mask_spec(chars@),
{
    let n = chars.len();
    let mut mask: Vec<bool> = Vec::new();
    while mask.len() < n
        invariant
            mask@.len() <= n,
            forall|j: int| 0 <= j < mask@.len() ==> !mask@[j],
        decreases n - mask@.len(),
    {
        mask.push(false);
    }
    let mut i: usize = 0;
    while i < n
        invariant
            n == chars@.len(),
            i <= n,
            mask@.len() == n,
            forall|j: int| 0 <= j < i ==> mask@[j] == in_uri(chars@, j),
            forall|j: int| i <= j < n ==> !mask@[j],
            i < n ==> (in_uri(chars@, i as int) <==> scheme_at(chars@, i as int)),
        decreases n - i,
    {
        if starts_scheme(chars, i) {
            let start = i;
            assert(https_scheme()[0] == 'h' && http_scheme()[0] == 'h' && file_scheme()[0] == 'f');
            assert(!is_white_space(chars@[start as int]));
            while i < n && !char_is_whitespace(chars[i])
                invariant
                    n == chars@.len(),
                    start <= i <= n,
                    mask@.len() == n,
                    scheme_at(chars@, start as int),
                    forall|k: int| start <= k < i ==> !is_white_space(chars@[k]),
                    forall|j: int| 0 <= j < i ==> mask@[j] == in_uri(chars@, j),
                    forall|j: int| i <= j < n ==> !mask@[j],
                decreases n - i,
            {
                assert(in_uri(chars@, i as int)) by {
                    assert(forall|k: int| start <= k <= i ==> !is_white_space(#[trigger] chars@[k]));
                }
                mask.set(i, true);
                i += 1;
            }
            if i < n {
                // chars[i] is white space: no URI covers it, and no scheme
                // starts on white space.
                assert(is_white_space(chars@[i as int]));
                assert(!in_uri(chars@, i as int));
                assert(!scheme_at(chars@, i as int)) by {
                    assert(https_scheme()[0] == 'h' && http_scheme()[0] == 'h' && file_scheme()[0]
                        == 'f');
                }
            }
        } else {
            assert(!in_uri(chars@, i as int));
            if i + 1 < n {
                assert(in_uri(chars@, i + 1) <==> scheme_at(chars@, i + 1)) by {
                    if in_uri(chars@, i + 1) {
                        let s = choose|s: int|
                            0 <= s <= i + 1 && #[trigger] scheme_at(chars@, s) && forall|k: int|
                                s <= k <= i + 1 ==> !is_white_space(#[trigger] chars@[k]);
                        if s <= i {
                            assert(forall|k: int| s <= k <= i ==> !is_white_space(#[trigger] chars@[k]));
                            assert(in_uri(chars@, i as int));
                        }
                    }
                    if scheme_at(chars@, i + 1) {
                        assert(https_scheme()[0] == 'h' && http_scheme()[0] == 'h' && file_scheme()[0]
                            == 'f');
                        assert(forall|k: int| i + 1 <= k <= i + 1 ==> !is_white_space(#[trigger] chars@[k]));
                    }
                }
            }
            i += 1;
        }
    }
    assert(mask@ =~= uri_mask_spec(chars@));
    mask
}

/// Find a valid closing marker matching the opener at `chars[open..open+dlen]`,
/// scanning from just past the first content char. Returns the closer index.
fn find_closer(chars: &[char], in_uri: &[bool], content_start: usize, dlen: usize) -> (r: Option<
    usize,
>)
    requires
        chars@.len() == in_uri@.len(),
        1 <= dlen <= 2,
        dlen <= content_start < chars@.len(),
    ensures
        index_model(r) == first_closer(
            chars@,
            in_uri@,
            content_start as int,
            dlen as int,
            content_start + 1,
        ),
{
    let n = chars.len();
    // Require at least one content char before the closer.
    let mut j = content_start + 1;
    while j < n && dlen <= n - j
        invariant
            n == chars@.len(),
            n == in_uri@.len(),
            1 <= dlen <= 2,
            dlen <= content_start < n,
            content_start + 1 <= j <= n,
            first_closer(chars@, in_uri@, content_start as int, dlen as int, content_start + 1)
                == first_closer(chars@, in_uri@, content_start as int, dlen as int, j as int),
        decreases n - j,
    {
        if chars[j] == '\n' {
            return None;
        }
        let mut matches = true;
        let mut k: usize = 0;
        while k < dlen
            invariant
                n == chars@.len(),
                1 <= dlen <= 2,
                dlen <= content_start < n,
                j + dlen <= n,
                k <= dlen,
                matches == forall|m: int|
                    0 <= m < k ==> #[trigger] marker_char_matches(
                        chars@,
                        content_start as int,
                        dlen as int,
                        j as int,
                        m,
                    ),
            decreases dlen - k,
        {
            if chars[j + k] != chars[content_start - dlen + k] {
                assert(!marker_char_matches(
                    chars@,
                    content_start as int,
                    dlen as int,
                    j as int,
                    k as int,
                ));
                matches = false;
            } else {
                assert(marker_char_matches(
                    chars@,
                    content_start as int,
                    dlen as int,
                    j as int,
                    k as int,
                ));
            }
            k += 1;
        }
        let matches = matches && !in_uri[j];
        if matches {
            let prev_ok = !char_is_whitespace(chars[j - 1]);
            let after_ok = j + dlen >= n || !char_is_alphanumeric(chars[j + dlen]);
            if prev_ok && after_ok {
                return Some(j);
            }
        }
        j += 1;
    }
    None
}

/// The span that opens at `chars[i]`, as (closer index, marker length,
/// style), if a valid one does.
fn span_here(chars: &[char], in_uri: &[bool], i: usize) -> (r: Option<(usize, usize, StyleType)>)
    requires
        chars@.len() == in_uri@.len(),
        i < chars@.len(),
    ensures
        match r {
            Some((close, dlen, style)) => {
                &&& span_at(chars@, in_uri@, i as int) == Some((close as int, dlen as int, style))
                &&& i + dlen < close
                &&& close + dlen <= chars@.len()
                &&& 1 <= dlen <= 2
            },
            None => span_at(chars@, in_uri@, i as int) is None,
        },
{
    let n = chars.len();
    if in_uri[i] {
        return None;
    }
    let (dlen, style) = match delim_at(chars, i) {
        Some(d) => d,
        None => return None,
    };
    let prev_ok = i == 0 || !char_is_alphanumeric(chars[i - 1]);
    let next_ok = i + dlen < n && !char_is_whitespace(chars[i + dlen]);
    if prev_ok && next_ok {
        let found = find_closer(chars, in_uri, i + dlen, dlen);
        proof {
            lemma_first_closer_bounds(chars@, in_uri@, i + dlen, dlen as int, i + dlen + 1);
        }
        match found {
            Some(close) => Some((close, dlen, style)),
            None => None,
        }
    } else {
        None
    }
}

/// Append the input-text UTF-16 offsets of the `dlen` marker chars at `at`.
fn push_marker_offsets(
    removed: &mut Vec<usize>,
    orig_utf16: &Vec<usize>,
    Ghost(chars): Ghost<Seq<char>>,
    at: usize,
    dlen: usize,
)
    requires
        orig_utf16@.len() == chars.len() + 1,
        forall|q: int| 0 <= q <= chars.len() ==> orig_utf16@[q] == prefix_utf16(chars, q),
        at + dlen <= chars.len(),
    ensures
        offsets_model(final(removed)@) == offsets_model(old(removed)@) + marker_offsets(
            chars,
            at as int,
            dlen as int,
        ),
{
    let ghost removed0 = offsets_model(removed@);
    let olen = orig_utf16.len();
    let mut k: usize = 0;
    while k < dlen
        invariant
            olen == orig_utf16@.len(),
            orig_utf16@.len() == chars.len() + 1,
            forall|q: int| 0 <= q <= chars.len() ==> orig_utf16@[q] == prefix_utf16(chars, q),
            at + dlen <= chars.len(),
            k <= dlen,
            offsets_model(removed@) == removed0 + marker_offsets(chars, at as int, dlen as int).take(
                k as int,
            ),
        decreases dlen - k,
    {
        let ghost before = removed@;
        removed.push(orig_utf16[at + k]);
        proof {
            assert(removed@.drop_last() =~= before);
            assert(offsets_model(removed@) =~= offsets_model(before).push(orig_utf16@[at + k] as int));
            assert(marker_offsets(chars, at as int, dlen as int).take(k + 1) =~= marker_offsets(
                chars,
                at as int,
                dlen as int,
            ).take(k as int).push(prefix_utf16(chars, at + k)));
        }
        k += 1;
    }
    assert(marker_offsets(chars, at as int, dlen as int).take(dlen as int) =~= marker_offsets(
        chars,
        at as int,
        dlen as int,
    ));
}

/// Copy `chars[from..to]` to the end of `body`, keeping `out_utf16` equal to
/// the body's UTF-16 length.
fn copy_chars(body: &mut String, out_utf16: &mut usize, chars: &Vec<char>, from: usize, to: usize)
    requires
        from <= to <= chars@.len(),
        *old(out_utf16) == utf16_len(old(body)@),
        utf16_len(old(body)@) + utf16_len(chars@.subrange(from as int, to as int)) <= usize::MAX,
    ensures
        final(body)@ == old(body)@ + chars@.subrange(from as int, to as int),
        *final(out_utf16) == utf16_len(final(body)@),
{
    let ghost body0 = body@;
    let mut p = from;
    assert(body@ =~= body0 + chars@.subrange(from as int, p as int));
    while p < to
        invariant
            from <= p <= to <= chars@.len(),
            utf16_len(body0) + utf16_len(chars@.subrange(from as int, to as int)) <= usize::MAX,
            body@ == body0 + chars@.subrange(from as int, p as int),
            *out_utf16 == utf16_len(body@),
        decreases to - p,
    {
        proof {
            assert(chars@.subrange(from as int, p + 1) =~= chars@.subrange(from as int, p as int).push(
                chars@[p as int],
            ));
            assert(body0 + chars@.subrange(from as int, p + 1) =~= (body0 + chars@.subrange(
                from as int,
                p as int,
            )).push(chars@[p as int]));
            assert((body@.push(chars@[p as int])).drop_last() =~= body@);
            assert(chars@.subrange(from as int, to as int) =~= chars@.subrange(from as int, p + 1)
                + chars@.subrange(p + 1, to as int));
            lemma_len_concat(chars@.subrange(from as int, p + 1), chars@.subrange(p + 1, to as int));
            lemma_len_concat(body0, chars@.subrange(from as int, p + 1));
        }
        push_char(body, chars[p]);
        *out_utf16 = *out_utf16 + char_len_utf16(chars[p]);
        p += 1;
    }
}

/// Byte length of a string: the length of its UTF-8 encoding.
fn byte_len(s: &String) -> (r: usize)
    requires
        utf8_len(s@) <= usize::MAX,
    ensures
        r == utf8_len(s@),
{
    proof {
        lemma_utf8_len_is_encoding_len(s@);
    }
    s.as_str().len()
}

/// Parse WhatsApp-style markup out of `text`, returning the stripped body and
/// the style ranges. Text without markers passes through unchanged.
#[verifier::spinoff_prover]
pub fn parse_markup(text: &str) -> (m: Markup)
    ensures
        m.model() == markup_model(text@),
{
    let chars: Vec<char> = chars_of(text);
    let in_uri = uri_mask(chars.as_slice());
    let n = chars.len();
    let total_bytes = text.as_bytes().len();
    proof {
        lemma_utf8_len_is_encoding_len(text@);
        assert(chars@.take(n as int) =~= chars@);
    }
    let ghost total: nat = utf8_len(chars@);

    // UTF-16 offset of each input char (prefix sums), plus end sentinel.
    let mut orig_utf16: Vec<usize> = Vec::new();
    let mut acc: usize = 0;
    let mut idx: usize = 0;
    while idx < n
        invariant
            n == chars@.len(),
            total == utf8_len(chars@),
            total <= usize::MAX,
            idx <= n,
            orig_utf16@.len() == idx,
            forall|k: int| 0 <= k < idx ==> orig_utf16@[k] == prefix_utf16(chars@, k),
            acc == prefix_utf16(chars@, idx as int),
        decreases n - idx,
    {
        orig_utf16.push(acc);
        proof {
            lemma_take_succ(chars@, idx as int);
            lemma_utf16_le_utf8(chars@.take(idx + 1));
            lemma_take_mono(chars@, idx + 1, n as int);
            assert(chars@.take(n as int) =~= chars@);
        }
        acc = acc + char_len_utf16(chars[idx]);
        idx += 1;
    }
    orig_utf16.push(acc);

    let mut m = Markup {
        body: String::new(),
        byte_ranges: Vec::new(),
        utf16_ranges: Vec::new(),
        removed_utf16: Vec::new(),
    };
    let mut out_utf16: usize = 0;
    proof {
        assert(m.model().body =~= empty_model().body);
        assert(m.model().byte_ranges =~= empty_model().byte_ranges);
        assert(m.model().utf16_ranges =~= empty_model().utf16_ranges);
        assert(m.model().removed =~= empty_model().removed);
        assert(chars@.take(0) =~= Seq::<char>::empty());
    }

    let mut i: usize = 0;
    while i < n
        invariant
            n == chars@.len(),
            chars@ == text@,
            in_uri@ == uri_mask_spec(chars@),
            total == utf8_len(chars@),
            total <= usize::MAX,
            orig_utf16@.len() == n + 1,
            forall|k: int| 0 <= k <= n ==> orig_utf16@[k] == prefix_utf16(chars@, k),
            i <= n,
            scan(chars@, in_uri@, i as int, m.model()) == markup_model(text@),
            out_utf16 == utf16_len(m.body@),
            utf16_len(m.body@) <= prefix_utf16(chars@, i as int),
            utf8_len(m.body@) <= utf8_len(chars@.take(i as int)),
        decreases n - i,
    {
        let ghost st0 = m.model();
        proof {
            lemma_utf16_le_utf8(chars@);
            assert(orig_utf16@[n as int] == prefix_utf16(chars@, n as int));
            lemma_take_mono(chars@, i as int, n as int);
            assert(chars@.take(n as int) =~= chars@);
        }
        match span_here(chars.as_slice(), in_uri.as_slice(), i) {
            Some((close, dlen, style)) => {
                push_marker_offsets(&mut m.removed_utf16, &orig_utf16, Ghost(chars@), i, dlen);
                proof {
                    lemma_subrange_len(chars@, i + dlen, close as int);
                    lemma_take_mono(chars@, i as int, i + dlen);
                    lemma_take_mono(chars@, close as int, n as int);
                }
                let start_byte = byte_len(&m.body);
                let start_utf16 = out_utf16;
                copy_chars(&mut m.body, &mut out_utf16, &chars, i + dlen, close);
                proof {
                    lemma_len_concat(st0.body, chars@.subrange(i + dlen, close as int));
                    lemma_take_mono(chars@, close as int, close + dlen);
                }
                let end_byte = byte_len(&m.body);
                m.byte_ranges.push((start_byte, end_byte, style));
                m.utf16_ranges.push((start_utf16, out_utf16 - start_utf16, style));
                push_marker_offsets(&mut m.removed_utf16, &orig_utf16, Ghost(chars@), close, dlen);
                proof {
                    let st1 = with_span(chars@, st0, i as int, close as int, dlen as int, style);
                    assert(m.model().byte_ranges =~= st1.byte_ranges);
                    assert(m.model().utf16_ranges =~= st1.utf16_ranges);
                    assert(m.model().removed =~= st1.removed);
                    assert(m.model() == st1);
                }
                i = close + dlen;
            },
            None => {
                proof {
                    lemma_take_succ(chars@, i as int);
                    lemma_take_mono(chars@, i + 1, n as int);
                    assert(m.body@.push(chars@[i as int]).drop_last() =~= m.body@);
                }
                push_char(&mut m.body, chars[i]);
                out_utf16 = out_utf16 + char_len_utf16(chars[i]);
                proof {
                    assert(m.model() == with_char(st0, chars@[i as int]));
                }
                i += 1;
            },
        }
    }
    m
}

} // verus!
