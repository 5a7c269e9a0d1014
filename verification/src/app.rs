//! Application-level vocabulary: overlay and input modes, menu shortcuts,
//! and the helpers that pull links out of message bodies and vet local files
//! before they are handed to the OS.
use vstd::prelude::*;
use vstd::string::StringSliceAdditionalSpecFns;
use vstd::utf8::*;

use crate::audio::{ascii_lowercase, contains_name, strings_model, to_ascii_lowercase};
use crate::paths::{extension_of, path_extension, path_has_prefix, path_starts_with};
use crate::text::{
    char_is_whitespace, chars_of, is_white_space, matches_at, occurs_at, owned, str_trim,
    string_from_range, trimmed,
};

verus! {

/// Lifetime, in seconds, of a pasted temp file that is still awaiting send
/// confirmation; it is deleted once this has passed.
pub const PASTE_CLEANUP_SENTINEL_SECS: u64 = 3600;

/// Seconds to wait after send confirmation before deleting a pasted temp file.
pub const PASTE_CLEANUP_DELAY_SECS: u64 = 10;

/// Snap a byte position to the nearest char boundary at or before it: the
/// largest boundary of `buf` that is at most `pos` (and at most the length).
pub fn floor_char_boundary(buf: &str, pos: usize) -> (r: usize)
    ensures
        r <= pos,
        r <= buf.len(),
        is_char_boundary(buf.spec_bytes(), r as int),
        forall|q: int|
            r < q <= pos && q <= buf.len() ==> !is_char_boundary(
                buf.spec_bytes(),
                q,
            ),
{
    proof {
        encode_utf8_valid_utf8(buf@);
        is_char_boundary_start_end_of_seq(buf.spec_bytes());
    }
    let len = buf.len();
    let start = if pos < len {
        pos
    } else {
        len
    };
    if buf.is_char_boundary(start) {
        return start;
    }
    let mut p = start;
    while p > 0 && !buf.is_char_boundary(p)
        invariant
            p <= start <= pos,
            start <= buf.len(),
            is_char_boundary(buf.spec_bytes(), 0),
            forall|q: int| p < q <= start ==> !is_char_boundary(buf.spec_bytes(), q),
            !is_char_boundary(buf.spec_bytes(), start as int),
        decreases p,
    {
        p -= 1;
    }
    p
}

/// Quote fields of an outgoing message kept only for persistence: the
/// author's phone number or UUID rather than the display name.
#[derive(Default, Clone)]
pub struct WireQuote {
    pub author: Option<String>,
    pub body: Option<String>,
    pub timestamp: Option<i64>,
}

/// The overlay shown above the main view; at most one is open at a time.
#[derive(Debug, Clone, Copy, PartialEq, Eq, Structural)]
pub enum OverlayKind {
    SidebarFilter,
    PollVote,
    PinDuration,
    ActionMenu,
    DeleteConfirm,
    DeleteConversationConfirm,
    FilePicker,
    EmojiPicker,
    ReactionPicker,
    MessageRequest,
    GroupMenu,
    About,
    Profile,
    Help,
    Verify,
    Forward,
    Contacts,
    Search,
    SettingsProfiles,
    ThemePicker,
    Keybindings,
    Customize,
    Settings,
    Autocomplete,
    Palette,
}

/// Opening an overlay that must not displace another one: it opens when
/// none is showing or it is already the one showing.
pub open spec fn try_open_spec(current: Option<OverlayKind>, kind: OverlayKind) -> Option<OverlayKind> {
    if current is None || current == Some(kind) {
        Some(kind)
    } else {
        current
    }
}

/// Open `kind` unless another overlay is showing; returns the overlay now
/// showing.
pub fn try_open_overlay(current: Option<OverlayKind>, kind: OverlayKind) -> (r: Option<
    OverlayKind,
>)
    ensures
        r == try_open_spec(current, kind),
{
    match current {
        None => Some(kind),
        Some(k) => if k == kind {
            Some(kind)
        } else {
            current
        },
    }
}

/// The overlay after the completion list was recomputed: with candidates the
/// list opens (unless another overlay is showing); without, an open list
/// closes and any other overlay stays.
pub open spec fn overlay_after_autocomplete_spec(
    current: Option<OverlayKind>,
    has_candidates: bool,
) -> Option<OverlayKind> {
    if has_candidates {
        try_open_spec(current, OverlayKind::Autocomplete)
    } else if current == Some(OverlayKind::Autocomplete) {
        None
    } else {
        current
    }
}

/// The overlay showing after the completion list was recomputed.
pub fn overlay_after_autocomplete(current: Option<OverlayKind>, has_candidates: bool) -> (r: Option<
    OverlayKind,
>)
    ensures
        r == overlay_after_autocomplete_spec(current, has_candidates),
{
    if has_candidates {
        try_open_overlay(current, OverlayKind::Autocomplete)
    } else {
        match current {
            Some(OverlayKind::Autocomplete) => None,
            _ => current,
        }
    }
}

/// Autocomplete never displaces another overlay, shows its list only when
/// there are candidates, and shows it whenever there are some and nothing
/// else is showing.
pub proof fn law_autocomplete_overlay(current: Option<OverlayKind>, has_candidates: bool)
    ensures
        current matches Some(k) && k != OverlayKind::Autocomplete ==> overlay_after_autocomplete_spec(
            current,
            has_candidates,
        ) == current,
        overlay_after_autocomplete_spec(current, has_candidates) == Some(OverlayKind::Autocomplete)
            ==> has_candidates,
        has_candidates && (current is None || current == Some(OverlayKind::Autocomplete))
            ==> overlay_after_autocomplete_spec(current, has_candidates) == Some(
            OverlayKind::Autocomplete,
        ),
{
}

/// Modal editing state of the input line.
#[derive(Debug, Clone, Copy, PartialEq, Eq, Structural)]
pub enum InputMode {
    Normal,
    Insert,
}

/// An entry of the group-menu overlay (manage members, rename, leave, ...).
pub struct GroupMenuItem {
    pub label: &'static str,
    pub key_hint: GroupMenuHint,
    pub nerd_icon: &'static str,
}

/// An entry of the per-message action-menu overlay (reply, edit, react, ...).
pub struct ActionMenuItem {
    pub label: &'static str,
    pub key_hint: ActionMenuHint,
    pub nerd_icon: &'static str,
}

/// Shortcut hint of an entry in the group-menu overlay.
#[derive(Debug, Clone, Copy, PartialEq, Eq, Structural)]
pub enum GroupMenuHint {
    Members,
    AddMember,
    RemoveMember,
    Rename,
    Leave,
    Create,
}

/// The key bound to each group-menu hint.
pub open spec fn group_hint_char(h: GroupMenuHint) -> char {
    match h {
        GroupMenuHint::Members => 'm',
        GroupMenuHint::AddMember => 'a',
        GroupMenuHint::RemoveMember => 'r',
        GroupMenuHint::Rename => 'n',
        GroupMenuHint::Leave => 'l',
        GroupMenuHint::Create => 'c',
    }
}

/// The group-menu hint bound to a key, if any.
pub open spec fn group_hint_of_char(c: char) -> Option<GroupMenuHint> {
    if c == 'm' {
        Some(GroupMenuHint::Members)
    } else if c == 'a' {
        Some(GroupMenuHint::AddMember)
    } else if c == 'r' {
        Some(GroupMenuHint::RemoveMember)
    } else if c == 'n' {
        Some(GroupMenuHint::Rename)
    } else if c == 'l' {
        Some(GroupMenuHint::Leave)
    } else if c == 'c' {
        Some(GroupMenuHint::Create)
    } else {
        None
    }
}

/// Every group-menu hint is recovered from its key, and a key maps back only
/// to the hint that owns it: the two tables describe one bijection.
pub proof fn group_hint_roundtrip(h: GroupMenuHint, c: char)
    ensures
        group_hint_of_char(group_hint_char(h)) == Some(h),
        group_hint_of_char(c) == Some(h) <==> group_hint_char(h) == c,
{
}

impl GroupMenuHint {
    /// Single-letter shortcut, used both as the display hint and the binding.
    pub fn key_char(self) -> (c: char)
        ensures
            c == group_hint_char(self),
    {
        match self {
            Self::Members => 'm',
            Self::AddMember => 'a',
            Self::RemoveMember => 'r',
            Self::Rename => 'n',
            Self::Leave => 'l',
            Self::Create => 'c',
        }
    }

    /// Parse a keypress into a hint, or `None` if it maps to no menu item.
    pub fn from_char(c: char) -> (r: Option<Self>)
        ensures
            r == group_hint_of_char(c),
    {
        match c {
            'm' => Some(Self::Members),
            'a' => Some(Self::AddMember),
            'r' => Some(Self::RemoveMember),
            'n' => Some(Self::Rename),
            'l' => Some(Self::Leave),
            'c' => Some(Self::Create),
            _ => None,
        }
    }
}

// ---------------------------------------------------------------------------
// Initial sync burst
// ---------------------------------------------------------------------------

/// Whether the initial sync burst is over, given how long ago (in whole
/// seconds) it started and how long ago the last message arrived: at least
/// ten seconds since the start, and either no message yet or a quiet spell of
/// at least three seconds.
pub fn sync_should_end(elapsed_secs: u64, since_last_message_secs: Option<u64>) -> (r: bool)
    ensures
        r == (elapsed_secs >= 10 && match since_last_message_secs {
            None => true,
            Some(s) => s >= 3,
        }),
{
    if elapsed_secs < 10 {
        return false;
    }
    match since_last_message_secs {
        None => true,
        Some(s) => s >= 3,
    }
}

// ---------------------------------------------------------------------------
// Links in message bodies
// ---------------------------------------------------------------------------

/// A char that ends a link: white space, or the `)` closing a markdown-style
/// `[label](uri)`.
pub open spec fn is_link_stop(c: char) -> bool {
    is_white_space(c) || c == ')'
}

/// Index of the first link stop at or after `i`, or the length if none.
pub open spec fn link_end(s: Seq<char>, i: int) -> int
    decreases s.len() - i,
{
    if 0 <= i < s.len() {
        if is_link_stop(s[i]) {
            i
        } else {
            link_end(s, i + 1)
        }
    } else {
        s.len() as int
    }
}

/// The link that starts at `i`: everything up to the next link stop.
pub open spec fn link_at(s: Seq<char>, i: int) -> Seq<char> {
    s.subrange(i, link_end(s, i))
}

/// First index at or after `k` where `p` or `q` occurs.
pub open spec fn first_of_from(s: Seq<char>, p: Seq<char>, q: Seq<char>, k: int) -> Option<int>
    decreases s.len() + 1 - k,
{
    if k < 0 || k > s.len() {
        None
    } else if occurs_at(s, p, k) || occurs_at(s, q, k) {
        Some(k)
    } else {
        first_of_from(s, p, q, k + 1)
    }
}

/// The link found in `s` at the first occurrence of `p` or `q`, if any.
pub open spec fn first_link(s: Seq<char>, p: Seq<char>, q: Seq<char>) -> Option<Seq<char>> {
    match first_of_from(s, p, q, 0) {
        Some(i) => Some(link_at(s, i)),
        None => None,
    }
}

proof fn lemma_first_of_from(s: Seq<char>, p: Seq<char>, q: Seq<char>, k: int)
    requires
        0 <= k,
    ensures
        first_of_from(s, p, q, k) matches Some(i) ==> k <= i <= s.len() && (occurs_at(s, p, i)
            || occurs_at(s, q, i)) && forall|j: int| k <= j < i ==> !occurs_at(s, p, j) && !occurs_at(s, q, j),
        first_of_from(s, p, q, k) is None ==> forall|j: int| k <= j <= s.len() ==> !occurs_at(s, p, j) && !occurs_at(s, q, j),
    decreases s.len() + 1 - k,
{
    if k <= s.len() && !(occurs_at(s, p, k) || occurs_at(s, q, k)) {
        lemma_first_of_from(s, p, q, k + 1);
    }
}

proof fn lemma_link_end(s: Seq<char>, i: int)
    requires
        0 <= i <= s.len(),
    ensures
        i <= link_end(s, i) <= s.len(),
        forall|j: int| i <= j < link_end(s, i) ==> !is_link_stop(s[j]),
        link_end(s, i) < s.len() ==> is_link_stop(s[link_end(s, i)]),
    decreases s.len() - i,
{
    if i < s.len() && !is_link_stop(s[i]) {
        lemma_link_end(s, i + 1);
    }
}

/// `l` is the link at `i`: either scheme occurs at `i` and at no earlier
/// index; `l` is the text from `i` on, holding no white space or `)`, and
/// what follows it is one of them or the end of the body.
pub open spec fn link_found_at(s: Seq<char>, p: Seq<char>, q: Seq<char>, i: int, l: Seq<char>) -> bool {
    &&& 0 <= i <= s.len()
    &&& (occurs_at(s, p, i) || occurs_at(s, q, i))
    &&& forall|j: int| 0 <= j < i ==> !occurs_at(s, p, j) && !occurs_at(s, q, j)
    &&& i + l.len() <= s.len()
    &&& s.subrange(i, i + l.len()) == l
    &&& forall|j: int| 0 <= j < l.len() ==> !is_white_space(l[j]) && l[j] != ')'
    &&& (i + l.len() == s.len() || is_white_space(s[i + l.len()]) || s[i + l.len()] == ')')
}

/// The link found in a body is the first place where either scheme occurs,
/// taken from there up to, not including, the next white space or `)`. No
/// link is found only when neither scheme occurs.
pub proof fn law_link_runs_from_first_scheme_to_a_stop(s: Seq<char>, p: Seq<char>, q: Seq<char>)
    ensures
        first_link(s, p, q) is Some ==> link_found_at(
            s,
            p,
            q,
            first_of_from(s, p, q, 0)->0,
            first_link(s, p, q)->0,
        ),
        first_link(s, p, q) is None <==> forall|j: int| 0 <= j <= s.len() ==> !occurs_at(s, p, j) && !occurs_at(s, q, j),
{
    lemma_first_of_from(s, p, q, 0);
    if first_of_from(s, p, q, 0) is Some {
        let i = first_of_from(s, p, q, 0)->0;
        lemma_link_end(s, i);
        let l = link_at(s, i);
        assert forall|j: int| 0 <= j < l.len() implies !is_white_space(l[j]) && l[j] != ')' by {
            assert(l[j] == s[i + j]);
            assert(!is_link_stop(s[i + j]));
        }
        assert(s.subrange(i, i + l.len()) =~= l);
        assert(link_found_at(s, p, q, i, l));
    }
}

/// The link of `cs` that starts at `i`.
fn link_from(cs: &Vec<char>, i: usize) -> (r: String)
    requires
        i <= cs@.len(),
    ensures
        r@ == link_at(cs@, i as int),
        link_end(cs@, i as int) <= cs@.len(),
{
    let mut j = i;
    while j < cs.len() && !(char_is_whitespace(cs[j]) || cs[j] == ')')
        invariant
            i <= j <= cs@.len(),
            link_end(cs@, i as int) == link_end(cs@, j as int),
        decreases cs@.len() - j,
    {
        j += 1;
    }
    string_from_range(cs, i, j)
}

/// First index at which `p` or `q` occurs in `cs`; both are non-empty.
fn find_first_of(cs: &Vec<char>, p: &Vec<char>, q: &Vec<char>) -> (r: Option<usize>)
    requires
        p@.len() > 0,
        q@.len() > 0,
    ensures
        match r {
            Some(i) => first_of_from(cs@, p@, q@, 0) == Some(i as int) && i < cs@.len(),
            None => first_of_from(cs@, p@, q@, 0) is None,
        },
{
    let mut i: usize = 0;
    while i < cs.len()
        invariant
            i <= cs@.len(),
            p@.len() > 0,
            q@.len() > 0,
            first_of_from(cs@, p@, q@, 0) == first_of_from(cs@, p@, q@, i as int),
        decreases cs@.len() - i,
    {
        if matches_at(cs, p, i) || matches_at(cs, q, i) {
            return Some(i);
        }
        i += 1;
    }
    assert(first_of_from(cs@, p@, q@, cs@.len() + 1int) is None);
    None
}

/// The first `file:///` URI in a message body, up to white space or `)` so
/// that `[image: name](file:///path)` yields just the URI. What comes out is
/// untrusted text; `classify_file_open` vets it before anything is opened.
pub fn extract_file_uri(body: &str) -> (r: Option<String>)
    ensures
        opt_view(r) == first_link(body@, "file:///"@, "file:///"@),
{
    let cs = chars_of(body);
    let pat = chars_of("file:///");
    proof {
        reveal_strlit("file:///");
    }
    match find_first_of(&cs, &pat, &pat) {
        Some(i) => Some(link_from(&cs, i)),
        None => None,
    }
}

/// The first `https://` or `http://` URL in a message body, whichever comes
/// first, up to white space or `)`.
pub fn extract_http_url(body: &str) -> (r: Option<String>)
    ensures
        opt_view(r) == first_link(body@, "https://"@, "http://"@),
{
    let cs = chars_of(body);
    let https = chars_of("https://");
    let http = chars_of("http://");
    proof {
        reveal_strlit("https://");
        reveal_strlit("http://");
    }
    match find_first_of(&cs, &https, &http) {
        Some(i) => Some(link_from(&cs, i)),
        None => None,
    }
}

/// The view of an optional string.
pub open spec fn opt_view(o: Option<String>) -> Option<Seq<char>> {
    match o {
        Some(s) => Some(s@),
        None => None,
    }
}

// ---------------------------------------------------------------------------
// Local files named in message bodies
// ---------------------------------------------------------------------------

/// The local path named by a `file://` URI (Unix reading: the third slash of
/// `file:///` is the root of the path); any other text is taken as a path.
/// Surrounding white space is ignored.
pub open spec fn file_uri_path(uri: Seq<char>) -> Seq<char> {
    let t = trimmed(uri);
    if occurs_at(t, "file:///"@, 0) {
        seq!['/'] + t.skip(8)
    } else if occurs_at(t, "file://"@, 0) {
        t.skip(7)
    } else {
        t
    }
}

/// Extract a local file path from a `file://` URI.
pub fn file_uri_to_path(uri: &str) -> (r: String)
    ensures
        r@ == file_uri_path(uri@),
{
    let t = str_trim(uri);
    let cs = chars_of(t);
    proof {
        reveal_strlit("file:///");
        reveal_strlit("file://");
    }
    if matches_at(&cs, &chars_of("file:///"), 0) {
        let r = string_from_range(&cs, 7, cs.len());
        assert(r@ =~= seq!['/'] + cs@.skip(8)) by {
            assert(cs@.subrange(0, 8)[7] == '/');
        }
        r
    } else if matches_at(&cs, &chars_of("file://"), 0) {
        string_from_range(&cs, 7, cs.len())
    } else {
        owned(t)
    }
}

/// File extensions that are safe to hand to the OS open handler. Anything else
/// (executables, scripts, shortcuts, unknown types) is shown but never opened,
/// because attachment names are chosen by the remote sender.
pub open spec fn safe_open_extensions() -> Seq<Seq<char>> {
    seq![
        "png"@, "jpg"@, "jpeg"@, "gif"@, "webp"@, "bmp"@, "tif"@, "tiff"@, "heic"@, "avif"@,
        "mp4"@, "mov"@, "webm"@, "mkv"@, "avi"@, "m4v"@,
        "mp3"@, "ogg"@, "oga"@, "m4a"@, "wav"@, "flac"@, "opus"@, "aac"@,
        "pdf"@, "txt"@, "md"@, "log"@, "csv"@, "vcf"@,
    ]
}

fn safe_open_extension_list() -> (v: Vec<String>)
    ensures
        strings_model(v@) == safe_open_extensions(),
{
    let v = vec![
        owned("png"), owned("jpg"), owned("jpeg"), owned("gif"), owned("webp"), owned("bmp"),
        owned("tif"), owned("tiff"), owned("heic"), owned("avif"),
        owned("mp4"), owned("mov"), owned("webm"), owned("mkv"), owned("avi"), owned("m4v"),
        owned("mp3"), owned("ogg"), owned("oga"), owned("m4a"), owned("wav"), owned("flac"),
        owned("opus"), owned("aac"),
        owned("pdf"), owned("txt"), owned("md"), owned("log"), owned("csv"), owned("vcf"),
    ];
    assert(strings_model(v@) =~= safe_open_extensions());
    v
}

/// Whether a path's extension, ASCII-lower-cased, is on the safe list.
pub open spec fn has_safe_extension(path: Seq<char>) -> bool {
    match extension_of(path) {
        Some(e) => safe_open_extensions().contains(ascii_lowercase(e)),
        None => false,
    }
}

/// Outcome of vetting a local path taken from a message body.
#[derive(Debug, PartialEq, Eq)]
pub enum OpenFileDecision {
    /// Safe to open: the canonical path, inside the download dir, of an
    /// allow-listed type.
    Allow(String),
    NotFound,
    OutsideDownloadDir,
    UnsafeType,
}

/// Vet a file before it is opened. Message bodies are remote-controlled text,
/// so the canonical path must lie inside the canonical download dir and carry
/// an allow-listed extension; otherwise the OS open handler could run an
/// attacker-named file on a keypress. `canonical` is the canonical form of the
/// path (`None` when it does not resolve), `canonical_dir` that of the
/// download dir (`None` when it is unset or missing, in which case nothing is
/// opened).
pub fn classify_file_open(canonical: Option<String>, canonical_dir: Option<&str>) -> (r:
    OpenFileDecision)
    ensures
        match canonical {
            None => r is NotFound,
            Some(c) => match canonical_dir {
                None => r is OutsideDownloadDir,
                Some(d) => if !path_has_prefix(c@, d@) {
                    r is OutsideDownloadDir
                } else if has_safe_extension(c@) {
                    r matches OpenFileDecision::Allow(p) && p@ == c@
                } else {
                    r is UnsafeType
                },
            },
        },
{
    let canon = match canonical {
        None => return OpenFileDecision::NotFound,
        Some(c) => c,
    };
    let dir = match canonical_dir {
        None => return OpenFileDecision::OutsideDownloadDir,
        Some(d) => d,
    };
    if !path_starts_with(canon.as_str(), dir) {
        return OpenFileDecision::OutsideDownloadDir;
    }
    let safe = match path_extension(canon.as_str()) {
        Some(e) => {
            let lower = to_ascii_lowercase(e.as_str());
            contains_name(safe_open_extension_list().as_slice(), &lower)
        },
        None => false,
    };
    if safe {
        OpenFileDecision::Allow(canon)
    } else {
        OpenFileDecision::UnsafeType
    }
}

/// Shortcut hint of an entry in the per-message action menu.
#[derive(Debug, Clone, Copy, PartialEq, Eq, Structural)]
pub enum ActionMenuHint {
    Reply,
    Edit,
    React,
    Forward,
    Copy,
    Delete,
    PinToggle,
    Vote,
    EndPoll,
    OpenAttachment,
    OpenLink,
}

/// The key bound to each action-menu hint.
pub open spec fn action_hint_char(h: ActionMenuHint) -> char {
    match h {
        ActionMenuHint::Reply => 'q',
        ActionMenuHint::Edit => 'e',
        ActionMenuHint::React => 'r',
        ActionMenuHint::Forward => 'f',
        ActionMenuHint::Copy => 'y',
        ActionMenuHint::Delete => 'd',
        ActionMenuHint::PinToggle => 'p',
        ActionMenuHint::Vote => 'v',
        ActionMenuHint::EndPoll => 'x',
        ActionMenuHint::OpenAttachment => 'o',
        ActionMenuHint::OpenLink => 'l',
    }
}

/// The action-menu hint bound to a key, if any.
pub open spec fn action_hint_of_char(c: char) -> Option<ActionMenuHint> {
    if c == 'q' {
        Some(ActionMenuHint::Reply)
    } else if c == 'e' {
        Some(ActionMenuHint::Edit)
    } else if c == 'r' {
        Some(ActionMenuHint::React)
    } else if c == 'f' {
        Some(ActionMenuHint::Forward)
    } else if c == 'y' {
        Some(ActionMenuHint::Copy)
    } else if c == 'd' {
        Some(ActionMenuHint::Delete)
    } else if c == 'p' {
        Some(ActionMenuHint::PinToggle)
    } else if c == 'v' {
        Some(ActionMenuHint::Vote)
    } else if c == 'x' {
        Some(ActionMenuHint::EndPoll)
    } else if c == 'o' {
        Some(ActionMenuHint::OpenAttachment)
    } else if c == 'l' {
        Some(ActionMenuHint::OpenLink)
    } else {
        None
    }
}

/// Every action-menu hint is recovered from its key, and a key maps back only
/// to the hint that owns it.
pub proof fn action_hint_roundtrip(h: ActionMenuHint, c: char)
    ensures
        action_hint_of_char(action_hint_char(h)) == Some(h),
        action_hint_of_char(c) == Some(h) <==> action_hint_char(h) == c,
{
}

/// No two action-menu hints share a key.
pub proof fn action_hint_keys_distinct(a: ActionMenuHint, b: ActionMenuHint)
    ensures
        action_hint_char(a) == action_hint_char(b) ==> a == b,
{
    action_hint_roundtrip(a, action_hint_char(b));
}

/// No two group-menu hints share a key.
pub proof fn group_hint_keys_distinct(a: GroupMenuHint, b: GroupMenuHint)
    ensures
        group_hint_char(a) == group_hint_char(b) ==> a == b,
{
    group_hint_roundtrip(a, group_hint_char(b));
}

impl ActionMenuHint {
    /// Single-letter shortcut for this action, used both as the display hint
    /// in the menu overlay and as the keyboard binding.
    pub fn key_char(self) -> (c: char)
        ensures
            c == action_hint_char(self),
    {
        match self {
            Self::Reply => 'q',
            Self::Edit => 'e',
            Self::React => 'r',
            Self::Forward => 'f',
            Self::Copy => 'y',
            Self::Delete => 'd',
            Self::PinToggle => 'p',
            Self::Vote => 'v',
            Self::EndPoll => 'x',
            Self::OpenAttachment => 'o',
            Self::OpenLink => 'l',
        }
    }

    /// Parse a keypress back into a hint; `None` for any char that is no
    /// menu action.
    pub fn from_char(c: char) -> (r: Option<Self>)
        ensures
            r == action_hint_of_char(c),
    {
        match c {
            'q' => Some(Self::Reply),
            'e' => Some(Self::Edit),
            'r' => Some(Self::React),
            'f' => Some(Self::Forward),
            'y' => Some(Self::Copy),
            'd' => Some(Self::Delete),
            'p' => Some(Self::PinToggle),
            'v' => Some(Self::Vote),
            'x' => Some(Self::EndPoll),
            'o' => Some(Self::OpenAttachment),
            'l' => Some(Self::OpenLink),
            _ => None,
        }
    }
}

// ---------------------------------------------------------------------------
// Menu contents
// ---------------------------------------------------------------------------

/// A group-menu entry as (label, hint, icon).
pub open spec fn group_item_model(i: GroupMenuItem) -> (Seq<char>, GroupMenuHint, Seq<char>) {
    (i.label@, i.key_hint, i.nerd_icon@)
}

/// The group menu: member management, rename and leave inside a group
/// conversation; only "Create group" anywhere else.
pub open spec fn group_menu_spec(in_group: bool) -> Seq<(Seq<char>, GroupMenuHint, Seq<char>)> {
    if in_group {
        seq![
            ("Members"@, GroupMenuHint::Members, "\u{f0849}"@),
            ("Add member"@, GroupMenuHint::AddMember, "\u{f0234}"@),
            ("Remove member"@, GroupMenuHint::RemoveMember, "\u{f0235}"@),
            ("Rename"@, GroupMenuHint::Rename, "\u{f03eb}"@),
            ("Leave"@, GroupMenuHint::Leave, "\u{f0a79}"@),
        ]
    } else {
        seq![("Create group"@, GroupMenuHint::Create, "\u{f0234}"@)]
    }
}

/// The entries of the group menu, given whether the active conversation is
/// a group.
pub fn group_menu_items(in_group: bool) -> (r: Vec<GroupMenuItem>)
    ensures
        r@.map_values(|i: GroupMenuItem| group_item_model(i)) == group_menu_spec(in_group),
{
    let r = if in_group {
        vec![
            GroupMenuItem { label: "Members", key_hint: GroupMenuHint::Members, nerd_icon: "\u{f0849}" },
            GroupMenuItem {
                label: "Add member",
                key_hint: GroupMenuHint::AddMember,
                nerd_icon: "\u{f0234}",
            },
            GroupMenuItem {
                label: "Remove member",
                key_hint: GroupMenuHint::RemoveMember,
                nerd_icon: "\u{f0235}",
            },
            GroupMenuItem { label: "Rename", key_hint: GroupMenuHint::Rename, nerd_icon: "\u{f03eb}" },
            GroupMenuItem { label: "Leave", key_hint: GroupMenuHint::Leave, nerd_icon: "\u{f0a79}" },
        ]
    } else {
        vec![
            GroupMenuItem {
                label: "Create group",
                key_hint: GroupMenuHint::Create,
                nerd_icon: "\u{f0234}",
            },
        ]
    };
    assert(r@.map_values(|i: GroupMenuItem| group_item_model(i)) =~= group_menu_spec(in_group));
    r
}

/// What the action menu reads of the focused message.
pub struct FocusedMessage {
    pub is_system: bool,
    pub is_deleted: bool,
    pub is_outgoing: bool,
    pub is_pinned: bool,
    /// `Some(closed)` when the message is a poll.
    pub poll_closed: Option<bool>,
    pub body: String,
}

/// An action-menu entry as (label, hint, icon).
pub open spec fn action_item_model(i: ActionMenuItem) -> (Seq<char>, ActionMenuHint, Seq<char>) {
    (i.label@, i.key_hint, i.nerd_icon@)
}

/// `item` when `cond` holds, else nothing.
pub open spec fn entry_if(cond: bool, item: (Seq<char>, ActionMenuHint, Seq<char>)) -> Seq<
    (Seq<char>, ActionMenuHint, Seq<char>),
> {
    if cond {
        seq![item]
    } else {
        Seq::empty()
    }
}

/// The action menu of a message, in display order: reply, edit (own
/// messages), react, forward, copy, delete and pin/unpin for live messages
/// (react also for deleted ones, copy always); vote and end-poll for open
/// polls (ending only one's own); open-attachment and open-link when the body
/// names a local file or a web link. System lines offer only copy.
pub open spec fn action_menu_spec(m: FocusedMessage) -> Seq<(Seq<char>, ActionMenuHint, Seq<char>)> {
    let live = !m.is_system && !m.is_deleted;
    let open_poll = m.poll_closed == Some(false);
    entry_if(live, ("Reply"@, ActionMenuHint::Reply, "\u{f045a}"@))
        + entry_if(m.is_outgoing && live, ("Edit"@, ActionMenuHint::Edit, "\u{f03eb}"@))
        + entry_if(!m.is_system, ("React"@, ActionMenuHint::React, "\u{f0785}"@))
        + entry_if(live, ("Forward"@, ActionMenuHint::Forward, "\u{f04d6}"@))
        + seq![("Copy"@, ActionMenuHint::Copy, "\u{f018f}"@)]
        + entry_if(live, ("Delete"@, ActionMenuHint::Delete, "\u{f0a79}"@))
        + entry_if(
        live,
        (
            if m.is_pinned {
                "Unpin"@
            } else {
                "Pin"@
            },
            ActionMenuHint::PinToggle,
            "\u{f0403}"@,
        ),
    ) + entry_if(open_poll, ("Vote"@, ActionMenuHint::Vote, "\u{f0e73}"@)) + entry_if(
        open_poll && m.is_outgoing,
        ("End Poll"@, ActionMenuHint::EndPoll, "\u{f073a}"@),
    ) + entry_if(
        !m.is_deleted && first_link(m.body@, "file:///"@, "file:///"@) is Some,
        ("Open attachment"@, ActionMenuHint::OpenAttachment, "\u{f15b5}"@),
    ) + entry_if(
        !m.is_deleted && first_link(m.body@, "https://"@, "http://"@) is Some,
        ("Open link"@, ActionMenuHint::OpenLink, "\u{f0337}"@),
    )
}

/// Append `item` to `items` when `cond` holds.
fn push_if(
    items: &mut Vec<ActionMenuItem>,
    cond: bool,
    item: ActionMenuItem,
)
    ensures
        final(items)@.map_values(|i: ActionMenuItem| action_item_model(i)) == old(items)@.map_values(
            |i: ActionMenuItem| action_item_model(i),
        ) + entry_if(cond, action_item_model(item)),
{
    let ghost before = items@;
    if cond {
        items.push(item);
        assert(items@.map_values(|i: ActionMenuItem| action_item_model(i)) =~= before.map_values(
            |i: ActionMenuItem| action_item_model(i),
        ) + entry_if(cond, action_item_model(item)));
    } else {
        assert(items@.map_values(|i: ActionMenuItem| action_item_model(i)) =~= before.map_values(
            |i: ActionMenuItem| action_item_model(i),
        ) + entry_if(cond, action_item_model(item)));
    }
}

/// The available actions for the focused message, if any is focused.
pub fn action_menu_items(focused: Option<&FocusedMessage>) -> (r: Vec<ActionMenuItem>)
    ensures
        r@.map_values(|i: ActionMenuItem| action_item_model(i)) == match focused {
            Some(m) => action_menu_spec(*m),
            None => Seq::empty(),
        },
{
    let m = match focused {
        Some(m) => m,
        None => {
            let r: Vec<ActionMenuItem> = Vec::new();
            assert(r@.map_values(|i: ActionMenuItem| action_item_model(i)) =~= Seq::empty());
            return r;
        },
    };
    let live = !m.is_system && !m.is_deleted;
    let open_poll = match m.poll_closed {
        Some(closed) => !closed,
        None => false,
    };
    let has_file = !m.is_deleted && extract_file_uri(m.body.as_str()).is_some();
    let has_link = !m.is_deleted && extract_http_url(m.body.as_str()).is_some();
    let mut items: Vec<ActionMenuItem> = Vec::new();
    assert(items@.map_values(|i: ActionMenuItem| action_item_model(i)) =~= Seq::empty());
    push_if(
        &mut items,
        live,
        ActionMenuItem { label: "Reply", key_hint: ActionMenuHint::Reply, nerd_icon: "\u{f045a}" },
    );
    push_if(
        &mut items,
        m.is_outgoing && live,
        ActionMenuItem { label: "Edit", key_hint: ActionMenuHint::Edit, nerd_icon: "\u{f03eb}" },
    );
    push_if(
        &mut items,
        !m.is_system,
        ActionMenuItem { label: "React", key_hint: ActionMenuHint::React, nerd_icon: "\u{f0785}" },
    );
    push_if(
        &mut items,
        live,
        ActionMenuItem { label: "Forward", key_hint: ActionMenuHint::Forward, nerd_icon: "\u{f04d6}" },
    );
    push_if(
        &mut items,
        true,
        ActionMenuItem { label: "Copy", key_hint: ActionMenuHint::Copy, nerd_icon: "\u{f018f}" },
    );
    push_if(
        &mut items,
        live,
        ActionMenuItem { label: "Delete", key_hint: ActionMenuHint::Delete, nerd_icon: "\u{f0a79}" },
    );
    push_if(
        &mut items,
        live,
        ActionMenuItem {
            label: if m.is_pinned {
                "Unpin"
            } else {
                "Pin"
            },
            key_hint: ActionMenuHint::PinToggle,
            nerd_icon: "\u{f0403}",
        },
    );
    push_if(
        &mut items,
        open_poll,
        ActionMenuItem { label: "Vote", key_hint: ActionMenuHint::Vote, nerd_icon: "\u{f0e73}" },
    );
    push_if(
        &mut items,
        open_poll && m.is_outgoing,
        ActionMenuItem { label: "End Poll", key_hint: ActionMenuHint::EndPoll, nerd_icon: "\u{f073a}" },
    );
    push_if(
        &mut items,
        has_file,
        ActionMenuItem {
            label: "Open attachment",
            key_hint: ActionMenuHint::OpenAttachment,
            nerd_icon: "\u{f15b5}",
        },
    );
    push_if(
        &mut items,
        has_link,
        ActionMenuItem {
            label: "Open link",
            key_hint: ActionMenuHint::OpenLink,
            nerd_icon: "\u{f0337}",
        },
    );
    proof {
        assert(seq![("Copy"@, ActionMenuHint::Copy, "\u{f018f}"@)] =~= entry_if(
            true,
            ("Copy"@, ActionMenuHint::Copy, "\u{f018f}"@),
        ));
    }
    items
}

/// What choosing an action-menu entry does.
pub enum ActionOutcome {
    /// Run the normal-mode key action of the same name (reply, edit, react,
    /// forward, delete confirmation, pin toggle), which owns the rest.
    KeyAction(ActionMenuHint),
    /// Copy the focused message's text.
    CopyMessage,
    /// Open the vote overlay on the focused poll.
    OpenPollVote,
    /// Close the focused poll locally and ask the engine to end it.
    EndPoll,
    /// Vet and open the local file this URI names.
    OpenFile(String),
    /// Open this web link.
    OpenUrl(String),
    /// Nothing applies to the focused message.
    Nothing,
}

/// The outcome of choosing `hint` with `focused` the focused message (if
/// any) and `in_conversation` whether a conversation is active: votes only on
/// open polls, ending only one's own open polls in an active conversation,
/// opening only what the body names.
pub open spec fn action_outcome_spec(
    hint: ActionMenuHint,
    focused: Option<FocusedMessage>,
    in_conversation: bool,
    r: ActionOutcome,
) -> bool {
    match hint {
        ActionMenuHint::Copy => r is CopyMessage,
        ActionMenuHint::Vote => if focused matches Some(m) && m.poll_closed == Some(false) {
            r is OpenPollVote
        } else {
            r is Nothing
        },
        ActionMenuHint::EndPoll => if focused matches Some(m) && m.is_outgoing && m.poll_closed
            == Some(false) && in_conversation {
            r is EndPoll
        } else {
            r is Nothing
        },
        ActionMenuHint::OpenAttachment => match focused {
            Some(m) => match first_link(m.body@, "file:///"@, "file:///"@) {
                Some(uri) => r matches ActionOutcome::OpenFile(u) && u@ == uri,
                None => r is Nothing,
            },
            None => r is Nothing,
        },
        ActionMenuHint::OpenLink => match focused {
            Some(m) => match first_link(m.body@, "https://"@, "http://"@) {
                Some(url) => r matches ActionOutcome::OpenUrl(u) && u@ == url,
                None => r is Nothing,
            },
            None => r is Nothing,
        },
        _ => r == ActionOutcome::KeyAction(hint),
    }
}

/// Decide what choosing an action-menu entry does.
pub fn action_outcome(hint: ActionMenuHint, focused: Option<&FocusedMessage>, in_conversation: bool) -> (r:
    ActionOutcome)
    ensures
        action_outcome_spec(
            hint,
            match focused {
                Some(m) => Some(*m),
                None => None,
            },
            in_conversation,
            r,
        ),
{
    match hint {
        ActionMenuHint::Copy => ActionOutcome::CopyMessage,
        ActionMenuHint::Vote => match focused {
            Some(m) => if m.poll_closed == Some(false) {
                ActionOutcome::OpenPollVote
            } else {
                ActionOutcome::Nothing
            },
            None => ActionOutcome::Nothing,
        },
        ActionMenuHint::EndPoll => match focused {
            Some(m) => if m.is_outgoing && m.poll_closed == Some(false) && in_conversation {
                ActionOutcome::EndPoll
            } else {
                ActionOutcome::Nothing
            },
            None => ActionOutcome::Nothing,
        },
        ActionMenuHint::OpenAttachment => match focused {
            Some(m) => match extract_file_uri(m.body.as_str()) {
                Some(uri) => ActionOutcome::OpenFile(uri),
                None => ActionOutcome::Nothing,
            },
            None => ActionOutcome::Nothing,
        },
        ActionMenuHint::OpenLink => match focused {
            Some(m) => match extract_http_url(m.body.as_str()) {
                Some(url) => ActionOutcome::OpenUrl(url),
                None => ActionOutcome::Nothing,
            },
            None => ActionOutcome::Nothing,
        },
        _ => ActionOutcome::KeyAction(hint),
    }
}

} // verus!
