//! Viewport image scanning: which inline images and link-preview images of
//! the open conversation need a background render, and how far up the cached
//! renders may be dropped. The renders themselves run elsewhere; this module
//! only decides.
use vstd::prelude::*;

use crate::text::{chars_of, matches_at, occurs_at};

verus! {

/// Renders in flight at which a scan stops queueing more.
pub const MAX_RENDERS_IN_FLIGHT: usize = 4;

/// Messages scanned, counted up from the bottom of the scan window.
pub const SCAN_WINDOW: usize = 60;

/// Messages below the viewport that are scanned as well.
pub const SCAN_LOOKAHEAD: usize = 5;

/// How images are shown in the chat pane.
#[derive(PartialEq, Eq, Structural, Clone, Copy, Debug)]
pub enum ImageMode {
    /// Inline images are off.
    Off,
    /// Half-block character art.
    Halfblock,
    /// The terminal's own graphics protocol.
    Native,
}

/// The image settings a scan reads.
pub struct ImageSettings {
    pub mode: ImageMode,
    /// The native protocol in use is Sixel (its cache is the one consulted).
    pub sixel: bool,
    pub show_link_previews: bool,
    /// Width of the chat pane in cells; 0 while unknown.
    pub render_width_cap: u32,
    pub image_max_width: u32,
    pub preview_image_max_width: u32,
    pub image_max_height: u32,
}

/// What is known of an image's rendered lines: how many there are and the
/// display width of the first one.
#[derive(Clone, Copy)]
pub struct RenderedLines {
    pub count: usize,
    pub first_width: usize,
}

/// One image of a message: its file, its rendered lines (`None` until a
/// render finished), and whether each native cache holds an encoding of it.
pub struct ImageSource {
    pub path: String,
    pub lines: Option<RenderedLines>,
    pub in_native_cache: bool,
    pub in_sixel_cache: bool,
}

/// One message of the open conversation, as a scan sees it.
pub struct ImageSlot {
    pub timestamp_ms: i64,
    pub body: String,
    /// The attached image's file, when the message has one.
    pub image: Option<ImageSource>,
    /// The link preview's image, when the preview has one.
    pub preview: Option<ImageSource>,
}

/// The open conversation: its id, how far it is scrolled up, its messages.
pub struct ActiveView {
    pub conv_id: String,
    pub scroll_offset: usize,
    pub slots: Vec<ImageSlot>,
}

/// Everything a scan's outcome depends on besides the messages' own state;
/// an unchanged signature lets the next tick skip the scan.
pub struct ScanSignature {
    pub conv_id: String,
    pub scroll_offset: usize,
    pub len: usize,
    pub mode: ImageMode,
    pub show_link_previews: bool,
    pub render_width_cap: u32,
}

/// A background render to start.
pub struct RenderJob {
    pub timestamp_ms: i64,
    pub path: String,
    pub max_width: u32,
    pub max_height: u32,
    pub is_preview: bool,
}

/// The outcome of one scan tick.
pub enum ScanDecision {
    /// Nothing to scan: images are off, no conversation is open or it is
    /// empty, or nothing changed since the last scan.
    Skip,
    /// Remember `signature`, start `jobs`, and drop the rendered lines of the
    /// messages before index `evict_upto`.
    Scan { signature: ScanSignature, jobs: Vec<RenderJob>, evict_upto: usize },
}

pub open spec fn same_signature(a: ScanSignature, b: ScanSignature) -> bool {
    &&& a.conv_id@ == b.conv_id@
    &&& a.scroll_offset == b.scroll_offset
    &&& a.len == b.len
    &&& a.mode == b.mode
    &&& a.show_link_previews == b.show_link_previews
    &&& a.render_width_cap == b.render_width_cap
}

pub open spec fn signature_of(s: ImageSettings, v: ActiveView) -> ScanSignature {
    ScanSignature {
        conv_id: v.conv_id,
        scroll_offset: v.scroll_offset,
        len: v.slots@.len() as usize,
        mode: s.mode,
        show_link_previews: s.show_link_previews,
        render_width_cap: s.render_width_cap,
    }
}

/// The pane width that bounds renders: the known pane width, else the
/// configured image width.
pub open spec fn pane_cap(s: ImageSettings) -> u32 {
    if s.render_width_cap > 0 {
        s.render_width_cap
    } else {
        s.image_max_width
    }
}

/// `min(w, cap)`, but at least 1.
pub open spec fn clamp_width(w: u32, cap: u32) -> u32 {
    let m = if w < cap {
        w
    } else {
        cap
    };
    if m < 1 {
        1
    } else {
        m
    }
}

pub open spec fn image_width(s: ImageSettings) -> u32 {
    clamp_width(s.image_max_width, pane_cap(s))
}

pub open spec fn preview_width(s: ImageSettings) -> u32 {
    clamp_width(s.preview_image_max_width, pane_cap(s))
}

/// One past the last message scanned: the bottom of the viewport plus the
/// lookahead, within the conversation.
pub open spec fn window_end(len: nat, offset: nat) -> nat {
    let back: nat = if offset > SCAN_LOOKAHEAD {
        (offset - SCAN_LOOKAHEAD) as nat
    } else {
        0
    };
    if back < len {
        (len - back) as nat
    } else {
        0
    }
}

/// The first message scanned.
pub open spec fn window_start(end: nat) -> nat {
    if end > SCAN_WINDOW {
        (end - SCAN_WINDOW) as nat
    } else {
        0
    }
}

/// A render width is at least one cell and exceeds neither the configured
/// width nor the pane (unless one of those is zero); it is one of them, or 1.
pub proof fn law_render_width_bounds(w: u32, cap: u32)
    ensures
        clamp_width(w, cap) >= 1,
        w >= 1 ==> clamp_width(w, cap) <= w,
        cap >= 1 ==> clamp_width(w, cap) <= cap,
        clamp_width(w, cap) == w || clamp_width(w, cap) == cap || clamp_width(w, cap) == 1,
        w >= 1 && cap >= 1 ==> (clamp_width(w, cap) == w || clamp_width(w, cap) == cap),
{
}

/// The scan window holds at most `SCAN_WINDOW` messages, ends within the
/// conversation, and reaches the newest message when scrolled up no more
/// than `SCAN_LOOKAHEAD`; scrolling further up never moves it down.
pub proof fn law_scan_window(len: nat, offset: nat, offset2: nat)
    ensures
        window_start(window_end(len, offset)) <= window_end(len, offset) <= len,
        window_end(len, offset) - window_start(window_end(len, offset)) <= SCAN_WINDOW,
        offset <= SCAN_LOOKAHEAD ==> window_end(len, offset) == len,
        offset <= offset2 ==> window_end(len, offset2) <= window_end(len, offset),
        offset <= offset2 ==> window_start(window_end(len, offset2)) <= window_start(
            window_end(len, offset),
        ),
{
}

/// Width of a rendered line without its two border cells, as a `u32`.
pub open spec fn inner_width(w: usize) -> u32 {
    (if w >= 2 {
        (w - 2) as usize
    } else {
        0usize
    }) as u32
}

/// The image needs a (new) render: none finished yet, the render is wider
/// than now allowed, or native mode lacks the encoding of a rendered image.
pub open spec fn needs_render(src: ImageSource, max_w: u32, native: bool, sixel: bool) -> bool {
    let rendered = src.lines matches Some(r) && r.count > 0;
    let too_wide = src.lines matches Some(r) && r.count > 0 && inner_width(r.first_width) > max_w;
    let cached = if sixel {
        src.in_sixel_cache
    } else {
        src.in_native_cache
    };
    src.lines is None || too_wide || (native && rendered && !cached)
}

/// The job for one image of a message, if it is to be rendered.
pub open spec fn job_for(
    src: Option<ImageSource>,
    gate: bool,
    ts: i64,
    max_w: u32,
    max_h: u32,
    is_preview: bool,
    native: bool,
    sixel: bool,
    in_flight: Seq<(i64, bool)>,
) -> Seq<RenderJob> {
    if gate && src is Some && needs_render(src->0, max_w, native, sixel) && !in_flight.contains(
        (ts, is_preview),
    ) {
        seq![
            RenderJob {
                timestamp_ms: ts,
                path: src->0.path,
                max_width: max_w,
                max_height: max_h,
                is_preview,
            },
        ]
    } else {
        seq![]
    }
}

/// The jobs of one message: its attached image (for a body that is an image
/// placeholder), then its link-preview image (when previews are shown).
pub open spec fn slot_jobs(s: ImageSettings, slot: ImageSlot, in_flight: Seq<(i64, bool)>) -> Seq<
    RenderJob,
> {
    let native = s.mode == ImageMode::Native;
    job_for(
        slot.image,
        occurs_at(slot.body@, "[image:"@, 0),
        slot.timestamp_ms,
        image_width(s),
        s.image_max_height,
        false,
        native,
        s.sixel,
        in_flight,
    ) + job_for(
        slot.preview,
        s.show_link_previews,
        slot.timestamp_ms,
        preview_width(s),
        s.image_max_height,
        true,
        native,
        s.sixel,
        in_flight,
    )
}

/// The jobs of messages `i..end` appended to `acc`, message by message,
/// stopping before a message once `base` renders in flight plus the jobs so
/// far reach the cap.
pub open spec fn scan_jobs(
    s: ImageSettings,
    slots: Seq<ImageSlot>,
    i: int,
    end: int,
    base: nat,
    in_flight: Seq<(i64, bool)>,
    acc: Seq<RenderJob>,
) -> Seq<RenderJob>
    decreases end - i,
{
    if i >= end || base + acc.len() >= MAX_RENDERS_IN_FLIGHT {
        acc
    } else {
        scan_jobs(s, slots, i + 1, end, base, in_flight, acc + slot_jobs(s, slots[i], in_flight))
    }
}

/// Nothing is scanned this tick.
pub open spec fn scan_skipped(
    s: ImageSettings,
    active: Option<ActiveView>,
    prev: Option<ScanSignature>,
    drained: bool,
) -> bool {
    ||| s.mode == ImageMode::Off
    ||| active is None
    ||| active->0.slots@.len() == 0
    ||| (!drained && prev is Some && same_signature(prev->0, signature_of(s, active->0)))
}

/// The job is not already in flight.
pub open spec fn fresh_job(in_flight: Seq<(i64, bool)>, j: RenderJob) -> bool {
    !in_flight.contains((j.timestamp_ms, j.is_preview))
}

/// The job renders an image of a message in `slots[from..to]`.
pub open spec fn job_in_window(slots: Seq<ImageSlot>, from: int, to: int, j: RenderJob) -> bool {
    exists|m: int| from <= m < to && (#[trigger] slots[m]).timestamp_ms == j.timestamp_ms
}

proof fn lemma_scan_jobs(
    s: ImageSettings,
    slots: Seq<ImageSlot>,
    i: int,
    end: int,
    base: nat,
    in_flight: Seq<(i64, bool)>,
    acc: Seq<RenderJob>,
)
    requires
        0 <= i,
        end <= slots.len(),
        forall|k: int| 0 <= k < acc.len() ==> fresh_job(in_flight, #[trigger] acc[k]),
    ensures
        scan_jobs(s, slots, i, end, base, in_flight, acc).len() >= acc.len(),
        forall|k: int|
            0 <= k < acc.len() ==> #[trigger] scan_jobs(s, slots, i, end, base, in_flight, acc)[k]
                == acc[k],
        forall|k: int|
            0 <= k < scan_jobs(s, slots, i, end, base, in_flight, acc).len() ==> fresh_job(
                in_flight,
                #[trigger] scan_jobs(s, slots, i, end, base, in_flight, acc)[k],
            ),
        forall|k: int|
            acc.len() <= k < scan_jobs(s, slots, i, end, base, in_flight, acc).len() ==> job_in_window(
                slots,
                i,
                end,
                #[trigger] scan_jobs(s, slots, i, end, base, in_flight, acc)[k],
            ),
    decreases end - i,
{
    if i >= end || base + acc.len() >= MAX_RENDERS_IN_FLIGHT {
    } else {
        let sj = slot_jobs(s, slots[i], in_flight);
        let acc1 = acc + sj;
        assert forall|k: int| 0 <= k < sj.len() implies fresh_job(in_flight, #[trigger] sj[k])
            && sj[k].timestamp_ms == slots[i].timestamp_ms by {
        }
        assert forall|k: int| 0 <= k < acc1.len() implies fresh_job(in_flight, #[trigger] acc1[k]) by {
            if k >= acc.len() {
                assert(acc1[k] == sj[k - acc.len()]);
            }
        }
        lemma_scan_jobs(s, slots, i + 1, end, base, in_flight, acc1);
        let r = scan_jobs(s, slots, i, end, base, in_flight, acc);
        assert forall|k: int| acc.len() <= k < r.len() implies job_in_window(
            slots,
            i,
            end,
            #[trigger] r[k],
        ) by {
            if k < acc1.len() {
                assert(r[k] == acc1[k]);
                assert(acc1[k] == sj[k - acc.len()]);
                assert(slots[i].timestamp_ms == r[k].timestamp_ms);
            } else {
                let m = choose|m: int|
                    i + 1 <= m < end && (#[trigger] slots[m]).timestamp_ms == r[k].timestamp_ms;
                assert(slots[m].timestamp_ms == r[k].timestamp_ms);
            }
        }
        assert forall|k: int| 0 <= k < acc.len() implies #[trigger] r[k] == acc[k] by {
            assert(r[k] == acc1[k]);
        }
    }
}

/// A scan never queues a render that is already in flight, and every render
/// it queues is of an image of a message inside the scan window.
pub proof fn law_scan_queues_fresh_window_jobs(
    s: ImageSettings,
    slots: Seq<ImageSlot>,
    start: int,
    end: int,
    base: nat,
    in_flight: Seq<(i64, bool)>,
)
    requires
        0 <= start,
        end <= slots.len(),
    ensures
        forall|k: int|
            0 <= k < scan_jobs(s, slots, start, end, base, in_flight, seq![]).len() ==> fresh_job(
                in_flight,
                #[trigger] scan_jobs(s, slots, start, end, base, in_flight, seq![])[k],
            ) && job_in_window(
                slots,
                start,
                end,
                scan_jobs(s, slots, start, end, base, in_flight, seq![])[k],
            ),
{
    lemma_scan_jobs(s, slots, start, end, base, in_flight, seq![]);
}

fn same_signature_exec(a: &ScanSignature, b: &ScanSignature) -> (r: bool)
    ensures
        r == same_signature(*a, *b),
{
    a.conv_id == b.conv_id && a.scroll_offset == b.scroll_offset && a.len == b.len && a.mode
        == b.mode && a.show_link_previews == b.show_link_previews && a.render_width_cap
        == b.render_width_cap
}

fn clamp_width_exec(w: u32, cap: u32) -> (r: u32)
    ensures
        r == clamp_width(w, cap),
{
    let m = if w < cap {
        w
    } else {
        cap
    };
    if m < 1 {
        1
    } else {
        m
    }
}

fn in_flight_contains(v: &Vec<(i64, bool)>, ts: i64, is_preview: bool) -> (r: bool)
    ensures
        r == v@.contains((ts, is_preview)),
{
    let mut k: usize = 0;
    while k < v.len()
        invariant
            k <= v@.len(),
            forall|j: int| 0 <= j < k ==> v@[j] != (ts, is_preview),
        decreases v@.len() - k,
    {
        let (a, b) = v[k];
        if a == ts && b == is_preview {
            assert(v@[k as int] == (ts, is_preview));
            return true;
        }
        k += 1;
    }
    false
}

fn needs_render_exec(src: &ImageSource, max_w: u32, native: bool, sixel: bool) -> (r: bool)
    ensures
        r == needs_render(*src, max_w, native, sixel),
{
    match src.lines {
        None => true,
        Some(lines) => {
            let rendered = lines.count > 0;
            let inner: usize = if lines.first_width >= 2 {
                lines.first_width - 2
            } else {
                0
            };
            let too_wide = rendered && (inner as u32) > max_w;
            let cached = if sixel {
                src.in_sixel_cache
            } else {
                src.in_native_cache
            };
            too_wide || (native && rendered && !cached)
        },
    }
}

fn push_job_for(
    src: &Option<ImageSource>,
    gate: bool,
    ts: i64,
    max_w: u32,
    max_h: u32,
    is_preview: bool,
    native: bool,
    sixel: bool,
    in_flight: &Vec<(i64, bool)>,
    jobs: &mut Vec<RenderJob>,
)
    ensures
        final(jobs)@ == old(jobs)@ + job_for(
            *src,
            gate,
            ts,
            max_w,
            max_h,
            is_preview,
            native,
            sixel,
            in_flight@,
        ),
{
    if gate {
        if let Some(s) = src {
            if needs_render_exec(s, max_w, native, sixel) && !in_flight_contains(
                in_flight,
                ts,
                is_preview,
            ) {
                let job = RenderJob {
                    timestamp_ms: ts,
                    path: s.path.clone(),
                    max_width: max_w,
                    max_height: max_h,
                    is_preview,
                };
                jobs.push(job);
                return ;
            }
        }
    }
    assert(old(jobs)@ + seq![] =~= old(jobs)@);
}

/// Whether a message body is an image placeholder (`[image:` ...).
fn is_image_body(body: &String) -> (r: bool)
    ensures
        r == occurs_at(body@, "[image:"@, 0),
{
    let cs = chars_of(body.as_str());
    let pat = chars_of("[image:");
    matches_at(&cs, &pat, 0)
}

/// Decide one scan tick. `drained` says a background render finished since
/// the last tick (which frees a slot, so the scan runs even with an unchanged
/// signature); `in_flight_total` counts all renders in flight and
/// `in_flight_here` lists the (timestamp, is-preview) keys of those for the
/// open conversation; `render_window_start` is the first message the chat
/// pane drew.
///
/// The scan looks at the messages from `window_start` to `window_end`, queues
/// at most one render per image, never one already in flight, and stops once
/// the cap is reached; renders before both the scan window and the drawn
/// window are dropped.
pub fn plan_image_scan(
    settings: &ImageSettings,
    active: &Option<ActiveView>,
    prev: &Option<ScanSignature>,
    drained: bool,
    in_flight_total: usize,
    in_flight_here: &Vec<(i64, bool)>,
    render_window_start: usize,
) -> (r: ScanDecision)
    ensures
        (r is Skip) == scan_skipped(*settings, *active, *prev, drained),
        r matches ScanDecision::Scan { signature, jobs, evict_upto } ==> {
            let v = active->0;
            let end = window_end(v.slots@.len(), v.scroll_offset as nat);
            let start = window_start(end);
            &&& signature == signature_of(*settings, v)
            &&& jobs@ == scan_jobs(
                *settings,
                v.slots@,
                start as int,
                end as int,
                in_flight_total as nat,
                in_flight_here@,
                seq![],
            )
            &&& evict_upto == (if render_window_start < start {
                render_window_start as nat
            } else {
                start
            })
            &&& in_flight_total >= MAX_RENDERS_IN_FLIGHT ==> jobs@.len() == 0
            &&& in_flight_total + jobs@.len() <= MAX_RENDERS_IN_FLIGHT + 1 || jobs@.len() == 0
        },
{
    if settings.mode == ImageMode::Off {
        return ScanDecision::Skip;
    }
    let view = match active {
        Some(v) => v,
        None => {
            return ScanDecision::Skip;
        },
    };
    let len = view.slots.len();
    if len == 0 {
        return ScanDecision::Skip;
    }
    let signature = ScanSignature {
        conv_id: view.conv_id.clone(),
        scroll_offset: view.scroll_offset,
        len,
        mode: settings.mode,
        show_link_previews: settings.show_link_previews,
        render_width_cap: settings.render_width_cap,
    };
    if !drained {
        if let Some(p) = prev {
            if same_signature_exec(p, &signature) {
                return ScanDecision::Skip;
            }
        }
    }
    let back: usize = if view.scroll_offset > SCAN_LOOKAHEAD {
        view.scroll_offset - SCAN_LOOKAHEAD
    } else {
        0
    };
    let end: usize = if back < len {
        len - back
    } else {
        0
    };
    let start: usize = if end > SCAN_WINDOW {
        end - SCAN_WINDOW
    } else {
        0
    };
    let pane: u32 = if settings.render_width_cap > 0 {
        settings.render_width_cap
    } else {
        settings.image_max_width
    };
    let image_w = clamp_width_exec(settings.image_max_width, pane);
    let preview_w = clamp_width_exec(settings.preview_image_max_width, pane);
    let native = settings.mode == ImageMode::Native;
    let ghost s = *settings;
    let ghost slots = view.slots@;
    let ghost base = in_flight_total as nat;
    let mut jobs: Vec<RenderJob> = Vec::new();
    let mut i: usize = start;
    while i < end && in_flight_total < MAX_RENDERS_IN_FLIGHT && jobs.len()
        < MAX_RENDERS_IN_FLIGHT - in_flight_total
        invariant
            start <= i <= end <= len,
            len == slots.len(),
            slots == view.slots@,
            s == *settings,
            base == in_flight_total,
            image_w == image_width(s),
            preview_w == preview_width(s),
            native == (s.mode == ImageMode::Native),
            scan_jobs(s, slots, start as int, end as int, base, in_flight_here@, seq![])
                == scan_jobs(s, slots, i as int, end as int, base, in_flight_here@, jobs@),
            in_flight_total >= MAX_RENDERS_IN_FLIGHT ==> jobs@.len() == 0,
            in_flight_total + jobs@.len() <= MAX_RENDERS_IN_FLIGHT + 1 || jobs@.len() == 0,
        decreases end - i,
    {
        let slot = &view.slots[i];
        let ghost before = jobs@;
        let gate = is_image_body(&slot.body);
        push_job_for(
            &slot.image,
            gate,
            slot.timestamp_ms,
            image_w,
            settings.image_max_height,
            false,
            native,
            settings.sixel,
            in_flight_here,
            &mut jobs,
        );
        push_job_for(
            &slot.preview,
            settings.show_link_previews,
            slot.timestamp_ms,
            preview_w,
            settings.image_max_height,
            true,
            native,
            settings.sixel,
            in_flight_here,
            &mut jobs,
        );
        assert(jobs@ =~= before + slot_jobs(s, slots[i as int], in_flight_here@));
        i += 1;
    }
    let evict_upto = if render_window_start < start {
        render_window_start
    } else {
        start
    };
    ScanDecision::Scan { signature, jobs, evict_upto }
}

} // verus!
