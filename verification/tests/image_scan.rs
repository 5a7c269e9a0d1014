use siggy::image_scan::{
    plan_image_scan, ActiveView, ImageMode, ImageSettings, ImageSlot, ImageSource, RenderJob,
    RenderedLines, ScanDecision, ScanSignature,
};

fn settings(mode: ImageMode) -> ImageSettings {
    ImageSettings {
        mode,
        sixel: false,
        show_link_previews: true,
        render_width_cap: 0,
        image_max_width: 40,
        preview_image_max_width: 30,
        image_max_height: 20,
    }
}

fn unrendered(path: &str) -> ImageSource {
    ImageSource {
        path: path.to_string(),
        lines: None,
        in_native_cache: false,
        in_sixel_cache: false,
    }
}

fn rendered(path: &str, first_width: usize, native: bool, sixel: bool) -> ImageSource {
    ImageSource {
        path: path.to_string(),
        lines: Some(RenderedLines { count: 3, first_width }),
        in_native_cache: native,
        in_sixel_cache: sixel,
    }
}

fn image_msg(ts: i64, src: ImageSource) -> ImageSlot {
    ImageSlot {
        timestamp_ms: ts,
        body: "[image: photo.png]".to_string(),
        image: Some(src),
        preview: None,
    }
}

fn text_msg(ts: i64) -> ImageSlot {
    ImageSlot { timestamp_ms: ts, body: "hello".to_string(), image: None, preview: None }
}

fn view(slots: Vec<ImageSlot>, offset: usize) -> Option<ActiveView> {
    Some(ActiveView { conv_id: "+15550001111".to_string(), scroll_offset: offset, slots })
}

fn scan(decision: ScanDecision) -> (ScanSignature, Vec<RenderJob>, usize) {
    match decision {
        ScanDecision::Scan { signature, jobs, evict_upto } => (signature, jobs, evict_upto),
        ScanDecision::Skip => panic!("expected a scan"),
    }
}

fn job_keys(jobs: &[RenderJob]) -> Vec<(i64, bool)> {
    jobs.iter().map(|j| (j.timestamp_ms, j.is_preview)).collect()
}

#[test]
fn image_scan_skips_when_images_are_off() {
    let active = view(vec![image_msg(1, unrendered("/a.png"))], 0);
    let r = plan_image_scan(&settings(ImageMode::Off), &active, &None, false, 0, &vec![], 0);
    assert!(matches!(r, ScanDecision::Skip));
}

#[test]
fn image_scan_skips_without_an_open_or_nonempty_conversation() {
    let s = settings(ImageMode::Halfblock);
    assert!(matches!(plan_image_scan(&s, &None, &None, false, 0, &vec![], 0), ScanDecision::Skip));
    let empty = view(vec![], 0);
    assert!(matches!(plan_image_scan(&s, &empty, &None, false, 0, &vec![], 0), ScanDecision::Skip));
}

#[test]
fn image_scan_reuses_an_unchanged_signature_unless_a_render_drained() {
    let s = settings(ImageMode::Halfblock);
    let active = view(vec![image_msg(1, unrendered("/a.png"))], 0);
    let (sig, jobs, _) = scan(plan_image_scan(&s, &active, &None, false, 0, &vec![], 0));
    assert_eq!(sig.conv_id, "+15550001111");
    assert_eq!(sig.len, 1);
    assert_eq!(jobs.len(), 1);
    let prev = Some(sig);
    assert!(matches!(plan_image_scan(&s, &active, &prev, false, 0, &vec![], 0), ScanDecision::Skip));
    let (_, again, _) = scan(plan_image_scan(&s, &active, &prev, true, 0, &vec![], 0));
    assert_eq!(again.len(), 1);
    // Scrolling changes the signature.
    let scrolled = view(vec![image_msg(1, unrendered("/a.png"))], 3);
    let (_, moved, _) = scan(plan_image_scan(&s, &scrolled, &prev, false, 0, &vec![], 0));
    assert_eq!(moved.len(), 1);
}

#[test]
fn image_scan_window_and_eviction_bound() {
    let s = settings(ImageMode::Halfblock);
    // 100 messages, only the first and the last carry images.
    let mut slots: Vec<ImageSlot> = (0..100).map(text_msg).collect();
    slots[0] = image_msg(0, unrendered("/old.png"));
    slots[99] = image_msg(99, unrendered("/new.png"));
    let active = view(slots, 0);
    let (_, jobs, evict) = scan(plan_image_scan(&s, &active, &None, false, 0, &vec![], 70));
    // The window is messages 40..100: the old image is out of reach.
    assert_eq!(job_keys(&jobs), vec![(99, false)]);
    assert_eq!(jobs[0].path, "/new.png");
    assert_eq!(evict, 40);
    let (_, _, evict_drawn) = scan(plan_image_scan(&s, &active, &None, false, 0, &vec![], 25));
    assert_eq!(evict_drawn, 25);
}

#[test]
fn image_scan_window_follows_the_scroll_offset() {
    let s = settings(ImageMode::Halfblock);
    let slots: Vec<ImageSlot> =
        (0..100).map(|i| image_msg(i, unrendered("/p.png"))).collect();
    // Scrolled up 25: end = 100 - 20 = 80, start = 20.
    let active = view(slots, 25);
    let (_, jobs, evict) = scan(plan_image_scan(&s, &active, &None, false, 0, &vec![], 99));
    assert_eq!(evict, 20);
    assert_eq!(job_keys(&jobs), vec![(20, false), (21, false), (22, false), (23, false)]);
}

#[test]
fn image_scan_caps_renders_in_flight() {
    let s = settings(ImageMode::Halfblock);
    let slots: Vec<ImageSlot> = (0..10).map(|i| image_msg(i, unrendered("/p.png"))).collect();
    let active = view(slots, 0);
    let (_, three_busy, _) = scan(plan_image_scan(&s, &active, &None, false, 3, &vec![], 0));
    assert_eq!(job_keys(&three_busy), vec![(0, false)]);
    let (_, full, _) = scan(plan_image_scan(&s, &active, &None, false, 4, &vec![], 0));
    assert!(full.is_empty());
    let (_, idle, _) = scan(plan_image_scan(&s, &active, &None, false, 0, &vec![], 0));
    assert_eq!(idle.len(), 4);
}

#[test]
fn image_scan_message_with_image_and_preview_may_pass_the_cap_by_one() {
    let s = settings(ImageMode::Halfblock);
    let mut slots: Vec<ImageSlot> = Vec::new();
    for i in 0..3 {
        let mut m = image_msg(i, unrendered("/p.png"));
        m.preview = Some(unrendered("/preview.png"));
        slots.push(m);
    }
    let active = view(slots, 0);
    let (_, jobs, _) = scan(plan_image_scan(&s, &active, &None, false, 1, &vec![], 0));
    assert_eq!(job_keys(&jobs), vec![(0, false), (0, true), (1, false), (1, true)]);
    assert_eq!(jobs[1].path, "/preview.png");
    assert_eq!(jobs[1].max_width, 30);
    assert_eq!(jobs[0].max_width, 40);
    assert_eq!(jobs[0].max_height, 20);
}

#[test]
fn image_scan_skips_keys_already_in_flight_and_hidden_previews() {
    let mut s = settings(ImageMode::Halfblock);
    let mut m = image_msg(7, unrendered("/p.png"));
    m.preview = Some(unrendered("/preview.png"));
    let active = view(vec![m], 0);
    let (_, jobs, _) = scan(plan_image_scan(&s, &active, &None, false, 1, &vec![(7, false)], 0));
    assert_eq!(job_keys(&jobs), vec![(7, true)]);
    s.show_link_previews = false;
    let (_, none, _) = scan(plan_image_scan(&s, &active, &None, false, 1, &vec![(7, false)], 0));
    assert!(none.is_empty());
}

#[test]
fn image_scan_ignores_images_of_non_placeholder_bodies() {
    let s = settings(ImageMode::Halfblock);
    let mut m = image_msg(1, unrendered("/p.png"));
    m.body = "photo: [image: x]".to_string();
    let active = view(vec![m], 0);
    let (_, jobs, _) = scan(plan_image_scan(&s, &active, &None, false, 0, &vec![], 0));
    assert!(jobs.is_empty());
}

#[test]
fn image_scan_rerenders_too_wide_images_only() {
    let s = settings(ImageMode::Halfblock);
    // Inner width 48 > 40: re-render. Inner width 40: fits.
    let active = view(
        vec![image_msg(1, rendered("/a.png", 50, false, false)), image_msg(2, rendered("/b.png", 42, false, false))],
        0,
    );
    let (_, jobs, _) = scan(plan_image_scan(&s, &active, &None, false, 0, &vec![], 0));
    assert_eq!(job_keys(&jobs), vec![(1, false)]);
}

#[test]
fn image_scan_native_mode_needs_the_encoding_in_the_right_cache() {
    let mut s = settings(ImageMode::Native);
    let active = view(
        vec![image_msg(1, rendered("/a.png", 10, false, true)), image_msg(2, rendered("/b.png", 10, true, false))],
        0,
    );
    let (_, jobs, _) = scan(plan_image_scan(&s, &active, &None, false, 0, &vec![], 0));
    assert_eq!(job_keys(&jobs), vec![(1, false)]);
    s.sixel = true;
    let (_, sixel_jobs, _) = scan(plan_image_scan(&s, &active, &None, false, 0, &vec![], 0));
    assert_eq!(job_keys(&sixel_jobs), vec![(2, false)]);
    // Half-block mode never consults the caches.
    let (_, half, _) =
        scan(plan_image_scan(&settings(ImageMode::Halfblock), &active, &None, false, 0, &vec![], 0));
    assert!(half.is_empty());
}

#[test]
fn image_scan_render_widths_follow_the_pane() {
    let mut s = settings(ImageMode::Halfblock);
    s.render_width_cap = 25;
    let mut m = image_msg(1, unrendered("/p.png"));
    m.preview = Some(unrendered("/q.png"));
    let active = view(vec![m], 0);
    let (sig, jobs, _) = scan(plan_image_scan(&s, &active, &None, false, 0, &vec![], 0));
    assert_eq!(sig.render_width_cap, 25);
    assert_eq!((jobs[0].max_width, jobs[1].max_width), (25, 25));
    s.render_width_cap = 0;
    s.image_max_width = 0;
    let (_, zero, _) = scan(plan_image_scan(&s, &active, &None, false, 0, &vec![], 0));
    assert_eq!((zero[0].max_width, zero[1].max_width), (1, 1));
}
