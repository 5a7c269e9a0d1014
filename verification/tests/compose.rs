use siggy::compose::parse_markup;
use siggy::types::StyleType;

fn parse(text: &str) -> (String, Vec<(usize, usize, StyleType)>) {
    let m = parse_markup(text);
    (m.body, m.byte_ranges)
}

fn single_span(input: &str, body: &str, style: StyleType, start: usize, end: usize) {
    assert_eq!(parse(input), (body.to_string(), vec![(start, end, style)]));
}

#[test]
fn single_span_bold() {
    single_span("*bold*", "bold", StyleType::Bold, 0, 4);
}

#[test]
fn single_span_italic() {
    single_span("_italic_", "italic", StyleType::Italic, 0, 6);
}

#[test]
fn single_span_strikethrough() {
    single_span("~gone~", "gone", StyleType::Strikethrough, 0, 4);
}

#[test]
fn single_span_monospace() {
    single_span("`code`", "code", StyleType::Monospace, 0, 4);
}

#[test]
fn single_span_spoiler() {
    single_span("||secret||", "secret", StyleType::Spoiler, 0, 6);
}

#[test]
fn span_mid_sentence() {
    let (body, ranges) = parse("this is *very* important");
    assert_eq!(body, "this is very important");
    assert_eq!(ranges, vec![(8, 12, StyleType::Bold)]);
}

#[test]
fn multiple_spans() {
    let (body, ranges) = parse("*a* and _b_");
    assert_eq!(body, "a and b");
    assert_eq!(
        ranges,
        vec![(0, 1, StyleType::Bold), (6, 7, StyleType::Italic)]
    );
}

fn literal_text_untouched(input: &str) {
    assert_eq!(parse(input), (input.to_string(), vec![]));
}

#[test]
fn literal_snake_case_untouched() {
    literal_text_untouched("snake_case_name");
}

#[test]
fn literal_spaced_multiplication_untouched() {
    literal_text_untouched("2 * 3 = 6");
}

#[test]
fn literal_tight_multiplication_untouched() {
    literal_text_untouched("5*3");
}

#[test]
fn literal_inner_underscore_untouched() {
    literal_text_untouched("a_b");
}

#[test]
fn literal_unclosed_untouched() {
    literal_text_untouched("*unclosed");
}

#[test]
fn literal_spaced_markers_untouched() {
    literal_text_untouched("* spaced *");
}

#[test]
fn literal_empty_span_untouched() {
    literal_text_untouched("**");
}

#[test]
fn literal_dash_underscore_untouched() {
    literal_text_untouched("ends with dash-_x");
}

#[test]
fn no_span_across_newline() {
    assert_eq!(parse("*a\nb*"), ("*a\nb*".to_string(), vec![]));
}

#[test]
fn url_underscores_survive() {
    let url = "see https://ex.com/a_b_c ok";
    assert_eq!(parse(url), (url.to_string(), vec![]));
}

#[test]
fn span_before_url_does_not_close_inside_it() {
    let text = "_note https://ex.com/a_b";
    assert_eq!(parse(text), (text.to_string(), vec![]));
}

#[test]
fn punctuation_boundaries_allowed() {
    let (body, ranges) = parse("(*bold*), _it_.");
    assert_eq!(body, "(bold), it.");
    assert_eq!(
        ranges,
        vec![(1, 5, StyleType::Bold), (8, 10, StyleType::Italic)]
    );
}

#[test]
fn content_is_not_rescanned() {
    let (body, ranges) = parse("*a _b_ c*");
    assert_eq!(body, "a _b_ c");
    assert_eq!(ranges, vec![(0, 7, StyleType::Bold)]);
}

#[test]
fn utf16_ranges_and_removed_offsets() {
    let m = parse_markup("\u{1F600} *bold*");
    assert_eq!(m.body, "\u{1F600} bold");
    assert_eq!(m.byte_ranges, vec![(5, 9, StyleType::Bold)]);
    assert_eq!(m.utf16_ranges, vec![(3, 4, StyleType::Bold)]);
    assert_eq!(m.removed_utf16, vec![3, 8]);
}

#[test]
fn spoiler_removed_offsets_cover_both_chars() {
    let m = parse_markup("||s||");
    assert_eq!(m.body, "s");
    assert_eq!(m.removed_utf16, vec![0, 1, 3, 4]);
}

#[test]
fn mention_placeholder_is_valid_span_content() {
    let m = parse_markup("*\u{FFFC} rocks*");
    assert_eq!(m.body, "\u{FFFC} rocks");
    assert_eq!(m.utf16_ranges, vec![(0, 7, StyleType::Bold)]);
    assert_eq!(m.removed_utf16, vec![0, 8]);
}

#[test]
fn plain_text_passes_through_unchanged() {
    let m = parse_markup("just words, no markers");
    assert_eq!(m.body, "just words, no markers");
    assert!(m.byte_ranges.is_empty());
    assert!(m.utf16_ranges.is_empty());
    assert!(m.removed_utf16.is_empty());
}

#[test]
fn markup_shape_counts_removed_markers() {
    let text = "*a* `b` ~c~";
    let m = parse_markup(text);
    assert_eq!(m.body, "a b c");
    assert_eq!(m.body.len() + m.removed_utf16.len(), text.len());
    assert_eq!(m.byte_ranges.len(), m.utf16_ranges.len());
    assert!(m.removed_utf16.windows(2).all(|w| w[0] < w[1]));
}

#[test]
fn empty_text_has_no_spans() {
    let m = parse_markup("");
    assert_eq!(m.body, "");
    assert!(m.byte_ranges.is_empty());
}

/// The UTF-16 offset of every char of `text`.
fn utf16_offsets(text: &str) -> Vec<usize> {
    let mut out = Vec::new();
    let mut off = 0;
    for c in text.chars() {
        out.push(off);
        off += c.len_utf16();
    }
    out
}

#[test]
fn markup_body_is_text_without_removed_markers() {
    let text = "héllo *wörld* and ||😀 spoiler|| _x_";
    let m = parse_markup(text);
    let offs = utf16_offsets(text);
    let kept: String = text
        .chars()
        .zip(offs.iter())
        .filter(|(_, o)| !m.removed_utf16.contains(o))
        .map(|(c, _)| c)
        .collect();
    assert_eq!(m.body, kept);
    assert_eq!(m.body, "héllo wörld and 😀 spoiler x");
}

#[test]
fn markup_ranges_agree_and_come_in_order() {
    let m = parse_markup("héllo *wörld* and ||😀 spoiler|| _x_");
    assert_eq!(m.byte_ranges.len(), m.utf16_ranges.len());
    for (b, u) in m.byte_ranges.iter().zip(m.utf16_ranges.iter()) {
        assert_eq!(b.2, u.2);
        assert!(b.0 < b.1 && u.1 > 0);
        let covered = &m.body[b.0..b.1];
        let before = &m.body[..b.0];
        assert_eq!(before.encode_utf16().count(), u.0);
        assert_eq!(covered.encode_utf16().count(), u.1);
    }
    for w in m.byte_ranges.windows(2) {
        assert!(w[0].1 <= w[1].0);
    }
    assert_eq!(m.byte_ranges.len(), 3);
}
