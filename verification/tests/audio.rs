use siggy::audio::{
    detect_player, to_ascii_lowercase, format_mmss, is_audio, is_audio_extension, is_audio_path,
    ogg_opus_duration_from_bytes, ogg_opus_samples, player_args,
};
use std::time::Duration;

#[test]
fn is_audio_matches_audio_types_only() {
    assert!(is_audio("audio/ogg"));
    assert!(is_audio("audio/aac"));
    assert!(!is_audio("image/png"));
    assert!(!is_audio("application/octet-stream"));
    assert!(!is_audio(""));
}

fn strings(v: &[&str]) -> Vec<String> {
    v.iter().map(|s| s.to_string()).collect()
}

#[test]
fn player_args_known_and_unknown() {
    assert_eq!(
        player_args("ffplay"),
        Some(strings(&["-nodisp", "-autoexit", "-loglevel", "quiet"]))
    );
    assert_eq!(player_args("afplay"), Some(strings(&[])));
    assert_eq!(player_args("not-a-player"), None);
}

#[test]
fn player_args_cover_every_known_player() {
    assert_eq!(player_args("mpv"), Some(strings(&["--no-video", "--really-quiet"])));
    assert_eq!(
        player_args("cvlc"),
        Some(strings(&["--play-and-exit", "--intf", "dummy"]))
    );
    assert_eq!(player_args("paplay"), Some(strings(&[])));
    assert_eq!(player_args("aplay"), Some(strings(&["-q"])));
}

fn ogg_page(granule: u64, payload: &[u8]) -> Vec<u8> {
    assert!(payload.len() < 255 * 255);
    let mut segments: Vec<u8> = Vec::new();
    let mut remaining = payload.len();
    loop {
        if remaining >= 255 {
            segments.push(255);
            remaining -= 255;
        } else {
            segments.push(remaining as u8);
            break;
        }
    }
    let mut page = Vec::new();
    page.extend_from_slice(b"OggS");
    page.extend_from_slice(&[0, 0]);
    page.extend_from_slice(&granule.to_le_bytes());
    page.extend_from_slice(&[0; 12]);
    page.push(segments.len() as u8);
    page.extend_from_slice(&segments);
    page.extend_from_slice(payload);
    page
}

fn opus_head(pre_skip: u16) -> Vec<u8> {
    let mut head = b"OpusHead".to_vec();
    head.push(1);
    head.push(1);
    head.extend_from_slice(&pre_skip.to_le_bytes());
    head.extend_from_slice(&[0; 7]);
    head
}

#[test]
fn ogg_opus_duration_reads_last_granule_minus_preskip() {
    let mut data = ogg_page(0, &opus_head(312));
    data.extend(ogg_page(24_000, &[0u8; 10]));
    data.extend(ogg_page(48_312, &[0u8; 10]));
    assert_eq!(
        ogg_opus_duration_from_bytes(&data),
        Some(Duration::from_secs(1))
    );
}

#[test]
fn ogg_opus_duration_skips_no_packet_pages_and_rejects_non_opus() {
    let mut data = ogg_page(0, &opus_head(0));
    data.extend(ogg_page(96_000, &[0u8; 4]));
    data.extend(ogg_page(u64::MAX, &[0u8; 4]));
    assert_eq!(
        ogg_opus_duration_from_bytes(&data),
        Some(Duration::from_secs(2))
    );

    let vorbis = ogg_page(48_000, b"vorbis-ish");
    assert_eq!(ogg_opus_duration_from_bytes(&vorbis), None);
    assert_eq!(ogg_opus_duration_from_bytes(b"not an ogg"), None);
    assert_eq!(ogg_opus_duration_from_bytes(&[]), None);
}

#[test]
fn ogg_opus_samples_counts_after_pre_skip() {
    let mut data = ogg_page(0, &opus_head(100));
    data.extend(ogg_page(4_900, &[0u8; 3]));
    assert_eq!(ogg_opus_samples(&data), Some(4_800));
}

#[test]
fn ogg_opus_head_alone_is_zero_length() {
    let data = ogg_page(0, &opus_head(0));
    assert_eq!(ogg_opus_samples(&data), Some(0));
}

#[test]
fn ogg_opus_granule_below_pre_skip_is_zero_length() {
    let mut data = ogg_page(0, &opus_head(500));
    data.extend(ogg_page(200, &[0u8; 3]));
    assert_eq!(ogg_opus_samples(&data), Some(0));
}

#[test]
fn ogg_opus_duration_keeps_milliseconds() {
    let mut data = ogg_page(0, &opus_head(0));
    data.extend(ogg_page(72_000, &[0u8; 2]));
    assert_eq!(
        ogg_opus_duration_from_bytes(&data),
        Some(Duration::from_millis(1_500))
    );
}

#[test]
fn ogg_truncated_page_is_rejected() {
    let mut data = ogg_page(0, &opus_head(0));
    data.extend(ogg_page(48_000, &[0u8; 40]));
    data.truncate(data.len() - 5);
    // The cut-off page is ignored; only the header page counts.
    assert_eq!(ogg_opus_duration_from_bytes(&data), Some(Duration::from_secs(0)));
}

#[test]
fn format_mmss_formats() {
    assert_eq!(format_mmss(Duration::from_secs(0)), "0:00");
    assert_eq!(format_mmss(Duration::from_secs(5)), "0:05");
    assert_eq!(format_mmss(Duration::from_secs(72)), "1:12");
    assert_eq!(format_mmss(Duration::from_secs(3600)), "60:00");
}

#[test]
fn format_mmss_drops_sub_second_part() {
    assert_eq!(format_mmss(Duration::from_millis(59_999)), "0:59");
    assert_eq!(format_mmss(Duration::from_secs(6_000)), "100:00");
}

#[test]
fn detect_player_honours_override_verbatim() {
    let on_path = strings(&["ffplay", "mpv"]);
    assert_eq!(
        detect_player(Some("/usr/bin/myplayer"), &on_path),
        Some(vec!["/usr/bin/myplayer".to_string()])
    );
    assert_eq!(
        detect_player(Some("mpv --no-config"), &on_path),
        Some(vec!["mpv".to_string(), "--no-config".to_string()])
    );
    assert_eq!(
        detect_player(Some("   "), &on_path),
        detect_player(None, &on_path)
    );
}

#[test]
fn detect_player_prefers_the_first_known_player_on_path() {
    let on_path = strings(&["aplay", "ffplay", "mpv"]);
    assert_eq!(
        detect_player(None, &on_path),
        Some(strings(&["mpv", "--no-video", "--really-quiet"]))
    );
    let only_aplay = strings(&["aplay"]);
    assert_eq!(detect_player(None, &only_aplay), Some(strings(&["aplay", "-q"])));
    assert_eq!(detect_player(None, &[]), None);
    assert_eq!(detect_player(Some(""), &[]), None);
}

#[test]
fn audio_paths_match_by_extension_case_insensitively() {
    assert!(is_audio_path("/tmp/voice.ogg"));
    assert!(is_audio_path("/tmp/VOICE.OPUS"));
    assert!(is_audio_path("song.Mp3"));
    assert!(!is_audio_path("/tmp/photo.jpg"));
    assert!(!is_audio_path("/tmp/noext"));
    assert!(!is_audio_path("/tmp/.ogg"));
    assert!(is_audio_extension(Some("FLAC")));
    assert!(!is_audio_extension(Some("txt")));
    assert!(!is_audio_extension(None));
}

#[test]
fn ascii_lowercase_touches_only_ascii_letters() {
    assert_eq!(to_ascii_lowercase("MiXeD 123 ÄÖ"), "mixed 123 ÄÖ");
    assert_eq!(to_ascii_lowercase(""), "");
}

#[test]
fn detect_player_override_with_padding_is_used_trimmed() {
    let on_path: Vec<String> = vec!["ffplay".to_string()];
    assert_eq!(
        detect_player(Some("  vlc  --intf dummy \t"), &on_path),
        Some(vec!["vlc".to_string(), "--intf".to_string(), "dummy".to_string()])
    );
    assert_eq!(
        detect_player(Some("\t\n"), &on_path),
        Some(vec!["ffplay".to_string(), "-nodisp".to_string(), "-autoexit".to_string(), "-loglevel".to_string(), "quiet".to_string()])
    );
}
