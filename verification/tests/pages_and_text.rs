use aparatkids::aparatkids::{
    extract_from_og_video, extract_m3u8_url, extract_title, extract_ux_event_field,
    resolve_aparatkids_page,
};
use aparatkids::text::{contains, trim, u64_to_decimal};

#[test]
fn page_resolution_collects_stream_and_metadata() {
    let html = [
        r#"<html><head><title> آپارات کودک </title>"#,
        r#"<meta property="og:image" content=" https://img/og.jpg ">"#,
        r#"<meta name="video:duration" content="95"></head>"#,
        r#"<script>var player_data = {"multiSRC":[[{"src":"https://cdn/p.m3u8"}]]} ;</script>"#,
    ]
    .join("");
    let html = html.as_str();
    let r = resolve_aparatkids_page(html).unwrap();
    assert_eq!(r.m3u8_url, "https://cdn/p.m3u8");
    assert_eq!(r.title, None);
    assert_eq!(r.thumbnail.as_deref(), Some("https://img/og.jpg"));
    assert_eq!(r.duration.len(), 1);
    assert_eq!(r.duration[0].text, "95");
    assert!(!r.duration[0].positive_only);
    assert_eq!(r.filesize, None);
    assert_eq!(r.bitrate, None);
}

#[test]
fn page_without_stream_is_refused() {
    assert_eq!(
        resolve_aparatkids_page("<html></html>").err(),
        Some("Failed to extract video URL from page".to_string())
    );
}

#[test]
fn og_video_is_the_fallback_stream() {
    let html = r#"<meta property='og:video' content='https://cdn/v.mp4'>"#;
    assert_eq!(extract_from_og_video(html), Some("https://cdn/v.mp4".to_string()));
    assert_eq!(extract_m3u8_url(html), Some("https://cdn/v.mp4".to_string()));
    let other = r#"<meta property="og:video" content="https://cdn/v.webm">"#;
    assert_eq!(extract_m3u8_url(other), None);
    let broken = r#"var player_data = {"multiSRC": [[{"src": "x.m3u8"}} ;<meta property="og:video" content="https://cdn/v.m3u8">"#;
    assert_eq!(extract_m3u8_url(broken), Some("https://cdn/v.m3u8".to_string()));
}

#[test]
fn title_prefers_persian_then_english_then_title_element() {
    assert_eq!(
        extract_title(r#"uxEvents.movie.nameEn = 'Lane'; <title> Page </title>"#),
        Some("Lane".to_string())
    );
    assert_eq!(
        extract_title("<title>\n  Page title \t</title>"),
        Some("Page title".to_string())
    );
    assert_eq!(extract_title("<title>   </title>"), None);
}

#[test]
fn ux_event_values_are_trimmed() {
    assert_eq!(
        extract_ux_event_field(r#"uxEvents.movie.poster=" https://img/p.jpg ";"#, "poster"),
        Some("https://img/p.jpg".to_string())
    );
    assert_eq!(extract_ux_event_field(r#"uxEvents.movie.poster="  ";"#, "poster"), None);
    assert_eq!(extract_ux_event_field("nothing here", "poster"), None);
}

#[test]
fn trim_removes_unicode_white_space() {
    assert_eq!(trim("\u{3000}\t a b \u{a0}\n"), "a b");
    assert_eq!(trim("   "), "");
    assert_eq!(trim(""), "");
    assert_eq!(trim("x"), "x");
}

#[test]
fn contains_finds_runs_of_characters() {
    assert!(contains("https://cdn/a.m3u8", "m3u8"));
    assert!(contains("abc", ""));
    assert!(!contains("m3u", "m3u8"));
    assert!(!contains("https://cdn/a.mp4", "m3u8"));
}

#[test]
fn decimal_writing_matches_display() {
    for n in [0u64, 7, 10, 99, 100, 1071, u64::MAX] {
        assert_eq!(u64_to_decimal(n), n.to_string());
    }
}
