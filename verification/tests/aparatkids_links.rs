use aparatkids::aparatkids::{
    aparat_link_kind, aparat_playlist_id, extract_from_player_data, extract_thumbnail,
    extract_title, is_aparatkids_url, movie_api_url, playlist_api_url, shorts_api_url,
    video_api_url, extract_duration_texts, AparatLinkKind,
};

#[test]
fn test_is_aparatkids_url() {
    assert!(is_aparatkids_url("https://www.aparatkids.com/w/0oy3n"));
    assert!(is_aparatkids_url("https://www.aparatkids.com/m/118063"));
    assert!(is_aparatkids_url("https://www.aparat.com/v/lyo8514"));
    assert!(is_aparatkids_url("https://www.aparat.com/m/bdmq6"));
    assert!(is_aparatkids_url("https://www.aparat.com/m/5afnr"));
    assert!(is_aparatkids_url(
        "https://www.aparat.com/shorts/2069019368604831744"
    ));
    assert!(is_aparatkids_url("https://aparat.com/v/abc123"));
    assert!(is_aparatkids_url(
        "https://www.aparat.com/v/yswc201?playlist=22795929"
    ));
    assert!(!is_aparatkids_url("https://youtube.com/watch?v=abc"));
}

#[test]
fn test_aparat_playlist_id() {
    assert_eq!(
        aparat_playlist_id(
            "https://www.aparat.com/v/yswc201?playlist=22795929&refererRef=channel_page"
        ),
        Some("22795929".to_string())
    );
    assert_eq!(
        aparat_playlist_id("https://www.aparat.com/v/abc?foo=bar&playlist=12345"),
        Some("12345".to_string())
    );
    assert_eq!(
        aparat_playlist_id("https://www.aparat.com/v/abc?playlist=999"),
        Some("999".to_string())
    );
    assert_eq!(aparat_playlist_id("https://www.aparat.com/v/abc"), None);
}

#[test]
fn test_extract_from_player_data() {
    let html = r#"var player_data={"multiSRC":[[{"src":"https://www.aparatkids.com/movie/watch/m3u8/test.m3u8","type":"application/vnd.apple.mpegurl"}]]};"#;
    let url = extract_from_player_data(html);
    assert!(url.is_some());
    assert!(url.unwrap().contains("m3u8"));
}

#[test]
fn test_extract_title() {
    let html = r#"uxEvents.movie.nameFa="محله کوکوملون - فصل ۶ قسمت ۲";uxEvents.movie.nameEn="CoComelon Lane S06E02";"#;
    let title = extract_title(html);
    assert!(title.is_some());
    assert_eq!(title.unwrap(), "محله کوکوملون - فصل ۶ قسمت ۲");
}

#[test]
fn test_extract_thumbnail() {
    let html =
        r#"uxEvents.movie.poster="https://static.cdn.asset.filimo.com/flmt/mov_177556_347970.jpg";"#;
    let thumb = extract_thumbnail(html);
    assert!(thumb.is_some());
    assert!(thumb.unwrap().contains("filimo.com"));
}

#[test]
fn test_extract_duration() {
    let html = r#"uxEvents.movie.totalDuration="1071";"#;
    let texts = extract_duration_texts(html);
    assert_eq!(texts.len(), 1);
    assert!(texts[0].positive_only);
    let dur: Option<f64> = texts[0].text.parse::<f64>().ok().filter(|&d| d > 0.0);
    assert!(dur.is_some());
    assert_eq!(dur.unwrap(), 1071.0);
}

#[test]
fn link_kinds_follow_the_resolver_order() {
    assert_eq!(
        aparat_link_kind("https://www.aparat.com/shorts/2069019368604831744"),
        AparatLinkKind::Shorts
    );
    assert_eq!(aparat_link_kind("https://www.aparat.com/v/lyo8514"), AparatLinkKind::Video);
    assert_eq!(aparat_link_kind("https://www.aparat.com/m/bdmq6"), AparatLinkKind::Movie);
    assert_eq!(
        aparat_link_kind("https://www.aparatkids.com/w/0oy3n"),
        AparatLinkKind::KidsPage
    );
}

#[test]
fn api_addresses_carry_the_captured_hash() {
    assert_eq!(
        video_api_url("https://www.aparat.com/v/yswc201?playlist=1"),
        Ok("https://www.aparat.com/api/fa/v1/video/video/show/videohash/yswc201?pr=1&mf=1"
            .to_string())
    );
    assert_eq!(
        shorts_api_url("https://www.aparat.com/shorts/2069019368604831744"),
        Ok("https://www.aparat.com/api/fa/v1/video/video/show/videohash/2069019368604831744?pr=1&mf=1"
            .to_string())
    );
    assert_eq!(
        movie_api_url("https://aparat.com/m/bdmq6"),
        Ok("https://www.aparat.com/api/fa/v1/movie/movie/one/moviehash/bdmq6".to_string())
    );
    assert_eq!(
        playlist_api_url("https://www.aparatkids.com/w/0oy3n"),
        Err("Cannot extract video hash from URL".to_string())
    );
    assert_eq!(
        video_api_url("https://www.aparat.com/m/bdmq6"),
        Err("Invalid aparat.com video URL".to_string())
    );
    assert_eq!(
        movie_api_url("https://www.aparat.com/v/x"),
        Err("Invalid aparat.com movie URL".to_string())
    );
    assert_eq!(
        shorts_api_url("https://www.aparat.com/shorts/abc"),
        Err("Invalid aparat.com shorts URL".to_string())
    );
}

#[test]
fn aparat_watch_pages_are_read_as_pages() {
    assert!(is_aparatkids_url("https://www.aparat.com/w/abc123"));
    assert_eq!(aparat_link_kind("https://www.aparat.com/w/abc123"), AparatLinkKind::KidsPage);
    assert!(!is_aparatkids_url("https://www.aparat.com/x/abc123"));
}
