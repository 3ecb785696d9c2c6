use aparatkids::aparatkids::{
    extract_aparat_m3u8, extract_movie_m3u8, playlist_video_urls, resolve_movie_answer,
    resolve_shorts_answer, resolve_video_answer, AparatkidsResolved,
};
use aparatkids::json::{parse_document, JsonNumber, JsonValue};

fn doc(text: &str) -> JsonValue {
    parse_document(text).unwrap()
}

fn durations(r: &AparatkidsResolved) -> Vec<(String, bool)> {
    r.duration.iter().map(|d| (d.text.clone(), d.positive_only)).collect()
}

#[test]
fn parse_document_reads_json_values() {
    let v = doc(r#"{"a": [1, -2, 2.5, "x", true, null], "b": {"c": 18446744073709551615}}"#);
    let a = v.get("a").unwrap().as_array().unwrap();
    assert_eq!(a.len(), 6);
    assert_eq!(a[0].as_u64(), Some(1));
    assert_eq!(a[1].as_u64(), None);
    assert_eq!(a[1].as_number_text().unwrap(), "-2");
    assert_eq!(a[2].as_u64(), None);
    assert_eq!(a[2].as_number_text().unwrap(), "2.5");
    assert_eq!(a[3].as_str().unwrap(), "x");
    assert!(matches!(a[4], JsonValue::Bool(true)));
    assert!(matches!(a[5], JsonValue::Null));
    assert_eq!(
        v.get("b").unwrap().get("c").unwrap().as_u64(),
        Some(18446744073709551615)
    );
    assert!(v.get("missing").is_none());
    assert!(parse_document("{not json").is_err());
}

#[test]
fn object_lookup_takes_the_last_repeated_member() {
    let v = JsonValue::Object(vec![
        ("k".to_string(), JsonValue::Str("first".to_string())),
        ("k".to_string(), JsonValue::Str("second".to_string())),
        (
            "n".to_string(),
            JsonValue::Number(JsonNumber { unsigned: Some(3), text: "3".to_string() }),
        ),
    ]);
    assert_eq!(v.get("k").unwrap().as_str().unwrap(), "second");
    assert_eq!(v.get("n").unwrap().as_u64(), Some(3));
    assert!(JsonValue::Array(vec![]).get("k").is_none());
}

#[test]
fn video_answer_gives_stream_and_metadata() {
    let d = doc(
        r#"{"data":{"attributes":{
            "hls_link":"https://cdn.aparat.com/v/abc.m3u8",
            "title":"Clip","big_poster":"https://img/big.jpg","medium_poster":"https://img/m.jpg",
            "duration":1071,"size":2048,"bitrate":800}}}"#,
    );
    let r = resolve_video_answer(&d).unwrap();
    assert_eq!(r.m3u8_url, "https://cdn.aparat.com/v/abc.m3u8");
    assert_eq!(r.title.as_deref(), Some("Clip"));
    assert_eq!(r.thumbnail.as_deref(), Some("https://img/big.jpg"));
    assert_eq!(durations(&r), vec![("1071".to_string(), true)]);
    assert_eq!(r.filesize, Some(2048));
    assert_eq!(r.bitrate, Some(800));
}

#[test]
fn video_answer_follows_the_first_present_field() {
    let d = doc(
        r#"{"data":{"attributes":{
            "hls_link":"","hls":{"link":"https://cdn/x.m3u8"},
            "big_poster":7,"medium_poster":"https://img/m.jpg",
            "filesize":0,"size":99,
            "encodings":[{"bitrate":640},{"bitrate":1}]}}}"#,
    );
    let r = resolve_video_answer(&d).unwrap();
    assert_eq!(r.m3u8_url, "https://cdn/x.m3u8");
    assert_eq!(r.title, None);
    assert_eq!(r.thumbnail, None);
    assert!(r.duration.is_empty());
    assert_eq!(r.filesize, None);
    assert_eq!(r.bitrate, Some(640));
}

#[test]
fn video_answer_errors() {
    assert_eq!(
        resolve_video_answer(&doc(r#"{"data":{}}"#)).err(),
        Some("Invalid API response: missing video attributes".to_string())
    );
    assert_eq!(
        resolve_video_answer(&doc(r#"{"data":{"attributes":{"hls_link":"","file_link":""}}}"#))
            .err(),
        Some("No video stream found in API response".to_string())
    );
}

#[test]
fn aparat_stream_falls_back_to_file_link() {
    let attrs = doc(r#"{"hls":{"link":""},"file_link":"https://cdn/file.mp4"}"#);
    assert_eq!(extract_aparat_m3u8(&attrs), Ok("https://cdn/file.mp4".to_string()));
}

#[test]
fn shorts_answer_keeps_no_bitrate() {
    let d = doc(
        r#"{"data":{"attributes":{"file_link":"https://cdn/s.mp4","bitrate":900,"duration":12.5}}}"#,
    );
    let r = resolve_shorts_answer(&d).unwrap();
    assert_eq!(r.m3u8_url, "https://cdn/s.mp4");
    assert_eq!(r.bitrate, None);
    assert_eq!(durations(&r), vec![("12.5".to_string(), true)]);
}

#[test]
fn movie_answer_reads_the_first_movie() {
    let d = doc(
        r#"{"data":{"attributes":{"movieData":[{
            "playerOption":{"multiSRC":[{"x":1},[{"src":"https://cdn/a.mp4"},{"src":"https://cdn/b.m3u8"}]],
                            "duration":0,"size":4096},
            "General":{"title_fa":"فیلم","cover":"https://img/c.jpg","duration":3600}}]}}}"#,
    );
    let r = resolve_movie_answer(&d).unwrap();
    assert_eq!(r.m3u8_url, "https://cdn/b.m3u8");
    assert_eq!(r.title.as_deref(), Some("فیلم"));
    assert_eq!(r.thumbnail.as_deref(), Some("https://img/c.jpg"));
    assert_eq!(
        durations(&r),
        vec![("0".to_string(), true), ("3600".to_string(), true)]
    );
    assert_eq!(r.filesize, Some(4096));
    assert_eq!(r.bitrate, None);
}

#[test]
fn movie_stream_falls_back_to_watch_action() {
    let movie = doc(r#"{"playerOption":{"multiSRC":[[{"src":"https://cdn/a.mp4"}]]},"watch_action":{"movie_src":"https://cdn/m"}}"#);
    assert_eq!(extract_movie_m3u8(&movie), Ok("https://cdn/m".to_string()));
    let none = doc(r#"{"watch_action":{"movie_src":""}}"#);
    assert_eq!(
        extract_movie_m3u8(&none),
        Err("No video stream found in movie data".to_string())
    );
}

#[test]
fn movie_answer_errors() {
    assert_eq!(
        resolve_movie_answer(&doc(r#"{"data":{"attributes":{"movieData":[]}}}"#)).err(),
        Some("Invalid movie API response: no movie data".to_string())
    );
    assert_eq!(
        resolve_movie_answer(&doc(r#"{"data":{"attributes":{"movieData":[{}]}}}"#)).err(),
        Some("No video stream found in movie data".to_string())
    );
}

#[test]
fn playlist_answer_maps_ids_to_pages() {
    let d = doc(
        r#"{"included":[
            {"id":"1","type":"video","attributes":{"uid":"aaa"}},
            {"id":"p","type":"playlist","relationships":{"video":{"data":[{"id":"1"},{"id":"2"},{"id":3},{"id":"4"}]}}},
            {"id":"2","type":"video","attributes":{"uid":"bbb"}},
            {"id":"1","type":"video","attributes":{"uid":"ccc"}},
            {"id":"2","type":"video","attributes":{}}
        ]}"#,
    );
    assert_eq!(
        playlist_video_urls(&d),
        Ok(vec![
            "https://www.aparat.com/v/ccc".to_string(),
            "https://www.aparat.com/v/bbb".to_string(),
        ])
    );
}

#[test]
fn playlist_answer_errors() {
    assert_eq!(
        playlist_video_urls(&doc(r#"{"included":[{"type":"video"}]}"#)),
        Err("No playlist entries found in API response".to_string())
    );
    assert_eq!(
        playlist_video_urls(&doc(r#"{"data":{}}"#)),
        Err("No playlist entries found in API response".to_string())
    );
    assert_eq!(
        playlist_video_urls(&doc(
            r#"{"included":[{"type":"playlist","relationships":{"video":{"data":[{"id":"9"}]}}}]}"#
        )),
        Err("Could not map playlist video IDs to URLs".to_string())
    );
}
