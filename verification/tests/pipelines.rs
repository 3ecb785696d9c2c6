use std::collections::HashSet;

use aparatkids::counters::GroupCounters;
use aparatkids::download_pipeline::{
    expand_download_request, should_report_to_sentry as report_download_error,
    url_after_resolve, DownloadEntry, DownloadItem, DownloadRequest, ResolveOutcome,
    TemplateContext, YtdlpDownloadErrorKind,
};
use aparatkids::fetch_pipeline::{
    after_info_fetch, after_playlist_lookup, announce_aparat_playlist, announce_single,
    expand_fetch_request, fetch_start, resolve_failure_message, resolved_video_record,
    should_report_to_sentry as report_fetch_error, FetchEntry, FetchRequest, FetchStart,
    InfoAction, InfoOutcome, MediaEvent, ParsedPlaylist, PlaylistEntry, PlaylistLookup,
    PlaylistStep, YtdlpInfoFetchErrorKind,
};
use vstd::hash_map::StringHashMap;

fn item(id: &str, url: &str) -> DownloadItem<u8, u8, u8> {
    DownloadItem {
        id: id.to_string(),
        url: url.to_string(),
        format: 1,
        subtitle_inventory: None,
        overrides: Some(2),
        template_context: TemplateContext { values: StringHashMap::new() },
    }
}

fn fetch_entry(group: &str, format: Option<u8>) -> FetchEntry<u8, u8> {
    FetchEntry {
        group_id: group.to_string(),
        id: "e1".to_string(),
        url: "https://www.aparat.com/v/abc?playlist=42".to_string(),
        total: 1,
        format,
        overrides: None,
    }
}

fn is_uuid_v4(s: &str) -> bool {
    s.len() == 36
        && s.char_indices().all(|(i, c)| match i {
            8 | 13 | 18 | 23 => c == '-',
            14 => c == '4',
            _ => c.is_ascii_digit() || ('a'..='f').contains(&c),
        })
}

#[test]
fn counters_clean_up_a_group_at_its_last_entry() {
    let mut c = GroupCounters::new();
    let g = "g".to_string();
    c.register(&g, 3);
    assert!(!c.complete_one("g"));
    assert_eq!(c.remaining("g"), Some(2));
    assert!(!c.complete_one("g"));
    assert!(c.complete_one("g"));
    assert_eq!(c.remaining("g"), None);
    assert!(!c.complete_one("g"));
    c.register(&g, 5);
    assert!(c.finish("g"));
    assert!(!c.finish("g"));
}

#[test]
fn download_batch_becomes_entries_of_its_group() {
    let mut c = GroupCounters::new();
    let req = DownloadRequest::Batch {
        group_id: "batch".to_string(),
        items: vec![item("a", "https://u/a"), item("b", "https://u/b")],
    };
    let entries = expand_download_request(req, &mut c);
    assert_eq!(entries.len(), 2);
    assert_eq!(entries[0].group_id(), "batch");
    assert_eq!(entries[0].id, "a");
    assert_eq!(entries[1].url, "https://u/b");
    assert_eq!(entries[1].overrides, Some(2));
    assert_eq!(c.remaining("batch"), Some(2));
}

#[test]
fn download_entry_from_item() {
    let e: DownloadEntry<u8, u8, u8> = DownloadEntry::from((item("x", "https://u/x"), "g".to_string()));
    assert_eq!(e.group_id, "g");
    assert_eq!(e.id, "x");
    assert_eq!(e.url, "https://u/x");
    assert_eq!(e.format, 1);
}

#[test]
fn numbering_sets_template_values_and_keeps_the_group_key() {
    let mut values = StringHashMap::new();
    values.insert("playlist_id".to_string(), "PL9".to_string());
    let mut e = DownloadEntry::<u8, u8, u8>::from((item("x", "https://u/x"), "g".to_string()));
    e.template_context = TemplateContext { values };
    e.set_numbering(12, Some(3));
    assert_eq!(e.template_context.values.get("autonumber"), Some(&"12".to_string()));
    assert_eq!(e.template_context.values.get("playlist_autonumber"), Some(&"3".to_string()));
    assert_eq!(e.group_key(), Some(&"PL9".to_string()));
    let mut plain = DownloadEntry::<u8, u8, u8>::from((item("y", "https://u/y"), "g".to_string()));
    plain.set_numbering(1, None);
    assert_eq!(plain.group_key(), None);
    assert_eq!(plain.template_context.values.get("playlist_autonumber"), None);
}

#[test]
fn download_url_falls_back_to_the_link() {
    let link = "https://www.aparat.com/v/abc".to_string();
    assert_eq!(
        url_after_resolve(link.clone(), ResolveOutcome::Resolved("https://cdn/x.m3u8".to_string())),
        "https://cdn/x.m3u8"
    );
    assert_eq!(url_after_resolve(link.clone(), ResolveOutcome::Failed("boom".to_string())), link);
    assert_eq!(url_after_resolve(link.clone(), ResolveOutcome::TimedOut), link);
}

#[test]
fn sentry_reports_only_the_listed_errors() {
    assert!(report_download_error(&YtdlpDownloadErrorKind::SpawnFailed));
    assert!(report_download_error(&YtdlpDownloadErrorKind::EventStreamEnded));
    assert!(report_download_error(&YtdlpDownloadErrorKind::InvalidDiagnosticRules));
    assert!(!report_download_error(&YtdlpDownloadErrorKind::Other));
    assert!(report_fetch_error(&YtdlpInfoFetchErrorKind::RunnerFailed));
    assert!(report_fetch_error(&YtdlpInfoFetchErrorKind::ParseFailed));
    assert!(report_fetch_error(&YtdlpInfoFetchErrorKind::InvalidDiagnosticRules));
    assert!(!report_fetch_error(&YtdlpInfoFetchErrorKind::Other));
}

#[test]
fn fetch_requests_expand_to_entries() {
    let mut c = GroupCounters::new();
    let single = expand_fetch_request::<u8, u8>(
        FetchRequest::Initial {
            group_id: "g".to_string(),
            id: "i".to_string(),
            url: "https://u".to_string(),
            overrides: Box::new(Some(5)),
        },
        &mut c,
    );
    assert_eq!(single.len(), 1);
    assert_eq!(single[0].total, 1);
    assert_eq!(single[0].overrides, Some(5));
    assert_eq!(single[0].format, None);
    assert_eq!(c.remaining("g"), None);

    let entries = vec![
        PlaylistEntry { video_url: "https://u/1".to_string(), index: 0 },
        PlaylistEntry { video_url: "https://u/2".to_string(), index: 1 },
        PlaylistEntry { video_url: "https://u/3".to_string(), index: 2 },
    ];
    let list = expand_fetch_request::<u8, u8>(
        FetchRequest::Playlist { group_id: "p".to_string(), entries, overrides: Box::new(Some(7)) },
        &mut c,
    );
    assert_eq!(list.len(), 3);
    assert_eq!(c.remaining("p"), Some(3));
    let ids: HashSet<&String> = list.iter().map(|e| &e.id).collect();
    assert_eq!(ids.len(), 3);
    for (i, e) in list.iter().enumerate() {
        assert!(is_uuid_v4(&e.id));
        assert_eq!(e.url, format!("https://u/{}", i + 1));
        assert_eq!(e.total, 3);
        assert_eq!(e.group_id, "p");
        assert_eq!(e.overrides, Some(7));
        assert_eq!(e.format, None);
    }

    let playlist = ParsedPlaylist {
        id: "pl".to_string(),
        url: None,
        title: None,
        thumbnail: None,
        uploader: None,
        uploader_id: None,
        entries: vec![PlaylistEntry { video_url: "https://u/9".to_string(), index: 0 }],
        playlist_id: None,
        playlist_count: None,
    };
    let sized = expand_fetch_request::<u8, u8>(
        FetchRequest::SizePlaylist { group_id: "s".to_string(), playlist, format: 4 },
        &mut c,
    );
    assert_eq!(sized.len(), 1);
    assert_eq!(sized[0].format, Some(4));
    assert_eq!(sized[0].overrides, None);
    assert_eq!(c.remaining("s"), None);

    let size = expand_fetch_request::<u8, u8>(
        FetchRequest::Size {
            group_id: "z".to_string(),
            id: "k".to_string(),
            url: "https://u/z".to_string(),
            format: 6,
        },
        &mut c,
    );
    assert_eq!(size[0].format, Some(6));
    assert_eq!(size[0].id, "k");
}

#[test]
fn fetch_start_depends_on_the_link() {
    assert!(matches!(
        fetch_start("https://www.aparat.com/v/abc?playlist=42"),
        FetchStart::ExpandPlaylist { playlist_id } if playlist_id == "42"
    ));
    assert!(matches!(
        fetch_start("https://www.aparatkids.com/w/0oy3n"),
        FetchStart::ResolveAparat
    ));
    assert!(matches!(
        fetch_start("https://youtube.com/watch?v=abc&playlist=1"),
        FetchStart::RunInfoFetch
    ));
}

#[test]
fn aparat_playlist_announcement_ends_the_group() {
    let mut c = GroupCounters::new();
    c.register(&"g".to_string(), 1);
    let entry = fetch_entry("g", None);
    let a = announce_aparat_playlist(
        &entry,
        "42".to_string(),
        vec!["https://www.aparat.com/v/a".to_string(), "https://www.aparat.com/v/b".to_string()],
        &mut c,
    );
    assert!(a.cleanup);
    assert_eq!(a.total, 2);
    assert_eq!(a.group_id, "g");
    assert_eq!(a.playlist.id, "e1");
    assert_eq!(a.playlist.url.as_deref(), Some("https://www.aparat.com/v/abc?playlist=42"));
    assert_eq!(a.playlist.playlist_id.as_deref(), Some("42"));
    assert_eq!(a.playlist.playlist_count, Some(2));
    assert_eq!(a.playlist.entries[1].video_url, "https://www.aparat.com/v/b");
    assert_eq!(a.playlist.entries[1].index, 1);
    assert_eq!(c.remaining("g"), None);
    let again = announce_aparat_playlist(&entry, "42".to_string(), vec![], &mut c);
    assert!(!again.cleanup);
}

#[test]
fn resolve_failures_give_their_messages() {
    assert_eq!(
        resolve_failure_message::<u8>(&ResolveOutcome::Failed("HTTP 500".to_string())),
        Some("Failed to resolve AparatKids video: HTTP 500".to_string())
    );
    assert_eq!(
        resolve_failure_message::<u8>(&ResolveOutcome::TimedOut),
        Some("Timeout resolving AparatKids video URL".to_string())
    );
    assert_eq!(resolve_failure_message(&ResolveOutcome::Resolved(1u8)), None);
}

#[test]
fn found_media_is_announced_and_counted() {
    let mut c = GroupCounters::new();
    c.register(&"g".to_string(), 2);
    assert_eq!(announce_single(&fetch_entry("g", Some(1)), &mut c), (MediaEvent::MediaSize, false));
    let (action, cleanup) = after_info_fetch(&fetch_entry("g", None), InfoOutcome::Single, &mut c);
    assert!(matches!(action, InfoAction::AnnounceSingle(MediaEvent::MediaAdd)));
    assert!(cleanup);

    c.register(&"h".to_string(), 2);
    let (action, cleanup) =
        after_info_fetch(&fetch_entry("h", None), InfoOutcome::Playlist { entry_count: 9 }, &mut c);
    assert!(matches!(action, InfoAction::AnnouncePlaylist { total: 9 }));
    assert!(!cleanup);
    let (action, _) =
        after_info_fetch(&fetch_entry("h", Some(1)), InfoOutcome::Playlist { entry_count: 9 }, &mut c);
    assert!(matches!(action, InfoAction::QueueSizePlaylist));
    assert_eq!(c.remaining("h"), Some(2));
    let (action, cleanup) = after_info_fetch(&fetch_entry("h", None), InfoOutcome::Livestream, &mut c);
    assert!(matches!(action, InfoAction::Fatal(ref m) if m == "Livestreams unsupported"));
    assert!(!cleanup);
    let (action, cleanup) = after_info_fetch(&fetch_entry("h", None), InfoOutcome::Nothing, &mut c);
    assert!(matches!(action, InfoAction::Nothing));
    assert!(!cleanup);
    assert_eq!(c.remaining("h"), Some(1));
}

#[test]
fn playlist_group_is_cleaned_up_by_its_last_entry() {
    let mut c = GroupCounters::new();
    let entries = vec![
        PlaylistEntry { video_url: "https://u/1".to_string(), index: 0 },
        PlaylistEntry { video_url: "https://u/2".to_string(), index: 1 },
    ];
    let list = expand_fetch_request::<u8, u8>(
        FetchRequest::Playlist { group_id: "p".to_string(), entries, overrides: Box::new(None) },
        &mut c,
    );
    let (_, first) = after_info_fetch(&list[0], InfoOutcome::Single, &mut c);
    assert!(!first);
    let (_, last) = after_info_fetch(&list[1], InfoOutcome::Livestream, &mut c);
    assert!(last);
    assert_eq!(c.remaining("p"), None);
}

#[test]
fn download_group_is_cleaned_up_by_its_last_download() {
    let mut c = GroupCounters::new();
    let req = DownloadRequest::Batch {
        group_id: "b".to_string(),
        items: vec![item("a", "https://u/a"), item("b", "https://u/b"), item("c", "https://u/c")],
    };
    let entries = expand_download_request(req, &mut c);
    let done: Vec<bool> = entries.iter().map(|e| c.complete_one(e.group_id())).collect();
    assert_eq!(done, vec![false, false, true]);
}

#[test]
fn playlist_and_empty_outcomes_accept_a_group_at_zero() {
    let mut c = GroupCounters::new();
    c.register(&"z".to_string(), 0);
    let (action, cleanup) =
        after_info_fetch(&fetch_entry("z", None), InfoOutcome::Playlist { entry_count: 2 }, &mut c);
    assert!(matches!(action, InfoAction::AnnouncePlaylist { total: 2 }));
    assert!(!cleanup);
    let (action, cleanup) = after_info_fetch(&fetch_entry("z", None), InfoOutcome::Nothing, &mut c);
    assert!(matches!(action, InfoAction::Nothing));
    assert!(!cleanup);
    assert_eq!(c.remaining("z"), Some(0));
}

#[test]
fn playlist_lookup_announces_or_falls_back() {
    let mut c = GroupCounters::new();
    c.register(&"g".to_string(), 1);
    let entry = fetch_entry("g", None);
    let step = after_playlist_lookup(&entry, "42".to_string(), PlaylistLookup::Failed("x".to_string()), &mut c);
    assert!(matches!(step, PlaylistStep::ResolveLink));
    let step = after_playlist_lookup(&entry, "42".to_string(), PlaylistLookup::TimedOut, &mut c);
    assert!(matches!(step, PlaylistStep::ResolveLink));
    assert_eq!(c.remaining("g"), Some(1));
    let step = after_playlist_lookup(
        &entry,
        "42".to_string(),
        PlaylistLookup::Found(vec!["https://www.aparat.com/v/a".to_string()]),
        &mut c,
    );
    match step {
        PlaylistStep::Announce(a) => {
            assert!(a.cleanup);
            assert_eq!(a.total, 1);
            assert_eq!(a.playlist.playlist_id.as_deref(), Some("42"));
        }
        PlaylistStep::ResolveLink => panic!("a found playlist is announced"),
    }
    assert_eq!(c.remaining("g"), None);
}

#[test]
fn resolved_record_keeps_the_link_and_names_the_extractor() {
    let entry = fetch_entry("g", None);
    let r = resolved_video_record(&entry, Some("T".to_string()), None, Some(10));
    assert_eq!(r.id, "e1");
    assert_eq!(r.url.as_deref(), Some("https://www.aparat.com/v/abc?playlist=42"));
    assert_eq!(r.title.as_deref(), Some("T"));
    assert_eq!(r.thumbnail, None);
    assert_eq!(r.extractor.as_deref(), Some("aparatkids"));
    assert_eq!(r.filesize, Some(10));
}
