//! The fetch pipeline: requests become entries, each entry's link is looked
//! up (AparatKids links through their own resolver, others through yt-dlp),
//! and what was found is announced; a group is cleaned up after its last
//! entry. The steps that talk to the outside run elsewhere; here stand the
//! decisions between them.

use vstd::prelude::*;
use vstd::string::*;

use crate::aparatkids;
use crate::counters;
use crate::counters::GroupCounters;
use crate::download_pipeline::ResolveOutcome;
use crate::pattern;

verus! {

/// An entry of a playlist.
pub struct PlaylistEntry {
    pub video_url: String,
    pub index: usize,
}

/// A playlist as it is announced.
pub struct ParsedPlaylist {
    pub id: String,
    pub url: Option<String>,
    pub title: Option<String>,
    pub thumbnail: Option<String>,
    pub uploader: Option<String>,
    pub uploader_id: Option<String>,
    pub entries: Vec<PlaylistEntry>,
    pub playlist_id: Option<String>,
    pub playlist_count: Option<u64>,
}

/// A request to the fetch pipeline. `F` is a format choice and `O` the
/// overrides, which the pipeline carries.
pub enum FetchRequest<F, O> {
    /// Look up one link.
    Initial { group_id: String, id: String, url: String, overrides: Box<Option<O>> },
    /// Look up each entry of a playlist.
    Playlist { group_id: String, entries: Vec<PlaylistEntry>, overrides: Box<Option<O>> },
    /// Look up the size of one link in a format.
    Size { group_id: String, id: String, url: String, format: F },
    /// Look up the size of each entry of a playlist in a format.
    SizePlaylist { group_id: String, playlist: ParsedPlaylist, format: F },
}

/// One lookup of the fetch pipeline.
pub struct FetchEntry<F, O> {
    pub group_id: String,
    pub id: String,
    pub url: String,
    /// The number of entries of the request it came from.
    pub total: usize,
    pub format: Option<F>,
    pub overrides: Option<O>,
}

impl<F, O> FetchEntry<F, O> {
    /// The group the entry belongs to.
    pub fn group_id(&self) -> (r: &String)
        ensures
            *r == self.group_id,
    {
        &self.group_id
    }

    /// Fetch entries are not numbered within a group.
    pub fn group_key(&self) -> (r: Option<&String>)
        ensures
            r is None,
    {
        None
    }

    /// Fetch entries carry no numbering: this changes nothing.
    pub fn set_numbering(&mut self, _autonumber: u64, _group_autonumber: Option<u64>)
        ensures
            *final(self) == *old(self),
    {
    }
}

/// Whether `s` is a lower-case hexadecimal digit.
pub open spec fn is_lower_hex(c: char) -> bool {
    ('0' <= c && c <= '9') || ('a' <= c && c <= 'f')
}

/// Whether `s` is a version 4 UUID in hyphenated lower-case form.
pub open spec fn is_uuid_v4_text(s: Seq<char>) -> bool {
    &&& s.len() == 36
    &&& s[8] == '-' && s[13] == '-' && s[18] == '-' && s[23] == '-'
    &&& s[14] == '4'
    &&& forall|i: int|
        0 <= i < 36 && i != 8 && i != 13 && i != 18 && i != 23 ==> is_lower_hex(#[trigger] s[i])
}

/// `uuid::Uuid::new_v4`, written by `Uuid`'s `Display`: a random version 4
/// UUID, 32 lower-case hexadecimal digits grouped 8-4-4-4-12 by hyphens.
#[verifier::external_body]
fn new_entry_id() -> (r: String)
    ensures
        is_uuid_v4_text(r@),
{
    uuid::Uuid::new_v4().to_string()
}

/// Whether `b` is `a` or a clone of it, where `a` is present.
pub open spec fn opt_cloned<T: Clone>(a: Option<T>, b: Option<T>) -> bool {
    match (a, b) {
        (None, None) => true,
        (Some(x), Some(y)) => vstd::pervasive::cloned(x, y),
        _ => false,
    }
}

/// Whether `e` is the entry of the playlist entry `p` in a request of `total`
/// entries of the group `group_id`, with a fresh id.
pub open spec fn playlist_fetch_entry<F, O>(
    e: FetchEntry<F, O>,
    p: PlaylistEntry,
    group_id: String,
    total: usize,
) -> bool {
    &&& e.group_id == group_id
    &&& is_uuid_v4_text(e.id@)
    &&& e.url == p.video_url
    &&& e.total == total
}

/// Whether `r` are the entries of the request `req`, and `after` the counts
/// once they are made from `before`: a single link gives one entry of a
/// request of one; a playlist gives one entry per playlist entry, in order,
/// each with a fresh id, and, where sizes are not asked for, its group is
/// counted with all its entries in flight.
pub open spec fn expanded<F: Clone, O: Clone>(
    r: Seq<FetchEntry<F, O>>,
    req: FetchRequest<F, O>,
    before: Map<Seq<char>, usize>,
    after: Map<Seq<char>, usize>,
) -> bool {
    match req {
        FetchRequest::Initial { group_id, id, url, overrides } => {
            &&& after == before
            &&& r == seq![
                FetchEntry::<F, O> { group_id, id, url, total: 1, format: None, overrides: *overrides },
            ]
        },
        FetchRequest::Playlist { group_id, entries, overrides } => {
            &&& after == before.insert(group_id@, entries@.len() as usize)
            &&& r.len() == entries@.len()
            &&& forall|i: int|
                0 <= i < r.len() ==> {
                    &&& playlist_fetch_entry(#[trigger] r[i], entries@[i], group_id, r.len() as usize)
                    &&& r[i].format is None
                    &&& opt_cloned(*overrides, r[i].overrides)
                }
        },
        FetchRequest::Size { group_id, id, url, format } => {
            &&& after == before
            &&& r == seq![
                FetchEntry::<F, O> { group_id, id, url, total: 1, format: Some(format), overrides: None },
            ]
        },
        FetchRequest::SizePlaylist { group_id, playlist, format } => {
            &&& after == before
            &&& r.len() == playlist.entries@.len()
            &&& forall|i: int|
                0 <= i < r.len() ==> {
                    &&& playlist_fetch_entry(
                        #[trigger] r[i],
                        playlist.entries@[i],
                        group_id,
                        r.len() as usize,
                    )
                    &&& r[i].format matches Some(f) && vstd::pervasive::cloned(format, f)
                    &&& r[i].overrides is None
                }
        },
    }
}

fn cloned_option<T: Clone>(o: &Option<T>) -> (r: Option<T>)
    ensures
        opt_cloned(*o, r),
{
    match o {
        Some(x) => Some(x.clone()),
        None => None,
    }
}

/// The entries of a playlist request: one per playlist entry, in order.
fn playlist_entries<F: Clone, O: Clone>(
    group_id: &String,
    entries: Vec<PlaylistEntry>,
    format: &Option<F>,
    overrides: &Option<O>,
) -> (r: Vec<FetchEntry<F, O>>)
    ensures
        r@.len() == entries@.len(),
        forall|i: int|
            0 <= i < r@.len() ==> {
                &&& playlist_fetch_entry(#[trigger] r@[i], entries@[i], *group_id, r@.len() as usize)
                &&& opt_cloned(*format, r@[i].format)
                &&& opt_cloned(*overrides, r@[i].overrides)
            },
{
    let total: usize = entries.len();
    let ghost all = entries@;
    let mut rest = entries;
    let mut out: Vec<FetchEntry<F, O>> = Vec::new();
    while rest.len() > 0
        invariant
            total == all.len(),
            out@.len() <= all.len(),
            rest@ == all.skip(out@.len() as int),
            forall|i: int|
                0 <= i < out@.len() ==> {
                    &&& playlist_fetch_entry(#[trigger] out@[i], all[i], *group_id, total)
                    &&& opt_cloned(*format, out@[i].format)
                    &&& opt_cloned(*overrides, out@[i].overrides)
                },
        decreases rest@.len(),
    {
        let ghost n: int = out@.len() as int;
        let e = rest.remove(0);
        assert(e == all[n]);
        out.push(
            FetchEntry {
                group_id: group_id.clone(),
                id: new_entry_id(),
                url: e.video_url,
                total,
                format: cloned_option(format),
                overrides: cloned_option(overrides),
            },
        );
        assert(all.skip(n).drop_first() =~= all.skip(n + 1));
    }
    out
}

/// The entries of a fetch request; a playlist's group is counted with all
/// its entries in flight.
pub fn expand_fetch_request<F: Clone, O: Clone>(
    req: FetchRequest<F, O>,
    counters: &mut GroupCounters,
) -> (r: Vec<FetchEntry<F, O>>)
    ensures
        expanded(r@, req, old(counters)@, final(counters)@),
{
    match req {
        FetchRequest::Initial { group_id, id, url, overrides } => {
            let mut r: Vec<FetchEntry<F, O>> = Vec::new();
            r.push(FetchEntry { group_id, id, url, total: 1, format: None, overrides: *overrides });
            assert(r@ =~= seq![r@[0]]);
            r
        },
        FetchRequest::Playlist { group_id, entries, overrides } => {
            let total: usize = entries.len();
            counters.register(&group_id, total);
            let none: Option<F> = None;
            let r = playlist_entries(&group_id, entries, &none, &*overrides);
            assert forall|i: int| 0 <= i < r@.len() implies r@[i].format is None by {
                assert(opt_cloned(none, r@[i].format));
            }
            r
        },
        FetchRequest::Size { group_id, id, url, format } => {
            let mut r: Vec<FetchEntry<F, O>> = Vec::new();
            r.push(FetchEntry { group_id, id, url, total: 1, format: Some(format), overrides: None });
            assert(r@ =~= seq![r@[0]]);
            r
        },
        FetchRequest::SizePlaylist { group_id, playlist, format } => {
            let some = Some(format);
            let none: Option<O> = None;
            let r = playlist_entries(&group_id, playlist.entries, &some, &none);
            assert forall|i: int| 0 <= i < r@.len() implies r@[i].overrides is None by {
                assert(opt_cloned(none, r@[i].overrides));
            }
            r
        },
    }
}

/// What the worker of a fetch entry does first.
pub enum FetchStart {
    /// Look up the Aparat playlist that the link names; where that fails,
    /// resolve the link itself.
    ExpandPlaylist { playlist_id: String },
    /// Resolve the AparatKids or Aparat link itself.
    ResolveAparat,
    /// Hand the link to yt-dlp.
    RunInfoFetch,
}

/// The first step for a link: an AparatKids or Aparat link that names a
/// playlist expands it, another one is resolved; any other link goes to yt-dlp.
pub fn fetch_start(url: &str) -> (r: FetchStart)
    ensures
        if aparatkids::is_aparat_link(url@) {
            match pattern::pattern_group(aparatkids::APARAT_PLAYLIST_PARAM_PATTERN@, url@) {
                Some(p) => r matches FetchStart::ExpandPlaylist { playlist_id } && playlist_id@
                    == p,
                None => r is ResolveAparat,
            }
        } else {
            r is RunInfoFetch
        },
{
    if aparatkids::is_aparatkids_url(url) {
        match aparatkids::aparat_playlist_id(url) {
            Some(playlist_id) => FetchStart::ExpandPlaylist { playlist_id },
            None => FetchStart::ResolveAparat,
        }
    } else {
        FetchStart::RunInfoFetch
    }
}

/// A playlist to announce for a group, and whether the group is then cleaned up.
pub struct PlaylistAnnouncement {
    pub group_id: String,
    pub total: usize,
    pub playlist: ParsedPlaylist,
    pub cleanup: bool,
}

/// Whether `entries` are the playlist entries of `urls`, numbered from zero.
pub open spec fn entries_of(entries: Seq<PlaylistEntry>, urls: Seq<String>) -> bool {
    &&& entries.len() == urls.len()
    &&& forall|i: int|
        0 <= i < entries.len() ==> #[trigger] entries[i] == PlaylistEntry {
            video_url: urls[i],
            index: i as usize,
        }
}

/// The announcement of the Aparat playlist `playlist_id` that the link of
/// `entry` names, with the pages of its videos; the entry's group is ended.
pub fn announce_aparat_playlist<F, O>(
    entry: &FetchEntry<F, O>,
    playlist_id: String,
    video_urls: Vec<String>,
    counters: &mut GroupCounters,
) -> (r: PlaylistAnnouncement)
    ensures
        r.group_id == entry.group_id,
        r.total == video_urls@.len(),
        r.playlist.id == entry.id,
        r.playlist.url == Some(entry.url),
        r.playlist.title is None,
        r.playlist.thumbnail is None,
        r.playlist.uploader is None,
        r.playlist.uploader_id is None,
        entries_of(r.playlist.entries@, video_urls@),
        r.playlist.playlist_id == Some(playlist_id),
        r.playlist.playlist_count == Some(video_urls@.len() as u64),
        r.cleanup == old(counters)@.contains_key(entry.group_id@),
        final(counters)@ == old(counters)@.remove(entry.group_id@),
{
    let total: usize = video_urls.len();
    let ghost urls = video_urls@;
    let mut rest = video_urls;
    let mut entries: Vec<PlaylistEntry> = Vec::new();
    while rest.len() > 0
        invariant
            total == urls.len(),
            entries@.len() <= urls.len(),
            rest@ == urls.skip(entries@.len() as int),
            entries_of(entries@, urls.take(entries@.len() as int)),
        decreases rest@.len(),
    {
        let ghost n: int = entries@.len() as int;
        let index: usize = entries.len();
        let video_url = rest.remove(0);
        entries.push(PlaylistEntry { video_url, index });
        assert(urls.skip(n).drop_first() =~= urls.skip(n + 1));
        assert forall|i: int| 0 <= i < entries@.len() implies #[trigger] entries@[i] == PlaylistEntry {
            video_url: urls.take(n + 1)[i],
            index: i as usize,
        } by {
            if i < n {
                assert(urls.take(n + 1)[i] == urls.take(n)[i]);
            }
        }
    }
    assert(urls.take(total as int) =~= urls);
    let cleanup = counters.finish(entry.group_id.as_str());
    let playlist = ParsedPlaylist {
        id: entry.id.clone(),
        url: Some(entry.url.clone()),
        title: None,
        thumbnail: None,
        uploader: None,
        uploader_id: None,
        entries,
        playlist_id: Some(playlist_id),
        playlist_count: Some(total as u64),
    };
    PlaylistAnnouncement { group_id: entry.group_id.clone(), total, playlist, cleanup }
}

/// How looking up the Aparat playlist of a link ended.
pub enum PlaylistLookup {
    /// The pages of the playlist's videos.
    Found(Vec<String>),
    /// The lookup failed with this message.
    Failed(String),
    /// The lookup took too long.
    TimedOut,
}

/// What follows the lookup of an Aparat playlist.
pub enum PlaylistStep {
    /// Announce the playlist; the entry is done.
    Announce(PlaylistAnnouncement),
    /// Resolve the link itself, as a single video.
    ResolveLink,
}

/// What follows the lookup of the playlist `playlist_id` that the link of
/// `entry` names: a found playlist is announced and ends the entry's group;
/// where the lookup failed or took too long, the link itself is resolved and
/// no count changes.
pub fn after_playlist_lookup<F, O>(
    entry: &FetchEntry<F, O>,
    playlist_id: String,
    lookup: PlaylistLookup,
    counters: &mut GroupCounters,
) -> (r: PlaylistStep)
    ensures
        match lookup {
            PlaylistLookup::Found(urls) => r matches PlaylistStep::Announce(a) && {
                &&& a.group_id == entry.group_id
                &&& a.total == urls@.len()
                &&& a.playlist.id == entry.id
                &&& a.playlist.url == Some(entry.url)
                &&& a.playlist.title is None
                &&& a.playlist.thumbnail is None
                &&& a.playlist.uploader is None
                &&& a.playlist.uploader_id is None
                &&& entries_of(a.playlist.entries@, urls@)
                &&& a.playlist.playlist_id == Some(playlist_id)
                &&& a.playlist.playlist_count == Some(urls@.len() as u64)
                &&& a.cleanup == old(counters)@.contains_key(entry.group_id@)
                &&& final(counters)@ == old(counters)@.remove(entry.group_id@)
            },
            _ => r is ResolveLink && final(counters)@ == old(counters)@,
        },
{
    match lookup {
        PlaylistLookup::Found(urls) => PlaylistStep::Announce(
            announce_aparat_playlist(entry, playlist_id, urls, counters),
        ),
        PlaylistLookup::Failed(_) => PlaylistStep::ResolveLink,
        PlaylistLookup::TimedOut => PlaylistStep::ResolveLink,
    }
}

/// The record of a video found by resolving an AparatKids or Aparat link, as
/// far as it holds plain values; its duration is given apart, and every field
/// not listed here is empty.
pub struct ResolvedVideoRecord {
    pub id: String,
    /// The link itself, not the stream it was resolved to.
    pub url: Option<String>,
    pub title: Option<String>,
    pub thumbnail: Option<String>,
    pub extractor: Option<String>,
    pub filesize: Option<u64>,
}

/// The record announced for the video that the link of `entry` was resolved
/// to: the entry's id and link, the title, thumbnail and size found, and the
/// `aparatkids` extractor.
pub fn resolved_video_record<F, O>(
    entry: &FetchEntry<F, O>,
    title: Option<String>,
    thumbnail: Option<String>,
    filesize: Option<u64>,
) -> (r: ResolvedVideoRecord)
    ensures
        r.id == entry.id,
        r.url == Some(entry.url),
        r.title == title,
        r.thumbnail == thumbnail,
        r.extractor matches Some(x) && x@ == "aparatkids"@,
        r.filesize == filesize,
{
    ResolvedVideoRecord {
        id: entry.id.clone(),
        url: Some(entry.url.clone()),
        title,
        thumbnail,
        extractor: Some(String::from_str("aparatkids")),
        filesize,
    }
}

/// The message that ends an entry whose AparatKids link could not be
/// resolved; none where it was resolved.
pub fn resolve_failure_message<T>(outcome: &ResolveOutcome<T>) -> (r: Option<String>)
    ensures
        match outcome {
            ResolveOutcome::Resolved(_) => r is None,
            ResolveOutcome::Failed(e) => r matches Some(m) && m@
                == "Failed to resolve AparatKids video: "@ + e@,
            ResolveOutcome::TimedOut => r matches Some(m) && m@
                == "Timeout resolving AparatKids video URL"@,
        },
{
    match outcome {
        ResolveOutcome::Resolved(_) => None,
        ResolveOutcome::Failed(e) => {
            let mut m = String::from_str("Failed to resolve AparatKids video: ");
            m.append(e.as_str());
            Some(m)
        },
        ResolveOutcome::TimedOut => Some(String::from_str("Timeout resolving AparatKids video URL")),
    }
}

/// The event a found video is announced with.
#[derive(PartialEq, Eq, Structural, Debug, Clone, Copy)]
pub enum MediaEvent {
    /// `media_add`: the video joins the list.
    MediaAdd,
    /// `media_size`: the size of the video in the asked format.
    MediaSize,
}

/// The event for a found video: its size where a format was asked, else the video.
pub open spec fn single_event<F>(format: Option<F>) -> MediaEvent {
    if format is Some {
        MediaEvent::MediaSize
    } else {
        MediaEvent::MediaAdd
    }
}

/// Announces the video found for `entry` and ends the entry in its group;
/// true where the group is then cleaned up.
pub fn announce_single<F, O>(entry: &FetchEntry<F, O>, counters: &mut GroupCounters) -> (r: (
    MediaEvent,
    bool,
))
    requires
        old(counters)@.contains_key(entry.group_id@) ==> old(counters)@[entry.group_id@] > 0,
    ensures
        r.0 == single_event(entry.format),
        (final(counters)@, r.1) == counters::completed(old(counters)@, entry.group_id@),
{
    let event = match &entry.format {
        Some(_) => MediaEvent::MediaSize,
        None => MediaEvent::MediaAdd,
    };
    let cleanup = counters.complete_one(entry.group_id.as_str());
    (event, cleanup)
}

/// What yt-dlp found for a link.
pub enum InfoOutcome {
    /// A single video.
    Single,
    /// A playlist of `entry_count` entries.
    Playlist { entry_count: usize },
    /// A live stream.
    Livestream,
    /// Nothing to announce: the failure was already reported.
    Nothing,
}

/// What the worker does with what yt-dlp found.
pub enum InfoAction {
    /// Announce the video with this event.
    AnnounceSingle(MediaEvent),
    /// Queue the playlist to have the size of each entry looked up.
    QueueSizePlaylist,
    /// Announce the playlist with its number of entries.
    AnnouncePlaylist { total: usize },
    /// End the entry with this message.
    Fatal(String),
    /// Nothing.
    Nothing,
}

/// What is done with what yt-dlp found for `entry`, and whether the group is
/// then cleaned up: a video is announced, a playlist queued for sizes (where
/// a format was asked) or announced, a live stream refused; a video or a live
/// stream ends the entry in its group.
pub fn after_info_fetch<F, O>(
    entry: &FetchEntry<F, O>,
    outcome: InfoOutcome,
    counters: &mut GroupCounters,
) -> (r: (InfoAction, bool))
    requires
        (outcome is Single || outcome is Livestream) && old(counters)@.contains_key(entry.group_id@)
            ==> old(counters)@[entry.group_id@] > 0,
    ensures
        match outcome {
            InfoOutcome::Single => {
                &&& r.0 == InfoAction::AnnounceSingle(single_event(entry.format))
                &&& (final(counters)@, r.1) == counters::completed(
                    old(counters)@,
                    entry.group_id@,
                )
            },
            InfoOutcome::Playlist { entry_count } => {
                &&& r.0 == (if entry.format is Some {
                    InfoAction::QueueSizePlaylist
                } else {
                    InfoAction::AnnouncePlaylist { total: entry_count }
                })
                &&& final(counters)@ == old(counters)@
                &&& !r.1
            },
            InfoOutcome::Livestream => {
                &&& r.0 matches InfoAction::Fatal(m) && m@ == "Livestreams unsupported"@
                &&& (final(counters)@, r.1) == counters::completed(
                    old(counters)@,
                    entry.group_id@,
                )
            },
            InfoOutcome::Nothing => {
                &&& r.0 == InfoAction::Nothing
                &&& final(counters)@ == old(counters)@
                &&& !r.1
            },
        },
{
    match outcome {
        InfoOutcome::Single => {
            let (event, cleanup) = announce_single(entry, counters);
            (InfoAction::AnnounceSingle(event), cleanup)
        },
        InfoOutcome::Playlist { entry_count } => {
            match &entry.format {
                Some(_) => (InfoAction::QueueSizePlaylist, false),
                None => (InfoAction::AnnouncePlaylist { total: entry_count }, false),
            }
        },
        InfoOutcome::Livestream => {
            let cleanup = counters.complete_one(entry.group_id.as_str());
            (InfoAction::Fatal(String::from_str("Livestreams unsupported")), cleanup)
        },
        InfoOutcome::Nothing => (InfoAction::Nothing, false),
    }
}

/// The kinds of error a yt-dlp lookup ends with.
#[derive(PartialEq, Eq, Structural, Debug, Clone, Copy)]
pub enum YtdlpInfoFetchErrorKind {
    InvalidDiagnosticRules,
    RunnerFailed,
    ParseFailed,
    /// Any other error of the lookup.
    Other,
}

/// Whether a failed lookup is reported for diagnosis: where its diagnostic
/// rules are invalid, yt-dlp failed to run, or its output did not parse.
pub fn should_report_to_sentry(err: &YtdlpInfoFetchErrorKind) -> (r: bool)
    ensures
        r == (*err != YtdlpInfoFetchErrorKind::Other),
{
    match err {
        YtdlpInfoFetchErrorKind::InvalidDiagnosticRules => true,
        YtdlpInfoFetchErrorKind::RunnerFailed => true,
        YtdlpInfoFetchErrorKind::ParseFailed => true,
        YtdlpInfoFetchErrorKind::Other => false,
    }
}

/// Once a playlist request is expanded, its group is cleaned up by the entry
/// that finishes last, and by no earlier one: of its entries, the `k`-th to
/// finish signals the clean-up exactly when it is the last, so it is cleaned
/// up exactly once.
pub proof fn lemma_playlist_group_cleaned_up_by_last_entry<F: Clone, O: Clone>(
    r: Seq<FetchEntry<F, O>>,
    req: FetchRequest<F, O>,
    before: Map<Seq<char>, usize>,
    after: Map<Seq<char>, usize>,
    k: nat,
)
    requires
        expanded(r, req, before, after),
        req is Playlist,
        k < r.len(),
    ensures
        counters::completed(counters::completed_times(after, req->Playlist_group_id@, k), req->Playlist_group_id@).1
            == (k + 1 == r.len()),
        counters::cleanups(after, req->Playlist_group_id@, r.len()) == 1,
{
    match req {
        FetchRequest::Playlist { group_id, entries, overrides } => {
            assert(entries@.len() == entries.len());
            counters::lemma_group_cleanup_at_last_entry(
                before,
                group_id@,
                entries@.len() as usize,
                k,
            );
            counters::lemma_group_cleaned_up_once(before, group_id@, entries@.len() as usize);
        },
        _ => {},
    }
}

/// The entries of a fetch request: a single link gives one entry with the
/// request's group, id and link, counted as a request of one, carrying the
/// overrides (lookup) or the format (size); a playlist gives one entry per
/// playlist entry, in order, each with the request's group, that entry's
/// link, a fresh id and the playlist's length as total. Only a playlist
/// lookup is counted for its group, with all its entries in flight.
pub proof fn law_fetch_entries_follow_request<F: Clone, O: Clone>(
    r: Seq<FetchEntry<F, O>>,
    req: FetchRequest<F, O>,
    before: Map<Seq<char>, usize>,
    after: Map<Seq<char>, usize>,
)
    requires
        expanded(r, req, before, after),
    ensures
        match req {
            FetchRequest::Initial { group_id, id, url, overrides } => {
                &&& r.len() == 1 && r[0].group_id == group_id && r[0].id == id && r[0].url == url
                &&& r[0].total == 1 && r[0].format is None && r[0].overrides == *overrides
                &&& after == before
            },
            FetchRequest::Size { group_id, id, url, format } => {
                &&& r.len() == 1 && r[0].group_id == group_id && r[0].id == id && r[0].url == url
                &&& r[0].total == 1 && r[0].format == Some(format) && r[0].overrides is None
                &&& after == before
            },
            FetchRequest::Playlist { group_id, entries, overrides } => {
                &&& r.len() == entries@.len()
                &&& forall|i: int|
                    0 <= i < r.len() ==> {
                        &&& (#[trigger] r[i]).group_id == group_id
                        &&& r[i].url == entries@[i].video_url
                        &&& r[i].total == r.len()
                        &&& is_uuid_v4_text(r[i].id@)
                        &&& r[i].format is None
                    }
                &&& after.contains_key(group_id@) && after[group_id@] == r.len()
                &&& forall|g: Seq<char>| g != group_id@ ==> after.contains_key(g) == before.contains_key(g)
            },
            FetchRequest::SizePlaylist { group_id, playlist, format } => {
                &&& r.len() == playlist.entries@.len()
                &&& forall|i: int|
                    0 <= i < r.len() ==> {
                        &&& (#[trigger] r[i]).group_id == group_id
                        &&& r[i].url == playlist.entries@[i].video_url
                        &&& r[i].total == r.len()
                        &&& is_uuid_v4_text(r[i].id@)
                        &&& r[i].format is Some
                        &&& r[i].overrides is None
                    }
                &&& after == before
            },
        },
{
    match req {
        FetchRequest::Playlist { group_id, entries, overrides } => {
            assert(entries@.len() == entries.len());
            assert forall|i: int| 0 <= i < r.len() implies (#[trigger] r[i]).group_id == group_id && r[i].url
                == entries@[i].video_url && r[i].total == r.len() && is_uuid_v4_text(r[i].id@) by {
                assert(playlist_fetch_entry(r[i], entries@[i], group_id, r.len() as usize));
            }
        },
        FetchRequest::SizePlaylist { group_id, playlist, format } => {
            assert(playlist.entries@.len() == playlist.entries.len());
            assert forall|i: int| 0 <= i < r.len() implies (#[trigger] r[i]).group_id == group_id && r[i].url
                == playlist.entries@[i].video_url && r[i].total == r.len() && is_uuid_v4_text(r[i].id@) by {
                assert(playlist_fetch_entry(r[i], playlist.entries@[i], group_id, r.len() as usize));
            }
        },
        _ => {},
    }
}

} // verus!
