//! AparatKids and Aparat links: which links are served here, how each kind is
//! resolved, and what the answers of the Aparat APIs and the AparatKids pages
//! say about a video.

use vstd::prelude::*;
use vstd::string::*;

use crate::json;
use crate::json::JsonValue;
use crate::pattern;
use crate::text;

verus! {

/// An AparatKids watch or movie page.
pub const APARATKIDS_URL_PATTERN: &'static str = r"https?://(?:www\.)?aparatkids\.com/(?:w|m)/([a-zA-Z0-9]+)";

/// An aparat.com video page.
pub const APARAT_VIDEO_PATTERN: &'static str = r"https?://(?:www\.)?aparat\.com/v/([a-zA-Z0-9]+)";

/// An aparat.com watch page, which is read as a page.
pub const APARAT_WATCH_PATTERN: &'static str = r"https?://(?:www\.)?aparat\.com/w/([a-zA-Z0-9]+)";

/// An aparat.com movie page.
pub const APARAT_MOVIE_PATTERN: &'static str = r"https?://(?:www\.)?aparat\.com/m/([a-zA-Z0-9]+)";

/// An aparat.com shorts page.
pub const APARAT_SHORTS_PATTERN: &'static str = r"https?://(?:www\.)?aparat\.com/shorts/(\d+)";

/// The `playlist` query parameter of a link.
pub const APARAT_PLAYLIST_PARAM_PATTERN: &'static str = r"[?&]playlist=(\d+)";

/// Whether the link is one that this resolver serves: an AparatKids page or an
/// aparat.com watch, video, movie or shorts page.
pub open spec fn is_aparat_link(url: Seq<char>) -> bool {
    ||| pattern::pattern_matches(APARATKIDS_URL_PATTERN@, url)
    ||| pattern::pattern_matches(APARAT_WATCH_PATTERN@, url)
    ||| pattern::pattern_matches(APARAT_VIDEO_PATTERN@, url)
    ||| pattern::pattern_matches(APARAT_MOVIE_PATTERN@, url)
    ||| pattern::pattern_matches(APARAT_SHORTS_PATTERN@, url)
}

/// Whether `url` is an AparatKids page or an aparat.com watch, video, movie or shorts page.
pub fn is_aparatkids_url(url: &str) -> (r: bool)
    ensures
        r == is_aparat_link(url@),
{
    pattern::matches_pattern(APARATKIDS_URL_PATTERN, url)
        || pattern::matches_pattern(APARAT_WATCH_PATTERN, url)
        || pattern::matches_pattern(APARAT_VIDEO_PATTERN, url)
        || pattern::matches_pattern(APARAT_MOVIE_PATTERN, url)
        || pattern::matches_pattern(APARAT_SHORTS_PATTERN, url)
}

/// The playlist id that a link carries in its query, if any.
pub fn aparat_playlist_id(url: &str) -> (r: Option<String>)
    ensures
        json::opt_chars(r) == pattern::pattern_group(APARAT_PLAYLIST_PARAM_PATTERN@, url@),
{
    pattern::first_group(APARAT_PLAYLIST_PARAM_PATTERN, url)
}

/// How a link is resolved.
#[derive(PartialEq, Eq, Structural, Debug, Clone, Copy)]
pub enum AparatLinkKind {
    /// Through the video API, by the shorts' numeric id.
    Shorts,
    /// Through the video API, by the video hash.
    Video,
    /// Through the movie API, by the movie hash.
    Movie,
    /// By reading the page itself (an AparatKids page, or an aparat.com watch page).
    KidsPage,
}

/// The kind of a link; shorts first, then videos, then movies.
pub open spec fn link_kind(url: Seq<char>) -> AparatLinkKind {
    if pattern::pattern_matches(APARAT_SHORTS_PATTERN@, url) {
        AparatLinkKind::Shorts
    } else if pattern::pattern_matches(APARAT_VIDEO_PATTERN@, url) {
        AparatLinkKind::Video
    } else if pattern::pattern_matches(APARAT_MOVIE_PATTERN@, url) {
        AparatLinkKind::Movie
    } else {
        AparatLinkKind::KidsPage
    }
}

/// The way `url` is resolved.
pub fn aparat_link_kind(url: &str) -> (r: AparatLinkKind)
    ensures
        r == link_kind(url@),
{
    if pattern::matches_pattern(APARAT_SHORTS_PATTERN, url) {
        AparatLinkKind::Shorts
    } else if pattern::matches_pattern(APARAT_VIDEO_PATTERN, url) {
        AparatLinkKind::Video
    } else if pattern::matches_pattern(APARAT_MOVIE_PATTERN, url) {
        AparatLinkKind::Movie
    } else {
        AparatLinkKind::KidsPage
    }
}

/// The start of the video API address, before the video hash.
pub const VIDEO_API_PREFIX: &'static str = "https://www.aparat.com/api/fa/v1/video/video/show/videohash/";

/// The end of the video API address, after the video hash.
pub const VIDEO_API_SUFFIX: &'static str = "?pr=1&mf=1";

/// The start of the movie API address, before the movie hash.
pub const MOVIE_API_PREFIX: &'static str = "https://www.aparat.com/api/fa/v1/movie/movie/one/moviehash/";

/// The video API address for a video hash or a shorts id.
pub open spec fn video_api_address(hash: Seq<char>) -> Seq<char> {
    VIDEO_API_PREFIX@ + hash + VIDEO_API_SUFFIX@
}

/// The movie API address for a movie hash.
pub open spec fn movie_api_address(hash: Seq<char>) -> Seq<char> {
    MOVIE_API_PREFIX@ + hash
}

/// Whether `r` is the API address built from the hash that `pattern` captures
/// in `url`, or, where it captures none, the error `message`.
pub open spec fn api_address_result(
    r: Result<String, String>,
    pattern: Seq<char>,
    url: Seq<char>,
    movie: bool,
    message: Seq<char>,
) -> bool {
    match pattern::pattern_group(pattern, url) {
        Some(hash) => r matches Ok(a) && a@ == (if movie {
            movie_api_address(hash)
        } else {
            video_api_address(hash)
        }),
        None => r matches Err(e) && e@ == message,
    }
}

fn video_address(hash: &String) -> (r: String)
    ensures
        r@ == video_api_address(hash@),
{
    let mut a = String::from_str(VIDEO_API_PREFIX);
    a.append(hash.as_str());
    a.append(VIDEO_API_SUFFIX);
    a
}

/// The video API address for an aparat.com video link.
pub fn video_api_url(url: &str) -> (r: Result<String, String>)
    ensures
        api_address_result(r, APARAT_VIDEO_PATTERN@, url@, false, "Invalid aparat.com video URL"@),
{
    match pattern::first_group(APARAT_VIDEO_PATTERN, url) {
        Some(hash) => Ok(video_address(&hash)),
        None => Err(String::from_str("Invalid aparat.com video URL")),
    }
}

/// The video API address for an aparat.com shorts link: shorts are videos
/// looked up by their numeric id.
pub fn shorts_api_url(url: &str) -> (r: Result<String, String>)
    ensures
        api_address_result(
            r,
            APARAT_SHORTS_PATTERN@,
            url@,
            false,
            "Invalid aparat.com shorts URL"@,
        ),
{
    match pattern::first_group(APARAT_SHORTS_PATTERN, url) {
        Some(id) => Ok(video_address(&id)),
        None => Err(String::from_str("Invalid aparat.com shorts URL")),
    }
}

/// The movie API address for an aparat.com movie link.
pub fn movie_api_url(url: &str) -> (r: Result<String, String>)
    ensures
        api_address_result(r, APARAT_MOVIE_PATTERN@, url@, true, "Invalid aparat.com movie URL"@),
{
    match pattern::first_group(APARAT_MOVIE_PATTERN, url) {
        Some(hash) => {
            let mut a = String::from_str(MOVIE_API_PREFIX);
            a.append(hash.as_str());
            Ok(a)
        },
        None => Err(String::from_str("Invalid aparat.com movie URL")),
    }
}

/// The video API address that lists the playlist of the first video of a playlist.
pub fn playlist_api_url(first_video_url: &str) -> (r: Result<String, String>)
    ensures
        api_address_result(
            r,
            APARAT_VIDEO_PATTERN@,
            first_video_url@,
            false,
            "Cannot extract video hash from URL"@,
        ),
{
    match pattern::first_group(APARAT_VIDEO_PATTERN, first_video_url) {
        Some(hash) => Ok(video_address(&hash)),
        None => Err(String::from_str("Cannot extract video hash from URL")),
    }
}

/// Whether a stream address names an HLS playlist.
pub open spec fn is_stream_link(u: Seq<char>) -> bool {
    text::has_sub(u, ".m3u8"@) || text::has_sub(u, "m3u8"@)
}

/// The `src` of a source entry, where it names an HLS playlist.
pub open spec fn entry_stream(entry: JsonValue) -> Option<Seq<char>> {
    match json::str_in(entry.at_key("src"@)) {
        Some(u) => if is_stream_link(u) {
            Some(u)
        } else {
            None
        },
        None => None,
    }
}

/// The first HLS playlist among the entries of a source group.
pub open spec fn group_stream(entries: Seq<JsonValue>) -> Option<Seq<char>>
    decreases entries.len(),
{
    if entries.len() == 0 {
        None
    } else {
        json::either(entry_stream(entries[0]), group_stream(entries.drop_first()))
    }
}

/// The first HLS playlist in a `multiSRC` list of source groups, group by
/// group; a group that is not an array is passed over.
pub open spec fn groups_stream(groups: Seq<JsonValue>) -> Option<Seq<char>>
    decreases groups.len(),
{
    if groups.len() == 0 {
        None
    } else {
        json::either(
            match groups[0].array_items() {
                Some(entries) => group_stream(entries),
                None => None,
            },
            groups_stream(groups.drop_first()),
        )
    }
}

fn stream_in_group(entries: &Vec<JsonValue>) -> (r: Option<String>)
    ensures
        json::opt_chars(r) == group_stream(entries@),
{
    let mut i: usize = 0;
    assert(entries@.skip(0) =~= entries@);
    while i < entries.len()
        invariant
            i <= entries@.len(),
            group_stream(entries@) == group_stream(entries@.skip(i as int)),
        decreases entries@.len() - i,
    {
        assert(entries@.skip(i as int)[0] == entries@[i as int]);
        assert(entries@.skip(i as int).drop_first() =~= entries@.skip(i + 1));
        match json::text_of(entries[i].get("src")) {
            Some(u) => {
                if text::contains(u.as_str(), ".m3u8") || text::contains(u.as_str(), "m3u8") {
                    return Some(u.clone());
                }
            },
            None => {},
        }
        i = i + 1;
    }
    None
}

/// The first HLS playlist in a `multiSRC` list of source groups.
fn stream_in_groups(groups: &Vec<JsonValue>) -> (r: Option<String>)
    ensures
        json::opt_chars(r) == groups_stream(groups@),
{
    let mut i: usize = 0;
    assert(groups@.skip(0) =~= groups@);
    while i < groups.len()
        invariant
            i <= groups@.len(),
            groups_stream(groups@) == groups_stream(groups@.skip(i as int)),
        decreases groups@.len() - i,
    {
        assert(groups@.skip(i as int)[0] == groups@[i as int]);
        assert(groups@.skip(i as int).drop_first() =~= groups@.skip(i + 1));
        match groups[i].as_array() {
            Some(entries) => {
                match stream_in_group(entries) {
                    Some(u) => {
                        return Some(u);
                    },
                    None => {},
                }
            },
            None => {},
        }
        i = i + 1;
    }
    None
}

/// The stream address in the attributes of a video API answer: `hls_link`,
/// else `hls.link`, else `file_link`, each only where it is a non-empty string.
pub open spec fn aparat_stream(attrs: JsonValue) -> Option<Seq<char>> {
    json::either(
        json::filled(json::str_in(attrs.at_key("hls_link"@))),
        json::either(
            json::filled(json::str_in(json::key_in(attrs.at_key("hls"@), "link"@))),
            json::filled(json::str_in(attrs.at_key("file_link"@))),
        ),
    )
}

/// Whether `r` is the stream address that video attributes give, or the
/// error for attributes without one.
pub open spec fn aparat_stream_result(r: Result<String, String>, attrs: JsonValue) -> bool {
    match aparat_stream(attrs) {
        Some(u) => r matches Ok(s) && s@ == u,
        None => r matches Err(e) && e@ == "No video stream found in API response"@,
    }
}

/// The stream address in the attributes of a video API answer.
pub fn extract_aparat_m3u8(attrs: &JsonValue) -> (r: Result<String, String>)
    ensures
        aparat_stream_result(r, *attrs),
{
    match json::copied_filled(json::text_of(attrs.get("hls_link"))) {
        Some(u) => {
            return Ok(u);
        },
        None => {},
    }
    match json::copied_filled(json::text_of(json::get_in(attrs.get("hls"), "link"))) {
        Some(u) => {
            return Ok(u);
        },
        None => {},
    }
    match json::copied_filled(json::text_of(attrs.get("file_link"))) {
        Some(u) => Ok(u),
        None => Err(String::from_str("No video stream found in API response")),
    }
}

/// The stream address in a movie entry of the movie API answer: the first HLS
/// playlist in `playerOption.multiSRC`, else `watch_action.movie_src` where it
/// is a non-empty string.
pub open spec fn movie_stream(movie: JsonValue) -> Option<Seq<char>> {
    json::either(
        match json::items_in(json::key_in(movie.at_key("playerOption"@), "multiSRC"@)) {
            Some(groups) => groups_stream(groups),
            None => None,
        },
        json::filled(json::str_in(json::key_in(movie.at_key("watch_action"@), "movie_src"@))),
    )
}

/// The stream address in a movie entry of the movie API answer.
pub fn extract_movie_m3u8(movie: &JsonValue) -> (r: Result<String, String>)
    ensures
        match movie_stream(*movie) {
            Some(u) => r matches Ok(s) && s@ == u,
            None => r matches Err(e) && e@ == "No video stream found in movie data"@,
        },
{
    match json::items_of(json::get_in(movie.get("playerOption"), "multiSRC")) {
        Some(groups) => {
            match stream_in_groups(groups) {
                Some(u) => {
                    return Ok(u);
                },
                None => {},
            }
        },
        None => {},
    }
    match json::copied_filled(json::text_of(json::get_in(movie.get("watch_action"), "movie_src"))) {
        Some(u) => Ok(u),
        None => Err(String::from_str("No video stream found in movie data")),
    }
}

/// A duration in seconds as a source writes it. It counts where its text
/// reads as a number, and, where `positive_only` is set, only where that
/// number is above zero.
pub struct DurationText {
    pub text: String,
    pub positive_only: bool,
}

/// What a resolved AparatKids or Aparat link gives for download.
pub struct AparatkidsResolved {
    /// The address of the HLS playlist (or, from a page, the video file).
    pub m3u8_url: String,
    pub title: Option<String>,
    pub thumbnail: Option<String>,
    /// Candidates for the duration, in order: the first that counts is the duration.
    pub duration: Vec<DurationText>,
    /// The size in bytes, where the source reports a non-zero one.
    pub filesize: Option<u64>,
    /// The non-zero bitrate from which a size is estimated, together with the
    /// duration, where no size is reported.
    pub bitrate: Option<u64>,
}

/// The texts of duration candidates, with their `positive_only` marks.
pub open spec fn duration_view(d: Seq<DurationText>) -> Seq<(Seq<char>, bool)> {
    d.map_values(|x: DurationText| (x.text@, x.positive_only))
}

/// One candidate where a text is present, none otherwise.
pub open spec fn candidate(text: Option<Seq<char>>, positive_only: bool) -> Seq<(Seq<char>, bool)> {
    match text {
        Some(t) => seq![(t, positive_only)],
        None => seq![],
    }
}

/// The first element of an optional array.
pub open spec fn first_item(items: Option<Seq<JsonValue>>) -> Option<JsonValue> {
    match items {
        Some(s) => if s.len() > 0 {
            Some(s[0])
        } else {
            None
        },
        None => None,
    }
}

/// The `data.attributes` object of a video API answer.
pub open spec fn video_attributes(doc: JsonValue) -> Option<JsonValue> {
    json::key_in(doc.at_key("data"@), "attributes"@)
}

/// The title in video attributes: `title`, where it is a string.
pub open spec fn attrs_title(attrs: JsonValue) -> Option<Seq<char>> {
    json::str_in(attrs.at_key("title"@))
}

/// The thumbnail in video attributes: the first present of `big_poster`,
/// `medium_poster` and `small_poster`, where it is a string.
pub open spec fn attrs_thumbnail(attrs: JsonValue) -> Option<Seq<char>> {
    json::str_in(
        json::either(
            attrs.at_key("big_poster"@),
            json::either(attrs.at_key("medium_poster"@), attrs.at_key("small_poster"@)),
        ),
    )
}

/// The reported size in video attributes: the first present of `filesize`
/// and `size`, where it is a non-zero unsigned integer.
pub open spec fn attrs_filesize(attrs: JsonValue) -> Option<u64> {
    json::positive(json::u64_in(json::either(attrs.at_key("filesize"@), attrs.at_key("size"@))))
}

/// The bitrate in video attributes: `bitrate`, else the `bitrate` of the first
/// of `encodings`, where it is an unsigned integer; only a non-zero one counts.
pub open spec fn attrs_bitrate(attrs: JsonValue) -> Option<u64> {
    json::positive(
        json::either(
            json::u64_in(attrs.at_key("bitrate"@)),
            json::u64_in(
                json::key_in(first_item(json::items_in(attrs.at_key("encodings"@))), "bitrate"@),
            ),
        ),
    )
}

/// Whether `res` is what video attributes say of a video or a shorts; the
/// bitrate is kept only for a video, whose size may be estimated.
pub open spec fn describes_video(res: AparatkidsResolved, attrs: JsonValue, video: bool) -> bool {
    &&& aparat_stream(attrs) == Some(res.m3u8_url@)
    &&& json::opt_chars(res.title) == attrs_title(attrs)
    &&& json::opt_chars(res.thumbnail) == attrs_thumbnail(attrs)
    &&& duration_view(res.duration@) == candidate(
        json::number_text_in(attrs.at_key("duration"@)),
        true,
    )
    &&& res.filesize == attrs_filesize(attrs)
    &&& res.bitrate == (if video {
        attrs_bitrate(attrs)
    } else {
        None
    })
}

/// Whether `r` is what the video API answer `doc` gives for a video
/// (`video`) or a shorts.
pub open spec fn video_answer_result(
    r: Result<AparatkidsResolved, String>,
    doc: JsonValue,
    video: bool,
) -> bool {
    match video_attributes(doc) {
        None => r matches Err(e) && e@ == "Invalid API response: missing video attributes"@,
        Some(attrs) => match aparat_stream(attrs) {
            None => r matches Err(e) && e@ == "No video stream found in API response"@,
            Some(_) => r matches Ok(res) && describes_video(res, attrs, video),
        },
    }
}

/// Duration candidates from an optional number: one, counting only above zero.
fn number_candidate(v: Option<&JsonValue>) -> (r: Vec<DurationText>)
    ensures
        duration_view(r@) == candidate(json::number_text_in(deref(v)), true),
{
    let mut out: Vec<DurationText> = Vec::new();
    match json::number_text_of(v) {
        Some(t) => {
            out.push(DurationText { text: t.clone(), positive_only: true });
        },
        None => {},
    }
    assert(duration_view(out@) =~= candidate(json::number_text_in(deref(v)), true));
    out
}

/// The value behind an optional reference.
pub open spec fn deref(o: Option<&JsonValue>) -> Option<JsonValue> {
    json::deref_opt(o)
}

/// The first element of an optional array.
fn first_of<'a>(items: Option<&'a Vec<JsonValue>>) -> (r: Option<&'a JsonValue>)
    ensures
        deref(r) == first_item(
            match items {
                Some(v) => Some(v@),
                None => None,
            },
        ),
{
    match items {
        Some(v) => if v.len() > 0 {
            Some(&v[0])
        } else {
            None
        },
        None => None,
    }
}

fn describe_video(attrs: &JsonValue, video: bool) -> (r: Result<AparatkidsResolved, String>)
    ensures
        match aparat_stream(*attrs) {
            None => r matches Err(e) && e@ == "No video stream found in API response"@,
            Some(_) => r matches Ok(res) && describes_video(res, *attrs, video),
        },
{
    let m3u8_url = match extract_aparat_m3u8(attrs) {
        Ok(u) => u,
        Err(e) => {
            return Err(e);
        },
    };
    let title = json::copied(json::text_of(attrs.get("title")));
    let thumbnail = json::copied(
        json::text_of(
            json::or_else(
                attrs.get("big_poster"),
                json::or_else(attrs.get("medium_poster"), attrs.get("small_poster")),
            ),
        ),
    );
    let duration = number_candidate(attrs.get("duration"));
    let filesize = json::positive_of(
        json::u64_of(json::or_else(attrs.get("filesize"), attrs.get("size"))),
    );
    let bitrate = if video {
        let direct = json::u64_of(attrs.get("bitrate"));
        let b = match direct {
            Some(b) => Some(b),
            None => json::u64_of(
                json::get_in(first_of(json::items_of(attrs.get("encodings"))), "bitrate"),
            ),
        };
        json::positive_of(b)
    } else {
        None
    };
    Ok(AparatkidsResolved { m3u8_url, title, thumbnail, duration, filesize, bitrate })
}

/// What the video API answer `doc` says of an aparat.com video.
pub fn resolve_video_answer(doc: &JsonValue) -> (r: Result<AparatkidsResolved, String>)
    ensures
        video_answer_result(r, *doc, true),
{
    match json::get_in(doc.get("data"), "attributes") {
        Some(attrs) => describe_video(attrs, true),
        None => Err(String::from_str("Invalid API response: missing video attributes")),
    }
}

/// What the video API answer `doc` says of an aparat.com shorts.
pub fn resolve_shorts_answer(doc: &JsonValue) -> (r: Result<AparatkidsResolved, String>)
    ensures
        video_answer_result(r, *doc, false),
{
    match json::get_in(doc.get("data"), "attributes") {
        Some(attrs) => describe_video(attrs, false),
        None => Err(String::from_str("Invalid API response: missing video attributes")),
    }
}

/// The first entry of `data.attributes.movieData` in a movie API answer.
pub open spec fn movie_entry(doc: JsonValue) -> Option<JsonValue> {
    first_item(
        json::items_in(
            json::key_in(json::key_in(doc.at_key("data"@), "attributes"@), "movieData"@),
        ),
    )
}

/// Whether `res` is what a movie entry says: the title is `General.title`,
/// else `General.title_fa`, the thumbnail `General.cover`, else
/// `General.thumbnails` (the first present, where it is a string); the
/// duration `playerOption.duration`, else `General.duration`; the size
/// `playerOption.filesize`, else `playerOption.size`, where non-zero.
pub open spec fn describes_movie(res: AparatkidsResolved, movie: JsonValue) -> bool {
    let general = movie.at_key("General"@);
    let player = movie.at_key("playerOption"@);
    &&& movie_stream(movie) == Some(res.m3u8_url@)
    &&& json::opt_chars(res.title) == json::str_in(
        json::either(json::key_in(general, "title"@), json::key_in(general, "title_fa"@)),
    )
    &&& json::opt_chars(res.thumbnail) == json::str_in(
        json::either(json::key_in(general, "cover"@), json::key_in(general, "thumbnails"@)),
    )
    &&& duration_view(res.duration@) == candidate(
        json::number_text_in(json::key_in(player, "duration"@)),
        true,
    ) + candidate(json::number_text_in(json::key_in(general, "duration"@)), true)
    &&& res.filesize == json::positive(
        json::u64_in(json::either(json::key_in(player, "filesize"@), json::key_in(player, "size"@))),
    )
    &&& res.bitrate is None
}

/// Whether `r` is what the movie API answer `doc` gives.
pub open spec fn movie_answer_result(r: Result<AparatkidsResolved, String>, doc: JsonValue) -> bool {
    match movie_entry(doc) {
        None => r matches Err(e) && e@ == "Invalid movie API response: no movie data"@,
        Some(movie) => match movie_stream(movie) {
            None => r matches Err(e) && e@ == "No video stream found in movie data"@,
            Some(_) => r matches Ok(res) && describes_movie(res, movie),
        },
    }
}

/// What the movie API answer `doc` says of an aparat.com movie.
pub fn resolve_movie_answer(doc: &JsonValue) -> (r: Result<AparatkidsResolved, String>)
    ensures
        movie_answer_result(r, *doc),
{
    let movie = match first_of(
        json::items_of(json::get_in(json::get_in(doc.get("data"), "attributes"), "movieData")),
    ) {
        Some(m) => m,
        None => {
            return Err(String::from_str("Invalid movie API response: no movie data"));
        },
    };
    let m3u8_url = match extract_movie_m3u8(movie) {
        Ok(u) => u,
        Err(e) => {
            return Err(e);
        },
    };
    let general = movie.get("General");
    let player = movie.get("playerOption");
    let title = json::copied(
        json::text_of(json::or_else(json::get_in(general, "title"), json::get_in(general, "title_fa"))),
    );
    let thumbnail = json::copied(
        json::text_of(
            json::or_else(json::get_in(general, "cover"), json::get_in(general, "thumbnails")),
        ),
    );
    let mut duration = number_candidate(json::get_in(player, "duration"));
    let mut fallback = number_candidate(json::get_in(general, "duration"));
    let ghost d0 = duration@;
    let ghost f0 = fallback@;
    duration.append(&mut fallback);
    assert(duration_view(duration@) =~= duration_view(d0) + duration_view(f0));
    let filesize = json::positive_of(
        json::u64_of(json::or_else(json::get_in(player, "filesize"), json::get_in(player, "size"))),
    );
    Ok(AparatkidsResolved { m3u8_url, title, thumbnail, duration, filesize, bitrate: None })
}

/// The characters of each string.
pub open spec fn strings_view(v: Seq<String>) -> Seq<Seq<char>> {
    v.map_values(|s: String| s@)
}

/// Whether an `included` item is a playlist.
pub open spec fn is_playlist_item(item: JsonValue) -> bool {
    json::str_in(item.at_key("type"@)) == Some("playlist"@)
}

/// The first playlist among `included` items.
pub open spec fn first_playlist(items: Seq<JsonValue>) -> Option<JsonValue>
    decreases items.len(),
{
    if items.len() == 0 {
        None
    } else if is_playlist_item(items[0]) {
        Some(items[0])
    } else {
        first_playlist(items.drop_first())
    }
}

/// The string `id`s of a list of references, in order; others are passed over.
pub open spec fn reference_ids(data: Seq<JsonValue>) -> Seq<Seq<char>>
    decreases data.len(),
{
    if data.len() == 0 {
        seq![]
    } else {
        reference_ids(data.drop_last()) + match json::str_in(data.last().at_key("id"@)) {
            Some(id) => seq![id],
            None => seq![],
        }
    }
}

/// The `included` items of a video API answer.
pub open spec fn included_items(doc: JsonValue) -> Option<Seq<JsonValue>> {
    json::items_in(doc.at_key("included"@))
}

/// The ids of the videos of the first playlist among the `included` items:
/// the string `id`s of its `relationships.video.data`.
pub open spec fn playlist_video_ids(doc: JsonValue) -> Seq<Seq<char>> {
    match included_items(doc) {
        Some(items) => match first_playlist(items) {
            Some(p) => match json::items_in(
                json::key_in(json::key_in(p.at_key("relationships"@), "video"@), "data"@),
            ) {
                Some(data) => reference_ids(data),
                None => seq![],
            },
            None => seq![],
        },
        None => seq![],
    }
}

/// The `attributes.uid` that an item gives to the video `id`, where its `id` is `id`.
pub open spec fn item_uid(item: JsonValue, id: Seq<char>) -> Option<Seq<char>> {
    if json::str_in(item.at_key("id"@)) == Some(id) {
        json::str_in(json::key_in(item.at_key("attributes"@), "uid"@))
    } else {
        None
    }
}

/// The uid of the video `id`: the one the last item that gives it one gives.
pub open spec fn uid_for(items: Seq<JsonValue>, id: Seq<char>) -> Option<Seq<char>>
    decreases items.len(),
{
    if items.len() == 0 {
        None
    } else {
        json::either(item_uid(items.last(), id), uid_for(items.drop_last(), id))
    }
}

/// The page of the video with uid `uid`.
pub open spec fn watch_address(uid: Seq<char>) -> Seq<char> {
    "https://www.aparat.com/v/"@ + uid
}

/// The pages of the videos `ids` that have a uid, in order.
pub open spec fn playlist_pages(ids: Seq<Seq<char>>, items: Seq<JsonValue>) -> Seq<Seq<char>>
    decreases ids.len(),
{
    if ids.len() == 0 {
        seq![]
    } else {
        playlist_pages(ids.drop_last(), items) + match uid_for(items, ids.last()) {
            Some(uid) => seq![watch_address(uid)],
            None => seq![],
        }
    }
}

/// Whether `r` is what a video API answer `doc` gives for its playlist.
pub open spec fn playlist_answer_result(r: Result<Vec<String>, String>, doc: JsonValue) -> bool {
    let ids = playlist_video_ids(doc);
    if ids.len() == 0 {
        r matches Err(e) && e@ == "No playlist entries found in API response"@
    } else {
        let pages = playlist_pages(ids, included_items(doc).unwrap());
        if pages.len() == 0 {
            r matches Err(e) && e@ == "Could not map playlist video IDs to URLs"@
        } else {
            r matches Ok(urls) && strings_view(urls@) == pages
        }
    }
}

fn find_playlist(items: &Vec<JsonValue>) -> (r: Option<&JsonValue>)
    ensures
        deref(r) == first_playlist(items@),
{
    let mut i: usize = 0;
    assert(items@.skip(0) =~= items@);
    while i < items.len()
        invariant
            i <= items@.len(),
            first_playlist(items@) == first_playlist(items@.skip(i as int)),
        decreases items@.len() - i,
    {
        assert(items@.skip(i as int)[0] == items@[i as int]);
        assert(items@.skip(i as int).drop_first() =~= items@.skip(i + 1));
        let is_playlist = match json::text_of(items[i].get("type")) {
            Some(t) => *t == String::from_str("playlist"),
            None => false,
        };
        if is_playlist {
            return Some(&items[i]);
        }
        i = i + 1;
    }
    None
}

fn ids_of(data: &Vec<JsonValue>) -> (r: Vec<String>)
    ensures
        strings_view(r@) == reference_ids(data@),
{
    let mut out: Vec<String> = Vec::new();
    let mut i: usize = 0;
    while i < data.len()
        invariant
            i <= data@.len(),
            strings_view(out@) == reference_ids(data@.take(i as int)),
        decreases data@.len() - i,
    {
        assert(data@.take(i + 1).drop_last() =~= data@.take(i as int));
        assert(data@.take(i + 1).last() == data@[i as int]);
        match json::text_of(data[i].get("id")) {
            Some(id) => {
                out.push(id.clone());
            },
            None => {},
        }
        assert(strings_view(out@) =~= reference_ids(data@.take(i + 1)));
        i = i + 1;
    }
    assert(data@.take(data@.len() as int) =~= data@);
    out
}

fn uid_in(items: &Vec<JsonValue>, id: &String) -> (r: Option<String>)
    ensures
        json::opt_chars(r) == uid_for(items@, id@),
{
    let mut i: usize = items.len();
    assert(items@.take(i as int) =~= items@);
    while i > 0
        invariant
            i <= items@.len(),
            uid_for(items@, id@) == uid_for(items@.take(i as int), id@),
        decreases i,
    {
        assert(items@.take(i as int).drop_last() =~= items@.take(i - 1));
        assert(items@.take(i as int).last() == items@[i - 1]);
        let item = &items[i - 1];
        match json::text_of(item.get("id")) {
            Some(x) => {
                if *x == *id {
                    match json::copied(json::text_of(json::get_in(item.get("attributes"), "uid"))) {
                        Some(uid) => {
                            return Some(uid);
                        },
                        None => {},
                    }
                }
            },
            None => {},
        }
        i = i - 1;
    }
    None
}

/// The pages of the videos of the playlist that a video API answer lists.
pub fn playlist_video_urls(doc: &JsonValue) -> (r: Result<Vec<String>, String>)
    ensures
        playlist_answer_result(r, *doc),
{
    let included = json::items_of(doc.get("included"));
    let ids: Vec<String> = match included {
        Some(items) => match find_playlist(items) {
            Some(p) => match json::items_of(
                json::get_in(json::get_in(p.get("relationships"), "video"), "data"),
            ) {
                Some(data) => ids_of(data),
                None => Vec::new(),
            },
            None => Vec::new(),
        },
        None => Vec::new(),
    };
    assert(strings_view(ids@) =~= playlist_video_ids(*doc));
    if ids.len() == 0 {
        return Err(String::from_str("No playlist entries found in API response"));
    }
    let items = match included {
        Some(items) => items,
        None => {
            return Err(String::from_str("No playlist entries found in API response"));
        },
    };
    let mut urls: Vec<String> = Vec::new();
    let mut i: usize = 0;
    while i < ids.len()
        invariant
            i <= ids@.len(),
            strings_view(urls@) == playlist_pages(strings_view(ids@).take(i as int), items@),
        decreases ids@.len() - i,
    {
        let ghost before = strings_view(ids@).take(i as int);
        assert(strings_view(ids@).take(i + 1).drop_last() =~= before);
        assert(strings_view(ids@).take(i + 1).last() == ids@[i as int]@);
        match uid_in(items, &ids[i]) {
            Some(uid) => {
                let mut page = String::from_str("https://www.aparat.com/v/");
                page.append(uid.as_str());
                urls.push(page);
            },
            None => {},
        }
        assert(strings_view(urls@) =~= playlist_pages(strings_view(ids@).take(i + 1), items@));
        i = i + 1;
    }
    assert(strings_view(ids@).take(ids@.len() as int) =~= strings_view(ids@));
    if urls.len() == 0 {
        return Err(String::from_str("Could not map playlist video IDs to URLs"));
    }
    Ok(urls)
}

/// The `player_data` object that an AparatKids page assigns in its script.
pub const PLAYER_DATA_PATTERN: &'static str = r"var\s+player_data\s*=\s*(\{.+?\})\s*;";

/// The `og:video` meta tag of a page.
pub const OG_VIDEO_PATTERN: &'static str = r#"<meta\s+(?:property|name)=["']og:video["']\s+content=["']([^"']+)["']"#;

/// The `og:image` meta tag of a page.
pub const OG_IMAGE_PATTERN: &'static str = r#"<meta\s+(?:property|name)=["']og:image["']\s+content=["']([^"']+)["']"#;

/// The `video:duration` meta tag of a page.
pub const DURATION_META_PATTERN: &'static str = r#"<meta\s+(?:property|name)=["']video:duration["']\s+content=["'](\d+)["']"#;

/// The `title` element of a page.
pub const TITLE_PATTERN: &'static str = r"<title>\s*(.+?)\s*</title>";

/// What comes before the field name in a `uxEvents.movie` assignment.
pub const UX_FIELD_PREFIX: &'static str = r#"uxEvents\.movie\."#;

/// What comes after the field name in a `uxEvents.movie` assignment.
pub const UX_FIELD_SUFFIX: &'static str = r#"\s*=\s*['"]([^'"]+)['"]"#;

/// The title AparatKids gives pages that have no title of their own.
pub const GENERIC_PAGE_TITLE: &'static str = "آپارات کودک";

/// The HLS playlist in the `player_data` of a page: its JSON must read, and
/// hold a `multiSRC` array.
pub open spec fn player_data_stream(html: Seq<char>) -> Option<Seq<char>> {
    match pattern::pattern_group(PLAYER_DATA_PATTERN@, html) {
        Some(text) => match json::json_read(text) {
            Ok(data) => match json::items_in(data.at_key("multiSRC"@)) {
                Some(groups) => groups_stream(groups),
                None => None,
            },
            Err(_) => None,
        },
        None => None,
    }
}

/// The HLS playlist in the `player_data` of a page.
pub fn extract_from_player_data(html: &str) -> (r: Option<String>)
    ensures
        json::opt_chars(r) == player_data_stream(html@),
{
    let text = match pattern::first_group(PLAYER_DATA_PATTERN, html) {
        Some(t) => t,
        None => {
            return None;
        },
    };
    let data = match json::parse_document(text.as_str()) {
        Ok(d) => d,
        Err(_) => {
            return None;
        },
    };
    match json::items_of(data.get("multiSRC")) {
        Some(groups) => stream_in_groups(groups),
        None => None,
    }
}

/// The `og:video` address of a page, where it names an HLS playlist or an MP4 file.
pub open spec fn og_video_stream(html: Seq<char>) -> Option<Seq<char>> {
    match pattern::pattern_group(OG_VIDEO_PATTERN@, html) {
        Some(u) => if text::has_sub(u, "m3u8"@) || text::has_sub(u, ".mp4"@) {
            Some(u)
        } else {
            None
        },
        None => None,
    }
}

/// The `og:video` address of a page, where it names an HLS playlist or an MP4 file.
pub fn extract_from_og_video(html: &str) -> (r: Option<String>)
    ensures
        json::opt_chars(r) == og_video_stream(html@),
{
    match pattern::first_group(OG_VIDEO_PATTERN, html) {
        Some(u) => if text::contains(u.as_str(), "m3u8") || text::contains(u.as_str(), ".mp4") {
            Some(u)
        } else {
            None
        },
        None => None,
    }
}

/// The stream of a page: from its `player_data`, else from its `og:video` tag.
pub open spec fn page_stream(html: Seq<char>) -> Option<Seq<char>> {
    json::either(player_data_stream(html), og_video_stream(html))
}

/// The stream of an AparatKids page.
pub fn extract_m3u8_url(html: &str) -> (r: Option<String>)
    ensures
        json::opt_chars(r) == page_stream(html@),
{
    match extract_from_player_data(html) {
        Some(u) => Some(u),
        None => extract_from_og_video(html),
    }
}

/// The pattern of the assignment to `uxEvents.movie.<field>`.
pub open spec fn ux_field_pattern(field: Seq<char>) -> Seq<char> {
    UX_FIELD_PREFIX@ + field + UX_FIELD_SUFFIX@
}

/// A captured text without surrounding white space, where something is left.
pub open spec fn trimmed_filled(o: Option<Seq<char>>) -> Option<Seq<char>> {
    match o {
        Some(v) => json::filled(Some(text::trimmed(v))),
        None => None,
    }
}

/// The value a page assigns to `uxEvents.movie.<field>`, trimmed, where it is not empty.
pub open spec fn ux_field(html: Seq<char>, field: Seq<char>) -> Option<Seq<char>> {
    trimmed_filled(pattern::pattern_group(ux_field_pattern(field), html))
}

fn trimmed_copy(o: Option<String>) -> (r: Option<String>)
    ensures
        json::opt_chars(r) == trimmed_filled(json::opt_chars(o)),
{
    match o {
        Some(v) => {
            let t = text::trim(v.as_str());
            if t.as_str().is_empty() {
                None
            } else {
                Some(t)
            }
        },
        None => None,
    }
}

/// The value a page assigns to `uxEvents.movie.<field>`.
pub fn extract_ux_event_field(html: &str, field: &str) -> (r: Option<String>)
    ensures
        json::opt_chars(r) == ux_field(html@, field@),
{
    let mut pattern = String::from_str(UX_FIELD_PREFIX);
    pattern.append(field);
    pattern.append(UX_FIELD_SUFFIX);
    trimmed_copy(pattern::first_group(pattern.as_str(), html))
}

/// The `title` element of a page, trimmed, unless it is empty or the generic AparatKids title.
pub open spec fn title_element(html: Seq<char>) -> Option<Seq<char>> {
    match pattern::pattern_group(TITLE_PATTERN@, html) {
        Some(t) => {
            let t = text::trimmed(t);
            if t.len() == 0 || t == GENERIC_PAGE_TITLE@ {
                None
            } else {
                Some(t)
            }
        },
        None => None,
    }
}

/// The title of a page: its Persian name, else its English name, else its
/// `title` element.
pub open spec fn page_title(html: Seq<char>) -> Option<Seq<char>> {
    json::either(
        ux_field(html, "nameFa"@),
        json::either(ux_field(html, "nameEn"@), title_element(html)),
    )
}

/// The title of an AparatKids page.
pub fn extract_title(html: &str) -> (r: Option<String>)
    ensures
        json::opt_chars(r) == page_title(html@),
{
    match extract_ux_event_field(html, "nameFa") {
        Some(name) => {
            return Some(name);
        },
        None => {},
    }
    match extract_ux_event_field(html, "nameEn") {
        Some(name) => {
            return Some(name);
        },
        None => {},
    }
    match pattern::first_group(TITLE_PATTERN, html) {
        Some(t) => {
            let t = text::trim(t.as_str());
            if t.as_str().is_empty() || t == String::from_str(GENERIC_PAGE_TITLE) {
                None
            } else {
                Some(t)
            }
        },
        None => None,
    }
}

/// The thumbnail of a page: its `poster`, else its `og:image`, trimmed and not empty.
pub open spec fn page_thumbnail(html: Seq<char>) -> Option<Seq<char>> {
    json::either(
        ux_field(html, "poster"@),
        trimmed_filled(pattern::pattern_group(OG_IMAGE_PATTERN@, html)),
    )
}

/// The thumbnail of an AparatKids page.
pub fn extract_thumbnail(html: &str) -> (r: Option<String>)
    ensures
        json::opt_chars(r) == page_thumbnail(html@),
{
    match extract_ux_event_field(html, "poster") {
        Some(poster) => Some(poster),
        None => trimmed_copy(pattern::first_group(OG_IMAGE_PATTERN, html)),
    }
}

/// The duration candidates of a page: its `totalDuration`, counting above
/// zero only, then its `video:duration` tag, counting whatever it reads as.
pub open spec fn page_durations(html: Seq<char>) -> Seq<(Seq<char>, bool)> {
    candidate(ux_field(html, "totalDuration"@), true) + candidate(
        pattern::pattern_group(DURATION_META_PATTERN@, html),
        false,
    )
}

/// The duration candidates of an AparatKids page.
pub fn extract_duration_texts(html: &str) -> (r: Vec<DurationText>)
    ensures
        duration_view(r@) == page_durations(html@),
{
    let mut out: Vec<DurationText> = Vec::new();
    match extract_ux_event_field(html, "totalDuration") {
        Some(t) => {
            out.push(DurationText { text: t, positive_only: true });
        },
        None => {},
    }
    let ghost first = duration_view(out@);
    assert(first =~= candidate(ux_field(html@, "totalDuration"@), true));
    match pattern::first_group(DURATION_META_PATTERN, html) {
        Some(t) => {
            out.push(DurationText { text: t, positive_only: false });
        },
        None => {},
    }
    assert(duration_view(out@) =~= page_durations(html@));
    out
}

/// Whether `r` is what an AparatKids page says of its video, or the error for
/// a page without a stream.
pub open spec fn page_answer_result(r: Result<AparatkidsResolved, String>, html: Seq<char>) -> bool {
    match page_stream(html) {
        None => r matches Err(e) && e@ == "Failed to extract video URL from page"@,
        Some(u) => r matches Ok(res) && {
            &&& res.m3u8_url@ == u
            &&& json::opt_chars(res.title) == page_title(html)
            &&& json::opt_chars(res.thumbnail) == page_thumbnail(html)
            &&& duration_view(res.duration@) == page_durations(html)
            &&& res.filesize is None
            &&& res.bitrate is None
        },
    }
}

/// What an AparatKids page says of its video.
pub fn resolve_aparatkids_page(html: &str) -> (r: Result<AparatkidsResolved, String>)
    ensures
        page_answer_result(r, html@),
{
    let m3u8_url = match extract_m3u8_url(html) {
        Some(u) => u,
        None => {
            return Err(String::from_str("Failed to extract video URL from page"));
        },
    };
    let title = extract_title(html);
    let thumbnail = extract_thumbnail(html);
    let duration = extract_duration_texts(html);
    Ok(AparatkidsResolved { m3u8_url, title, thumbnail, duration, filesize: None, bitrate: None })
}

/// Each link the detector accepts is routed to one resolver, and the page
/// resolver is handed only AparatKids pages and aparat.com watch pages.
pub proof fn lemma_accepted_links_route_to_a_resolver(url: Seq<char>)
    ensures
        link_kind(url) != AparatLinkKind::KidsPage ==> is_aparat_link(url),
        is_aparat_link(url) && link_kind(url) == AparatLinkKind::KidsPage ==> pattern::pattern_matches(
            APARATKIDS_URL_PATTERN@,
            url,
        ) || pattern::pattern_matches(APARAT_WATCH_PATTERN@, url),
{
}

proof fn lemma_stream_link_not_empty(u: Seq<char>)
    requires
        is_stream_link(u) || text::has_sub(u, ".mp4"@),
    ensures
        u.len() > 0,
{
    reveal_strlit("m3u8");
    reveal_strlit(".m3u8");
    reveal_strlit(".mp4");
}

proof fn lemma_group_stream_is_link(entries: Seq<JsonValue>)
    ensures
        group_stream(entries) matches Some(u) ==> is_stream_link(u),
    decreases entries.len(),
{
    if entries.len() > 0 {
        lemma_group_stream_is_link(entries.drop_first());
    }
}

proof fn lemma_groups_stream_is_link(groups: Seq<JsonValue>)
    ensures
        groups_stream(groups) matches Some(u) ==> is_stream_link(u),
    decreases groups.len(),
{
    if groups.len() > 0 {
        lemma_groups_stream_is_link(groups.drop_first());
        match groups[0].array_items() {
            Some(entries) => lemma_group_stream_is_link(entries),
            None => {},
        }
    }
}

/// Every stream address the resolvers give is a non-empty text: from the
/// attributes of a video API answer, from a movie entry, and from a page;
/// one taken from a source list names an HLS playlist.
pub proof fn lemma_resolved_streams_not_empty(attrs: JsonValue, movie: JsonValue, html: Seq<char>)
    ensures
        aparat_stream(attrs) matches Some(u) ==> u.len() > 0,
        movie_stream(movie) matches Some(u) ==> u.len() > 0,
        page_stream(html) matches Some(u) ==> u.len() > 0,
        player_data_stream(html) matches Some(u) ==> is_stream_link(u),
{
    match json::items_in(json::key_in(movie.at_key("playerOption"@), "multiSRC"@)) {
        Some(groups) => {
            lemma_groups_stream_is_link(groups);
            if let Some(u) = groups_stream(groups) {
                lemma_stream_link_not_empty(u);
            }
        },
        None => {},
    }
    match pattern::pattern_group(PLAYER_DATA_PATTERN@, html) {
        Some(t) => match json::json_read(t) {
            Ok(data) => match json::items_in(data.at_key("multiSRC"@)) {
                Some(groups) => {
                    lemma_groups_stream_is_link(groups);
                    if let Some(u) = groups_stream(groups) {
                        lemma_stream_link_not_empty(u);
                    }
                },
                None => {},
            },
            Err(_) => {},
        },
        None => {},
    }
    if let Some(u) = og_video_stream(html) {
        lemma_stream_link_not_empty(u);
    }
}

/// A playlist gives at most one page per listed video, and each page is an
/// aparat.com watch page.
pub proof fn lemma_playlist_pages_are_watch_pages(ids: Seq<Seq<char>>, items: Seq<JsonValue>)
    ensures
        playlist_pages(ids, items).len() <= ids.len(),
        forall|i: int|
            0 <= i < playlist_pages(ids, items).len() ==> "https://www.aparat.com/v/"@.is_prefix_of(
                #[trigger] playlist_pages(ids, items)[i],
            ),
    decreases ids.len(),
{
    if ids.len() > 0 {
        lemma_playlist_pages_are_watch_pages(ids.drop_last(), items);
        let before = playlist_pages(ids.drop_last(), items);
        match uid_for(items, ids.last()) {
            Some(uid) => {
                let page = watch_address(uid);
                assert("https://www.aparat.com/v/"@.is_prefix_of(page)) by {
                    assert(page.subrange(0, "https://www.aparat.com/v/"@.len() as int)
                        =~= "https://www.aparat.com/v/"@);
                }
                assert forall|i: int|
                    0 <= i < playlist_pages(ids, items).len() implies "https://www.aparat.com/v/"@.is_prefix_of(
                    #[trigger] playlist_pages(ids, items)[i],
                ) by {
                    if i < before.len() {
                        assert(playlist_pages(ids, items)[i] == before[i]);
                    } else {
                        assert(playlist_pages(ids, items)[i] == page);
                    }
                }
            },
            None => {
                assert(playlist_pages(ids, items) =~= before);
            },
        }
    }
}

proof fn lemma_trimmed_filled_is_trimmed(o: Option<Seq<char>>)
    ensures
        trimmed_filled(o) matches Some(t) ==> t.len() > 0 && text::trimmed(t) == t,
{
    if let Some(v) = o {
        text::lemma_trimmed_is_trimmed(v);
    }
}

/// The title and thumbnail read from a page, and each `uxEvents.movie`
/// value, are non-empty and carry no surrounding white space; a title
/// element never gives the generic AparatKids title.
pub proof fn lemma_page_texts_are_trimmed(html: Seq<char>, field: Seq<char>)
    ensures
        ux_field(html, field) matches Some(t) ==> t.len() > 0 && text::trimmed(t) == t,
        page_title(html) matches Some(t) ==> t.len() > 0 && text::trimmed(t) == t,
        page_thumbnail(html) matches Some(t) ==> t.len() > 0 && text::trimmed(t) == t,
        title_element(html) matches Some(t) ==> t != GENERIC_PAGE_TITLE@,
{
    lemma_trimmed_filled_is_trimmed(pattern::pattern_group(ux_field_pattern(field), html));
    lemma_trimmed_filled_is_trimmed(pattern::pattern_group(ux_field_pattern("nameFa"@), html));
    lemma_trimmed_filled_is_trimmed(pattern::pattern_group(ux_field_pattern("nameEn"@), html));
    lemma_trimmed_filled_is_trimmed(pattern::pattern_group(ux_field_pattern("poster"@), html));
    lemma_trimmed_filled_is_trimmed(pattern::pattern_group(OG_IMAGE_PATTERN@, html));
    if let Some(t) = pattern::pattern_group(TITLE_PATTERN@, html) {
        text::lemma_trimmed_is_trimmed(t);
    }
}

/// The `src` of a source entry, where it is a string that names an HLS
/// playlist (holds `m3u8`).
pub open spec fn hls_src(entry: JsonValue) -> Option<Seq<char>> {
    match json::str_in(entry.at_key("src"@)) {
        Some(u) => if text::has_sub(u, "m3u8"@) {
            Some(u)
        } else {
            None
        },
        None => None,
    }
}

/// Whether no entry of a source group names an HLS playlist; a value that is
/// not an array holds no entries.
pub open spec fn group_without_hls(group: JsonValue) -> bool {
    match group.array_items() {
        Some(entries) => forall|e: int| 0 <= e < entries.len() ==> (#[trigger] hls_src(entries[e])) is None,
        None => true,
    }
}

proof fn lemma_entry_stream_is_hls_src(entry: JsonValue)
    ensures
        entry_stream(entry) == hls_src(entry),
{
    reveal_strlit("m3u8");
    reveal_strlit(".m3u8");
    if let Some(u) = json::str_in(entry.at_key("src"@)) {
        if text::has_sub(u, ".m3u8"@) {
            let i = choose|i: int|
                0 <= i && i + ".m3u8"@.len() <= u.len() && #[trigger] u.subrange(
                    i,
                    i + ".m3u8"@.len(),
                ) == ".m3u8"@;
            assert(u.subrange(i + 1, i + 1 + "m3u8"@.len()) =~= "m3u8"@) by {
                assert forall|k: int| 0 <= k < 4 implies u.subrange(i + 1, i + 5)[k] == "m3u8"@[k] by {
                    assert(u.subrange(i, i + 5)[k + 1] == ".m3u8"@[k + 1]);
                }
            }
        }
    }
}

proof fn lemma_group_stream_first(entries: Seq<JsonValue>, e: int, u: Seq<char>)
    requires
        0 <= e < entries.len(),
        hls_src(entries[e]) == Some(u),
        forall|k: int| 0 <= k < e ==> (#[trigger] hls_src(entries[k])) is None,
    ensures
        group_stream(entries) == Some(u),
    decreases e,
{
    lemma_entry_stream_is_hls_src(entries[0]);
    if e > 0 {
        let rest = entries.drop_first();
        assert forall|k: int| 0 <= k < e - 1 implies (#[trigger] hls_src(rest[k])) is None by {
            assert(rest[k] == entries[k + 1]);
        }
        assert(rest[e - 1] == entries[e]);
        lemma_group_stream_first(rest, e - 1, u);
    }
}

proof fn lemma_group_stream_none(entries: Seq<JsonValue>)
    requires
        forall|k: int| 0 <= k < entries.len() ==> (#[trigger] hls_src(entries[k])) is None,
    ensures
        group_stream(entries) is None,
    decreases entries.len(),
{
    if entries.len() > 0 {
        lemma_entry_stream_is_hls_src(entries[0]);
        let rest = entries.drop_first();
        assert forall|k: int| 0 <= k < rest.len() implies (#[trigger] hls_src(rest[k])) is None by {
            assert(rest[k] == entries[k + 1]);
        }
        lemma_group_stream_none(rest);
    }
}

proof fn lemma_group_stream_found(entries: Seq<JsonValue>, e: int)
    requires
        0 <= e < entries.len(),
        hls_src(entries[e]) is Some,
    ensures
        group_stream(entries) is Some,
    decreases e,
{
    lemma_entry_stream_is_hls_src(entries[0]);
    if e > 0 {
        let rest = entries.drop_first();
        assert(rest[e - 1] == entries[e]);
        lemma_group_stream_found(rest, e - 1);
    }
}

/// The stream of a `multiSRC` list is the first source entry, scanning the
/// groups in order and each group's entries in order, whose `src` names an
/// HLS playlist: groups before it, and entries before it in its group, hold
/// none.
pub proof fn law_groups_stream_is_first_hls_src(groups: Seq<JsonValue>, g: int, e: int, u: Seq<char>)
    requires
        0 <= g < groups.len(),
        groups[g].array_items() matches Some(entries) && 0 <= e < entries.len() && hls_src(entries[e])
            == Some(u) && forall|k: int| 0 <= k < e ==> (#[trigger] hls_src(entries[k])) is None,
        forall|h: int| 0 <= h < g ==> group_without_hls(#[trigger] groups[h]),
    ensures
        groups_stream(groups) == Some(u),
    decreases g,
{
    if g == 0 {
        lemma_group_stream_first(groups[0].array_items().unwrap(), e, u);
    } else {
        assert(group_without_hls(groups[0]));
        if let Some(entries) = groups[0].array_items() {
            lemma_group_stream_none(entries);
        }
        let rest = groups.drop_first();
        assert(rest[g - 1] == groups[g]);
        assert forall|h: int| 0 <= h < g - 1 implies group_without_hls(#[trigger] rest[h]) by {
            assert(rest[h] == groups[h + 1]);
        }
        law_groups_stream_is_first_hls_src(rest, g - 1, e, u);
    }
}

/// Where some source entry of some group of a `multiSRC` list, at any
/// position, names an HLS playlist, a stream is found; where none does, none is.
pub proof fn law_groups_stream_found_iff_some_hls_src(groups: Seq<JsonValue>, g: int, e: int)
    ensures
        0 <= g < groups.len() && (groups[g].array_items() matches Some(entries) && 0 <= e
            < entries.len() && hls_src(entries[e]) is Some) ==> groups_stream(groups) is Some,
        (forall|h: int| 0 <= h < groups.len() ==> group_without_hls(#[trigger] groups[h]))
            ==> groups_stream(groups) is None,
    decreases groups.len(),
{
    if groups.len() > 0 {
        let rest = groups.drop_first();
        law_groups_stream_found_iff_some_hls_src(rest, g - 1, e);
        if 0 <= g < groups.len() && (groups[g].array_items() matches Some(entries) && 0 <= e
            < entries.len() && hls_src(entries[e]) is Some) {
            if g == 0 {
                lemma_group_stream_found(groups[0].array_items().unwrap(), e);
            } else {
                assert(rest[g - 1] == groups[g]);
            }
        }
        if forall|h: int| 0 <= h < groups.len() ==> group_without_hls(#[trigger] groups[h]) {
            assert(group_without_hls(groups[0]));
            if let Some(entries) = groups[0].array_items() {
                lemma_group_stream_none(entries);
            }
            assert forall|h: int| 0 <= h < rest.len() implies group_without_hls(#[trigger] rest[h]) by {
                assert(rest[h] == groups[h + 1]);
            }
        }
    }
}

/// The stream of video attributes follows the order `hls_link`, `hls.link`,
/// `file_link`, each counting only where it is a non-empty string; with none
/// of them there is no stream.
pub proof fn law_aparat_stream_order(r: Result<String, String>, attrs: JsonValue)
    requires
        aparat_stream_result(r, attrs),
    ensures
        json::filled(json::str_in(attrs.at_key("hls_link"@))) is Some ==> (r matches Ok(s) && Some(s@) == json::filled(json::str_in(attrs.at_key("hls_link"@)))),
        json::filled(json::str_in(attrs.at_key("hls_link"@))) is None && json::filled(json::str_in(json::key_in(attrs.at_key("hls"@), "link"@))) is Some ==> (r matches Ok(s) && Some(s@) == json::filled(json::str_in(json::key_in(attrs.at_key("hls"@), "link"@)))),
        json::filled(json::str_in(attrs.at_key("hls_link"@))) is None && json::filled(json::str_in(json::key_in(attrs.at_key("hls"@), "link"@))) is None && json::filled(json::str_in(attrs.at_key("file_link"@))) is Some ==> (r matches Ok(s) && Some(s@) == json::filled(json::str_in(attrs.at_key("file_link"@)))),
        json::filled(json::str_in(attrs.at_key("hls_link"@))) is None && json::filled(json::str_in(json::key_in(attrs.at_key("hls"@), "link"@))) is None && json::filled(json::str_in(attrs.at_key("file_link"@))) is None ==> r is Err,
{
}

/// What a video API answer gives, stated field by field over its
/// `data.attributes`: the stream in the order `hls_link`, `hls.link`,
/// `file_link`; the `title`; the first present of `big_poster`,
/// `medium_poster`, `small_poster` as thumbnail; the `duration` number as the
/// only duration candidate; the first present of `filesize` and `size` as the
/// size where it is a non-zero integer; and, for a video only, `bitrate`, else
/// the first encoding's, where non-zero.
pub proof fn law_video_answer_fields(
    r: Result<AparatkidsResolved, String>,
    doc: JsonValue,
    video: bool,
    attrs: JsonValue,
    res: AparatkidsResolved,
)
    requires
        video_answer_result(r, doc, video),
    ensures
        json::key_in(doc.at_key("data"@), "attributes"@) is None ==> r is Err,
        json::key_in(doc.at_key("data"@), "attributes"@) == Some(attrs) ==> {
            &&& json::filled(json::str_in(attrs.at_key("hls_link"@))) is Some ==> (r matches Ok(x) && Some(x.m3u8_url@) == json::filled(json::str_in(attrs.at_key("hls_link"@))))
            &&& json::filled(json::str_in(attrs.at_key("hls_link"@))) is None && json::filled(json::str_in(json::key_in(attrs.at_key("hls"@), "link"@))) is Some ==> (r matches Ok(x) && Some(x.m3u8_url@) == json::filled(json::str_in(json::key_in(attrs.at_key("hls"@), "link"@))))
            &&& json::filled(json::str_in(attrs.at_key("hls_link"@))) is None && json::filled(json::str_in(json::key_in(attrs.at_key("hls"@), "link"@))) is None && json::filled(json::str_in(attrs.at_key("file_link"@))) is Some ==> (r matches Ok(x) && Some(x.m3u8_url@)
                == json::filled(json::str_in(attrs.at_key("file_link"@))))
            &&& json::filled(json::str_in(attrs.at_key("hls_link"@))) is None && json::filled(json::str_in(json::key_in(attrs.at_key("hls"@), "link"@))) is None && json::filled(json::str_in(attrs.at_key("file_link"@))) is None ==> r is Err
        },
        json::key_in(doc.at_key("data"@), "attributes"@) == Some(attrs) && r == Ok::<
            AparatkidsResolved,
            String,
        >(res) ==> {
            &&& json::opt_chars(res.title) == json::str_in(attrs.at_key("title"@))
            &&& attrs.at_key("big_poster"@) is Some ==> json::opt_chars(res.thumbnail)
                == attrs.at_key("big_poster"@).unwrap().str_value()
            &&& attrs.at_key("big_poster"@) is None && attrs.at_key("medium_poster"@) is Some
                ==> json::opt_chars(res.thumbnail) == attrs.at_key("medium_poster"@).unwrap().str_value()
            &&& attrs.at_key("big_poster"@) is None && attrs.at_key("medium_poster"@) is None
                ==> json::opt_chars(res.thumbnail) == json::str_in(attrs.at_key("small_poster"@))
            &&& json::number_text_in(attrs.at_key("duration"@)) is Some ==> res.duration@.len() == 1
                && Some(res.duration@[0].text@) == json::number_text_in(attrs.at_key("duration"@))
                && res.duration@[0].positive_only
            &&& json::number_text_in(attrs.at_key("duration"@)) is None ==> res.duration@.len() == 0
            &&& attrs.at_key("filesize"@) is Some ==> res.filesize == (match attrs.at_key("filesize"@).unwrap().u64_value() {
                    Some(n) => if n > 0 {
                        Some(n)
                    } else {
                        None
                    },
                    None => None,
                })
            &&& attrs.at_key("filesize"@) is None ==> res.filesize == (match json::u64_in(attrs.at_key("size"@)) {
                    Some(n) => if n > 0 {
                        Some(n)
                    } else {
                        None
                    },
                    None => None,
                })
            &&& !video ==> res.bitrate is None
            &&& video && json::u64_in(attrs.at_key("bitrate"@)) is Some ==> res.bitrate == (match json::u64_in(attrs.at_key("bitrate"@)) {
                    Some(n) => if n > 0 {
                        Some(n)
                    } else {
                        None
                    },
                    None => None,
                })
            &&& video && json::u64_in(attrs.at_key("bitrate"@)) is None && json::items_in(
                attrs.at_key("encodings"@),
            ) is Some && json::items_in(attrs.at_key("encodings"@)).unwrap().len() > 0
                ==> res.bitrate == (match json::u64_in(json::items_in(attrs.at_key("encodings"@)).unwrap()[0].at_key("bitrate"@)) {
                    Some(n) => if n > 0 {
                        Some(n)
                    } else {
                        None
                    },
                    None => None,
                })
            &&& video && json::u64_in(attrs.at_key("bitrate"@)) is None && !(json::items_in(
                attrs.at_key("encodings"@),
            ) is Some && json::items_in(attrs.at_key("encodings"@)).unwrap().len() > 0)
                ==> res.bitrate is None
        },
{
    if json::key_in(doc.at_key("data"@), "attributes"@) == Some(attrs) && r == Ok::<
        AparatkidsResolved,
        String,
    >(res) {
        let d = duration_view(res.duration@);
        assert(d.len() == res.duration@.len());
        if res.duration@.len() > 0 {
            assert(d[0] == (res.duration@[0].text@, res.duration@[0].positive_only));
        }
    }
}

/// The stream that a movie's `multiSRC` list gives, if any.
pub open spec fn multi_src_stream(groups: Option<Seq<JsonValue>>) -> Option<Seq<char>> {
    match groups {
        Some(g) => groups_stream(g),
        None => None,
    }
}

/// What a movie API answer gives, stated over the first entry of its
/// `data.attributes.movieData`: none is an error; the stream is the one of
/// `playerOption.multiSRC`, else `watch_action.movie_src` where non-empty;
/// the title is `General.title`, with `General.title_fa` only where `title`
/// is absent; the thumbnail is `General.cover`, with `General.thumbnails`
/// only where `cover` is absent; the duration candidates are
/// `playerOption.duration` then `General.duration`; the size is
/// `playerOption.filesize`, else `playerOption.size`, where non-zero.
pub proof fn law_movie_answer_fields(
    r: Result<AparatkidsResolved, String>,
    doc: JsonValue,
    movies: Seq<JsonValue>,
    res: AparatkidsResolved,
)
    requires
        movie_answer_result(r, doc),
        json::items_in(json::key_in(json::key_in(doc.at_key("data"@), "attributes"@), "movieData"@))
            == Some(movies),
    ensures
        movies.len() == 0 ==> r is Err,
        movies.len() > 0 && multi_src_stream(json::items_in(json::key_in(movies[0].at_key("playerOption"@), "multiSRC"@))) is Some ==> (r matches Ok(x) && Some(x.m3u8_url@)
            == multi_src_stream(json::items_in(json::key_in(movies[0].at_key("playerOption"@), "multiSRC"@)))),
        movies.len() > 0 && multi_src_stream(json::items_in(json::key_in(movies[0].at_key("playerOption"@), "multiSRC"@))) is None && json::filled(json::str_in(json::key_in(movies[0].at_key("watch_action"@), "movie_src"@))) is Some ==> (r matches Ok(x)
            && Some(x.m3u8_url@) == json::filled(json::str_in(json::key_in(movies[0].at_key("watch_action"@), "movie_src"@)))),
        movies.len() > 0 && multi_src_stream(json::items_in(json::key_in(movies[0].at_key("playerOption"@), "multiSRC"@))) is None && json::filled(json::str_in(json::key_in(movies[0].at_key("watch_action"@), "movie_src"@))) is None ==> r is Err,
        movies.len() > 0 && r == Ok::<AparatkidsResolved, String>(res) ==> {
            &&& json::key_in(movies[0].at_key("General"@), "title"@) is Some ==> json::opt_chars(res.title) == json::key_in(
                movies[0].at_key("General"@),
                "title"@,
            ).unwrap().str_value()
            &&& json::key_in(movies[0].at_key("General"@), "title"@) is None ==> json::opt_chars(res.title) == json::str_in(
                json::key_in(movies[0].at_key("General"@), "title_fa"@),
            )
            &&& json::key_in(movies[0].at_key("General"@), "cover"@) is Some ==> json::opt_chars(res.thumbnail) == json::key_in(
                movies[0].at_key("General"@),
                "cover"@,
            ).unwrap().str_value()
            &&& json::key_in(movies[0].at_key("General"@), "cover"@) is None ==> json::opt_chars(res.thumbnail) == json::str_in(
                json::key_in(movies[0].at_key("General"@), "thumbnails"@),
            )
            &&& json::number_text_in(json::key_in(movies[0].at_key("playerOption"@), "duration"@)) is Some ==> res.duration@.len() >= 1
                && Some(res.duration@[0].text@) == json::number_text_in(json::key_in(movies[0].at_key("playerOption"@), "duration"@))
                && res.duration@[0].positive_only
            &&& json::number_text_in(json::key_in(movies[0].at_key("General"@), "duration"@)) is Some ==> res.duration@.len() >= 1
                && Some(res.duration@.last().text@) == json::number_text_in(json::key_in(movies[0].at_key("General"@), "duration"@))
                && res.duration@.last().positive_only
            &&& res.duration@.len() == (if json::number_text_in(json::key_in(movies[0].at_key("playerOption"@), "duration"@)) is Some {
                1int
            } else {
                0int
            }) + (if json::number_text_in(json::key_in(movies[0].at_key("General"@), "duration"@)) is Some {
                1int
            } else {
                0int
            })
            &&& json::key_in(movies[0].at_key("playerOption"@), "filesize"@) is Some ==> res.filesize == (match json::key_in(movies[0].at_key("playerOption"@), "filesize"@).unwrap().u64_value() {
                Some(n) => if n > 0 {
                    Some(n)
                } else {
                    None
                },
                None => None,
            })
            &&& json::key_in(movies[0].at_key("playerOption"@), "filesize"@) is None ==> res.filesize == (match json::u64_in(json::key_in(movies[0].at_key("playerOption"@), "size"@)) {
                Some(n) => if n > 0 {
                    Some(n)
                } else {
                    None
                },
                None => None,
            })
            &&& res.bitrate is None
        },
{
    if movies.len() > 0 && r == Ok::<AparatkidsResolved, String>(res) {
        let d = duration_view(res.duration@);
        assert(d.len() == res.duration@.len());
        if res.duration@.len() > 0 {
            assert(d[0] == (res.duration@[0].text@, res.duration@[0].positive_only));
            assert(d.last() == (res.duration@.last().text@, res.duration@.last().positive_only));
        }
    }
}

/// The uid that the items give the video `id` is the `attributes.uid` string
/// of the last item whose `id` is `id` and that has such a uid: some item
/// gives it, and no later one gives any.
pub proof fn law_uid_is_given_by_last_item(items: Seq<JsonValue>, id: Seq<char>)
    ensures
        uid_for(items, id) is None <==> forall|k: int| 0 <= k < items.len() ==> (#[trigger] item_uid(items[k], id)) is None,
        uid_for(items, id) is Some ==> exists|k: int|
            0 <= k < items.len() && #[trigger] item_uid(items[k], id) == uid_for(items, id) && forall|
                j: int,
            |
                k < j < items.len() ==> (#[trigger] item_uid(items[j], id)) is None,
    decreases items.len(),
{
    if items.len() > 0 {
        let rest = items.drop_last();
        law_uid_is_given_by_last_item(rest, id);
        assert forall|k: int| 0 <= k < rest.len() implies rest[k] == items[k] by {}
        if item_uid(items.last(), id) is Some {
            assert(item_uid(items[items.len() - 1], id) == uid_for(items, id));
        } else if uid_for(rest, id) is Some {
            let k = choose|k: int|
                0 <= k < rest.len() && #[trigger] item_uid(rest[k], id) == uid_for(rest, id) && forall|
                    j: int,
                |
                    k < j < rest.len() ==> (#[trigger] item_uid(rest[j], id)) is None;
            assert(item_uid(items[k], id) == uid_for(items, id));
            assert forall|j: int| k < j < items.len() implies (#[trigger] item_uid(items[j], id)) is None by {
                if j < rest.len() {
                    assert(item_uid(rest[j], id) is None);
                }
            }
        } else {
            assert forall|k: int| 0 <= k < items.len() implies (#[trigger] item_uid(items[k], id)) is None by {
                if k < rest.len() {
                    assert(item_uid(rest[k], id) is None);
                }
            }
        }
    }
}

proof fn lemma_pages_of_mapped_ids(ids: Seq<Seq<char>>, items: Seq<JsonValue>)
    requires
        forall|j: int| 0 <= j < ids.len() ==> (#[trigger] uid_for(items, ids[j])) is Some,
    ensures
        playlist_pages(ids, items).len() == ids.len(),
        forall|j: int|
            0 <= j < ids.len() ==> #[trigger] playlist_pages(ids, items)[j] == watch_address(
                uid_for(items, ids[j]).unwrap(),
            ),
    decreases ids.len(),
{
    if ids.len() > 0 {
        let front = ids.drop_last();
        assert forall|j: int| 0 <= j < front.len() implies (#[trigger] uid_for(items, front[j])) is Some by {
            assert(front[j] == ids[j]);
        }
        lemma_pages_of_mapped_ids(front, items);
        assert(uid_for(items, ids[ids.len() - 1]) is Some);
        assert forall|j: int| 0 <= j < ids.len() implies #[trigger] playlist_pages(ids, items)[j]
            == watch_address(uid_for(items, ids[j]).unwrap()) by {
            if j < front.len() {
                assert(front[j] == ids[j]);
                assert(playlist_pages(front, items)[j] == watch_address(uid_for(items, front[j]).unwrap()));
            }
        }
    }
}

/// Where every video the playlist lists has a uid among the included items,
/// the playlist gives one page per listed video, in the listed order: the
/// watch page of that video's uid, the last listed video's page last.
pub proof fn law_playlist_gives_a_page_per_listed_video(r: Result<Vec<String>, String>, doc: JsonValue)
    requires
        playlist_answer_result(r, doc),
        playlist_video_ids(doc).len() > 0,
        forall|j: int|
            0 <= j < playlist_video_ids(doc).len() ==> (#[trigger] uid_for(
                included_items(doc).unwrap(),
                playlist_video_ids(doc)[j],
            )) is Some,
    ensures
        r matches Ok(urls) && urls@.len() == playlist_video_ids(doc).len() && forall|j: int|
            0 <= j < urls@.len() ==> (#[trigger] urls@[j])@ == "https://www.aparat.com/v/"@ + uid_for(
                included_items(doc).unwrap(),
                playlist_video_ids(doc)[j],
            ).unwrap(),
{
    let ids = playlist_video_ids(doc);
    let items = included_items(doc).unwrap();
    lemma_pages_of_mapped_ids(ids, items);
    if let Ok(urls) = r {
        assert forall|j: int| 0 <= j < urls@.len() implies (#[trigger] urls@[j])@
            == "https://www.aparat.com/v/"@ + uid_for(items, ids[j]).unwrap() by {
            assert(strings_view(urls@)[j] == urls@[j]@);
        }
    }
}

/// A page whose `player_data` reads as JSON with a `multiSRC` list that
/// names an HLS playlist resolves to that stream; only where it gives none
/// does the `og:video` tag count, and only where it names an HLS playlist or
/// an MP4 file.
pub proof fn law_page_stream_prefers_player_data(r: Result<AparatkidsResolved, String>, html: Seq<char>)
    requires
        page_answer_result(r, html),
    ensures
        pattern::pattern_group(PLAYER_DATA_PATTERN@, html) is Some && json::json_read(pattern::pattern_group(PLAYER_DATA_PATTERN@, html).unwrap()) is Ok && multi_src_stream(
            json::items_in(json::json_read(pattern::pattern_group(PLAYER_DATA_PATTERN@, html).unwrap())->Ok_0.at_key("multiSRC"@)),
        ) is Some ==> (r matches Ok(x) && Some(x.m3u8_url@) == multi_src_stream(
            json::items_in(json::json_read(pattern::pattern_group(PLAYER_DATA_PATTERN@, html).unwrap())->Ok_0.at_key("multiSRC"@)),
        )),
        player_data_stream(html) is None && pattern::pattern_group(OG_VIDEO_PATTERN@, html) is Some && (
        text::has_sub(pattern::pattern_group(OG_VIDEO_PATTERN@, html).unwrap(), "m3u8"@) || text::has_sub(
            pattern::pattern_group(OG_VIDEO_PATTERN@, html).unwrap(),
            ".mp4"@,
        )) ==> (r matches Ok(x) && Some(x.m3u8_url@) == pattern::pattern_group(OG_VIDEO_PATTERN@, html)),
        player_data_stream(html) is None && !(pattern::pattern_group(OG_VIDEO_PATTERN@, html) is Some && (
        text::has_sub(pattern::pattern_group(OG_VIDEO_PATTERN@, html).unwrap(), "m3u8"@) || text::has_sub(
            pattern::pattern_group(OG_VIDEO_PATTERN@, html).unwrap(),
            ".mp4"@,
        ))) ==> r is Err,
{
}

/// An item gives a uid to the video `id` exactly where its `id` is the
/// string `id` and its `attributes.uid` is a string, and that string is the uid.
pub proof fn law_item_uid_needs_matching_id(item: JsonValue, id: Seq<char>)
    ensures
        item_uid(item, id) is Some <==> json::str_in(item.at_key("id"@)) == Some(id) && json::str_in(
            json::key_in(item.at_key("attributes"@), "uid"@),
        ) is Some,
        item_uid(item, id) is Some ==> item_uid(item, id) == json::str_in(
            json::key_in(item.at_key("attributes"@), "uid"@),
        ),
{
}

/// The videos a playlist answer lists are those of the first `included`
/// item whose `type` is the string `playlist`: the string `id`s of its
/// `relationships.video.data`, in order. Where every reference there has a
/// string `id`, there is one id per reference.
pub proof fn law_playlist_ids_come_from_first_playlist(doc: JsonValue, k: int, data: Seq<JsonValue>)
    requires
        included_items(doc) matches Some(items) && 0 <= k < items.len() && json::str_in(
            items[k].at_key("type"@),
        ) == Some("playlist"@) && forall|j: int|
            0 <= j < k ==> json::str_in((#[trigger] items[j]).at_key("type"@)) != Some("playlist"@),
        json::items_in(
            json::key_in(
                json::key_in(included_items(doc).unwrap()[k].at_key("relationships"@), "video"@),
                "data"@,
            ),
        ) == Some(data),
    ensures
        playlist_video_ids(doc).len() <= data.len(),
        (forall|j: int| 0 <= j < data.len() ==> (#[trigger] json::str_in(data[j].at_key("id"@))) is Some)
            ==> playlist_video_ids(doc).len() == data.len() && forall|j: int|
            0 <= j < data.len() ==> Some(#[trigger] playlist_video_ids(doc)[j]) == json::str_in(
                data[j].at_key("id"@),
            ),
{
    let items = included_items(doc).unwrap();
    lemma_first_playlist_at(items, k);
    lemma_reference_ids_shape(data);
}

proof fn lemma_first_playlist_at(items: Seq<JsonValue>, k: int)
    requires
        0 <= k < items.len(),
        json::str_in(items[k].at_key("type"@)) == Some("playlist"@),
        forall|j: int| 0 <= j < k ==> json::str_in((#[trigger] items[j]).at_key("type"@)) != Some("playlist"@),
    ensures
        first_playlist(items) == Some(items[k]),
    decreases k,
{
    if k > 0 {
        let rest = items.drop_first();
        assert(json::str_in(items[0].at_key("type"@)) != Some("playlist"@));
        assert forall|j: int| 0 <= j < k - 1 implies json::str_in((#[trigger] rest[j]).at_key("type"@))
            != Some("playlist"@) by {
            assert(rest[j] == items[j + 1]);
        }
        assert(rest[k - 1] == items[k]);
        lemma_first_playlist_at(rest, k - 1);
    }
}

proof fn lemma_reference_ids_shape(data: Seq<JsonValue>)
    ensures
        reference_ids(data).len() <= data.len(),
        (forall|j: int| 0 <= j < data.len() ==> (#[trigger] json::str_in(data[j].at_key("id"@))) is Some)
            ==> reference_ids(data).len() == data.len() && forall|j: int|
            0 <= j < data.len() ==> Some(#[trigger] reference_ids(data)[j]) == json::str_in(
                data[j].at_key("id"@),
            ),
    decreases data.len(),
{
    if data.len() > 0 {
        let front = data.drop_last();
        lemma_reference_ids_shape(front);
        if forall|j: int| 0 <= j < data.len() ==> (#[trigger] json::str_in(data[j].at_key("id"@))) is Some {
            assert forall|j: int| 0 <= j < front.len() implies (#[trigger] json::str_in(
                front[j].at_key("id"@),
            )) is Some by {
                assert(front[j] == data[j]);
            }
            assert(json::str_in(data[data.len() - 1].at_key("id"@)) is Some);
            assert forall|j: int| 0 <= j < data.len() implies Some(#[trigger] reference_ids(data)[j])
                == json::str_in(data[j].at_key("id"@)) by {
                if j < front.len() {
                    assert(front[j] == data[j]);
                    assert(Some(reference_ids(front)[j]) == json::str_in(front[j].at_key("id"@)));
                }
            }
        }
    }
}

/// The title of a page is its `uxEvents.movie.nameFa`, else its `nameEn`,
/// else its `title` element, each trimmed and counting only where something
/// is left; a `title` element that is the generic AparatKids title gives none.
/// The thumbnail is its `poster`, else its `og:image`, in the same way.
pub proof fn law_page_title_and_thumbnail_order(r: Result<AparatkidsResolved, String>, html: Seq<char>, res: AparatkidsResolved)
    requires
        page_answer_result(r, html),
        r == Ok::<AparatkidsResolved, String>(res),
    ensures
        pattern::pattern_group(ux_field_pattern("nameFa"@), html) is Some && text::trimmed(pattern::pattern_group(ux_field_pattern("nameFa"@), html).unwrap()).len() > 0 ==> json::opt_chars(
            res.title,
        ) == Some(text::trimmed(pattern::pattern_group(ux_field_pattern("nameFa"@), html).unwrap())),
        !(pattern::pattern_group(ux_field_pattern("nameFa"@), html) is Some && text::trimmed(pattern::pattern_group(ux_field_pattern("nameFa"@), html).unwrap()).len() > 0) && pattern::pattern_group(ux_field_pattern("nameEn"@), html) is Some
            && text::trimmed(pattern::pattern_group(ux_field_pattern("nameEn"@), html).unwrap()).len() > 0 ==> json::opt_chars(res.title) == Some(
            text::trimmed(pattern::pattern_group(ux_field_pattern("nameEn"@), html).unwrap()),
        ),
        !(pattern::pattern_group(ux_field_pattern("nameFa"@), html) is Some && text::trimmed(pattern::pattern_group(ux_field_pattern("nameFa"@), html).unwrap()).len() > 0) && !(pattern::pattern_group(ux_field_pattern("nameEn"@), html) is Some
            && text::trimmed(pattern::pattern_group(ux_field_pattern("nameEn"@), html).unwrap()).len() > 0) ==> json::opt_chars(res.title) == (
        match pattern::pattern_group(TITLE_PATTERN@, html) {
            Some(t) => if text::trimmed(t).len() == 0 || text::trimmed(t) == "آپارات کودک"@ {
                None
            } else {
                Some(text::trimmed(t))
            },
            None => None,
        }),
        pattern::pattern_group(ux_field_pattern("poster"@), html) is Some && text::trimmed(pattern::pattern_group(ux_field_pattern("poster"@), html).unwrap()).len() > 0 ==> json::opt_chars(
            res.thumbnail,
        ) == Some(text::trimmed(pattern::pattern_group(ux_field_pattern("poster"@), html).unwrap())),
        !(pattern::pattern_group(ux_field_pattern("poster"@), html) is Some && text::trimmed(pattern::pattern_group(ux_field_pattern("poster"@), html).unwrap()).len() > 0) ==> json::opt_chars(
            res.thumbnail,
        ) == (match pattern::pattern_group(OG_IMAGE_PATTERN@, html) {
            Some(t) => if text::trimmed(t).len() > 0 {
                Some(text::trimmed(t))
            } else {
                None
            },
            None => None,
        }),
{
}

} // verus!
