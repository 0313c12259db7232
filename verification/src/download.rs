//! Turning user input into yt-dlp jobs: search queries, link kinds, download
//! strategies and the wording of download errors.
use vstd::prelude::*;

use crate::json::{
    member, member_or, parse_json_bytes, parse_json_text, text_member, text_member_or, text_of, items_of,
    json_from_bytes, json_from_text, JsonValue, JsonView,
};
use crate::text::{
    string_from_utf8_lossy, utf8_lossy, lemma_find, occurs_at,
    ends_with_str, lines, lines_chars, replace_all, replace_chars, second_piece, second_piece_chars, strip_prefix,
    strip_prefix_chars, pieces, split_char, join, split_char_chars, join_chars, contains_piece, str_eq, contains, contains_str, lowered, starts_with_str, to_lowercase, chars_eq_ignore_ascii_case, chars_of, eq_ignore_ascii_case, find, find_chars, first_piece,
    first_piece_chars, push_chars, push_str, split_once, split_once_chars, string_from_chars,
    to_owned, trim, trim_chars, trim_end_matches, trim_end_matches_chars, trimmed,
};

verus! {

/// Settings keys for the download preferences.
pub const SETTING_COOKIES_BROWSER: &'static str = "cookies_browser";
pub const SETTING_COOKIES_FILE: &'static str = "cookies_file";
pub const SETTING_DOWNLOAD_FORMAT: &'static str = "download_format";

/// The quality preset used when none is stored.
pub const DEFAULT_DOWNLOAD_FORMAT: &'static str = "auto";

/// yt-dlp format and player-client arguments of the first strategy tried.
pub const BOT_YT_FORMAT: &'static str = "bestaudio[ext=m4a]/bestaudio/best";
pub const BOT_YT_CLIENT: &'static str = "youtube:player_client=mweb,ios,android";

/// One track to fetch.
pub struct ResolvedItem {
    pub title: String,
    pub artist: String,
    pub source_url: String,
    pub source_kind: String,
    pub ytdlp_query: String,
}

/// The collection a batch of items came from.
pub struct PlaylistMeta {
    pub title: String,
    pub artist: String,
    pub source_url: String,
    pub source_kind: String,
    pub cover_url: Option<String>,
}

/// The items one input expanded to, with the playlist they belong to.
pub struct ResolvedBatch {
    pub playlist: Option<PlaylistMeta>,
    pub items: Vec<ResolvedItem>,
}

/// Browser name or cookies file path for YouTube auth.
pub struct YtAuth<'a> {
    pub browser: Option<&'a str>,
    pub cookies_file: Option<&'a str>,
}

/// What a finished download produced.
pub struct DownloadResult {
    pub path: String,
    pub title: String,
    pub artist: String,
    pub cover_path: Option<String>,
    pub duration_ms: Option<i64>,
}

// ---------------------------------------------------------------------------
// Titles, artists and search queries
// ---------------------------------------------------------------------------

/// Separator between title and artist in Spotify page titles.
pub open spec fn lyrics_sep() -> Seq<char> {
    " - song and lyrics by "@
}

/// A raw title with whitespace and a trailing " | Spotify" removed.
pub open spec fn normalized_title(raw: Seq<char>) -> Seq<char> {
    trim(trim_end_matches(trim(raw), " | Spotify"@))
}

/// `title - song and lyrics by artist`, when the separator occurs exactly once.
pub open spec fn lyrics_split(r: Seq<char>) -> Option<(Seq<char>, Seq<char>)> {
    match split_once(r, lyrics_sep()) {
        Some((a, rest)) => if find(rest, lyrics_sep()) is None {
            Some((trim(a), trim(rest)))
        } else {
            None
        },
        None => None,
    }
}

/// `title <sep> artist [<sep> ...]`, when both parts are present and the
/// artist is not "Spotify".
pub open spec fn sep_split(r: Seq<char>, sep: Seq<char>) -> Option<(Seq<char>, Seq<char>)> {
    match split_once(r, sep) {
        Some((t, rest)) => {
            let title = trim(t);
            let artist = trim(trim_end_matches(trim(first_piece(rest, sep)), " Spotify"@));
            if title.len() > 0 && artist.len() > 0 && !eq_ignore_ascii_case(artist, "spotify"@) {
                Some((title, artist))
            } else {
                None
            }
        },
        None => None,
    }
}

/// The title and, when the raw title names one, the artist.
pub open spec fn title_artist(raw: Seq<char>) -> (Seq<char>, Option<Seq<char>>) {
    let r = normalized_title(raw);
    match lyrics_split(r) {
        Some((t, a)) => (t, Some(a)),
        None => match sep_split(r, " · "@) {
            Some((t, a)) => (t, Some(a)),
            None => match sep_split(r, " – "@) {
                Some((t, a)) => (t, Some(a)),
                None => match sep_split(r, " — "@) {
                    Some((t, a)) => (t, Some(a)),
                    None => match sep_split(r, " - "@) {
                        Some((t, a)) => (t, Some(a)),
                        None => (r, None),
                    },
                },
            },
        },
    }
}

fn sep_split_exec(r: &Vec<char>, sep: &str) -> (out: Option<(Vec<char>, Vec<char>)>)
    ensures
        match out {
            Some((t, a)) => sep_split(r@, sep@) == Some((t@, a@)),
            None => sep_split(r@, sep@) is None,
        },
{
    let sv = chars_of(sep);
    match split_once_chars(r, &sv) {
        Some((t, rest)) => {
            let title = trim_chars(&t);
            let piece = first_piece_chars(&rest, sep);
            let piece = trim_chars(&piece);
            let piece = trim_end_matches_chars(&piece, " Spotify");
            let artist = trim_chars(&piece);
            let spotify = chars_of("spotify");
            if title.len() > 0 && artist.len() > 0 && !chars_eq_ignore_ascii_case(
                &artist,
                &spotify,
            ) {
                Some((title, artist))
            } else {
                None
            }
        },
        None => None,
    }
}

/// Splits a Spotify-style title into title and artist, e.g.
/// "Song · Artist · Spotify" or "Song - song and lyrics by Artist | Spotify".
pub fn split_title_artist(raw: &str) -> (out: (String, Option<String>))
    ensures
        out.0@ == title_artist(raw@).0,
        match out.1 {
            Some(a) => title_artist(raw@).1 == Some(a@),
            None => title_artist(raw@).1 is None,
        },
{
    let t = trimmed(raw);
    let t = trim_end_matches_chars(&t, " | Spotify");
    let r = trim_chars(&t);
    let lyrics = chars_of(" - song and lyrics by ");
    match split_once_chars(&r, &lyrics) {
        Some((a, rest)) => {
            if find_chars(&rest, &lyrics).is_none() {
                let ta = trim_chars(&a);
                let tr = trim_chars(&rest);
                return (string_from_chars(&ta), Some(string_from_chars(&tr)));
            }
        },
        None => {},
    }
    if let Some((t, a)) = sep_split_exec(&r, " · ") {
        return (string_from_chars(&t), Some(string_from_chars(&a)));
    }
    if let Some((t, a)) = sep_split_exec(&r, " – ") {
        return (string_from_chars(&t), Some(string_from_chars(&a)));
    }
    if let Some((t, a)) = sep_split_exec(&r, " — ") {
        return (string_from_chars(&t), Some(string_from_chars(&a)));
    }
    if let Some((t, a)) = sep_split_exec(&r, " - ") {
        return (string_from_chars(&t), Some(string_from_chars(&a)));
    }
    (string_from_chars(&r), None)
}

/// An artist field that names no real artist.
pub open spec fn placeholder_artist(artist: Seq<char>) -> bool {
    let t = trim(artist);
    ||| t.len() == 0
    ||| eq_ignore_ascii_case(t, "unknown artist"@)
    ||| eq_ignore_ascii_case(t, "spotify"@)
    ||| eq_ignore_ascii_case(t, "various artists"@)
}

/// Whether `artist` is blank or a stand-in such as "Unknown artist".
pub fn is_placeholder_artist(artist: &str) -> (r: bool)
    ensures
        r == placeholder_artist(artist@),
{
    let t = trimmed(artist);
    t.len() == 0 || chars_eq_ignore_ascii_case(&t, &chars_of("unknown artist"))
        || chars_eq_ignore_ascii_case(&t, &chars_of("spotify")) || chars_eq_ignore_ascii_case(
        &t,
        &chars_of("various artists"),
    )
}

/// The yt-dlp search for a title and artist.
pub open spec fn search_query(title: Seq<char>, artist: Seq<char>) -> Seq<char> {
    let (clean_title, from_title) = title_artist(title);
    let a = if placeholder_artist(artist) {
        match from_title {
            Some(x) => x,
            None => Seq::empty(),
        }
    } else {
        trim(artist)
    };
    if a.len() == 0 {
        "ytsearch1:"@ + clean_title
    } else {
        "ytsearch1:"@ + clean_title + " "@ + a
    }
}

/// A yt-dlp search for the first YouTube result for `title artist`.
pub fn youtube_search_query(title: &str, artist: &str) -> (q: String)
    ensures
        q@ == search_query(title@, artist@),
        "ytsearch1:"@.is_prefix_of(q@),
{
    let (clean_title, from_title) = split_title_artist(title);
    let a: Vec<char> = if is_placeholder_artist(artist) {
        match from_title {
            Some(x) => chars_of(x.as_str()),
            None => Vec::new(),
        }
    } else {
        trimmed(artist)
    };
    let mut out: Vec<char> = Vec::new();
    push_str(&mut out, "ytsearch1:");
    push_str(&mut out, clean_title.as_str());
    if a.len() > 0 {
        push_str(&mut out, " ");
        push_chars(&mut out, &a);
    }
    proof {
        assert(out@.subrange(0, "ytsearch1:"@.len() as int) =~= "ytsearch1:"@);
    }
    string_from_chars(&out)
}

/// The query handed to yt-dlp for a stored track.
pub open spec fn download_query(
    source_kind: Seq<char>,
    title: Seq<char>,
    artist: Seq<char>,
    source_url: Option<Seq<char>>,
    stored: Option<Seq<char>>,
) -> Seq<char> {
    if stored is Some && trim(stored->0).len() > 0 {
        trim(stored->0)
    } else if eq_ignore_ascii_case(source_kind, "spotify"@) {
        search_query(title, artist)
    } else {
        match source_url {
            Some(u) => u,
            None => Seq::empty(),
        }
    }
}

/// Query to hand to yt-dlp. Prefers the stored search string, so that a
/// Spotify track is retried as a YouTube search and never as its Spotify URL.
pub fn resolve_download_query(
    source_kind: &str,
    title: &str,
    artist: &str,
    source_url: Option<&str>,
    stored: Option<&str>,
) -> (q: String)
    ensures
        q@ == download_query(
            source_kind@,
            title@,
            artist@,
            match source_url {
                Some(u) => Some(u@),
                None => None,
            },
            match stored {
                Some(s) => Some(s@),
                None => None,
            },
        ),
        eq_ignore_ascii_case(source_kind@, "spotify"@) && (stored is None || trim(
            stored->0@,
        ).len() == 0) ==> "ytsearch1:"@.is_prefix_of(q@),
{
    if let Some(s) = stored {
        let t = trimmed(s);
        if t.len() > 0 {
            return string_from_chars(&t);
        }
    }
    let kind = chars_of(source_kind);
    if chars_eq_ignore_ascii_case(&kind, &chars_of("spotify")) {
        return youtube_search_query(title, artist);
    }
    match source_url {
        Some(u) => to_owned(u),
        None => String::new(),
    }
}

/// A Spotify track as a job: the title is cleaned, a placeholder artist is
/// replaced by the one named in the title, and the query searches YouTube.
pub fn spotify_item(title: String, artist: String, source_url: String) -> (item: ResolvedItem)
    ensures
        item.title@ == title_artist(title@).0,
        item.artist@ == (if placeholder_artist(artist@) && title_artist(title@).1 is Some {
            title_artist(title@).1->0
        } else {
            artist@
        }),
        item.source_url@ == source_url@,
        item.source_kind@ == "spotify"@,
        item.ytdlp_query@ == search_query(item.title@, item.artist@),
{
    let (clean_title, from_title) = split_title_artist(title.as_str());
    let artist = if is_placeholder_artist(artist.as_str()) {
        match from_title {
            Some(a) => a,
            None => artist,
        }
    } else {
        artist
    };
    let ytdlp_query = youtube_search_query(clean_title.as_str(), artist.as_str());
    ResolvedItem {
        title: clean_title,
        artist,
        source_url,
        source_kind: to_owned("spotify"),
        ytdlp_query,
    }
}

/// A Spotify track is fetched by searching YouTube for its title and artist:
/// its query is a `ytsearch1:` search and never its Spotify link.
pub proof fn law_spotify_searches_youtube(title: Seq<char>, artist: Seq<char>, link: Seq<char>)
    requires
        "https://"@.is_prefix_of(link) || "spotify:"@.is_prefix_of(link),
    ensures
        "ytsearch1:"@.is_prefix_of(search_query(title, artist)),
        search_query(title, artist) != link,
{
    reveal_strlit("ytsearch1:");
    reveal_strlit("https://");
    reveal_strlit("spotify:");
    reveal_strlit(" ");
    let q = search_query(title, artist);
    let (clean_title, from_title) = title_artist(title);
    let a = if placeholder_artist(artist) {
        match from_title {
            Some(x) => x,
            None => Seq::<char>::empty(),
        }
    } else {
        trim(artist)
    };
    if a.len() == 0 {
        assert(q == "ytsearch1:"@ + clean_title);
    } else {
        assert(q == "ytsearch1:"@ + clean_title + " "@ + a);
    }
    assert(q[0] == 'y');
    assert("ytsearch1:"@ =~= q.subrange(0, 10));
    if "https://"@.is_prefix_of(link) {
        assert("https://"@ =~= link.subrange(0, 8));
        assert(link.subrange(0, 8)[0] == link[0]);
        assert(link[0] == 'h');
    } else {
        assert("spotify:"@ =~= link.subrange(0, 8));
        assert(link.subrange(0, 8)[0] == link[0]);
        assert(link[0] == 's');
    }
}

// ---------------------------------------------------------------------------
// Download errors
// ---------------------------------------------------------------------------

pub const MSG_BOT_BLOCKED: &'static str = "YouTube blocked this download. In ⋮ Settings: pick the browser where you are logged into YouTube, or import a cookies.txt file (same as most Discord bots use).";
pub const MSG_BROWSER_COOKIES: &'static str = "Could not read browser cookies. Try another browser in Settings, or sign into YouTube in that browser first.";
pub const MSG_NO_FORMAT: &'static str = "Could not find a downloadable audio stream for this video. Make sure YouTube login is set in Settings, then retry. If it still fails, the video may be region-locked or age-restricted.";

/// A bot check is always answered with the advice to set up cookies, and
/// an error that names no known cause is shown as it came, after
/// "Download failed: ".
pub proof fn law_download_error_messages(raw: Seq<char>, lower: Seq<char>)
    ensures
        contains(lower, "sign in to confirm"@) || contains(lower, "not a bot"@) ==> friendly_error(raw, lower)
            == MSG_BOT_BLOCKED@,
        !contains(lower, "sign in to confirm"@) && !contains(lower, "not a bot"@) && !contains(
            lower,
            "cookies"@,
        ) && !contains(lower, "format is not available"@) && !contains(
            lower,
            "requested format is not available"@,
        ) ==> friendly_error(raw, lower) == "Download failed: "@ + raw,
{
}

/// The message shown for a yt-dlp error `raw` whose lower-cased text is `lower`.
pub open spec fn friendly_error(raw: Seq<char>, lower: Seq<char>) -> Seq<char> {
    if contains(lower, "sign in to confirm"@) || contains(lower, "not a bot"@) {
        MSG_BOT_BLOCKED@
    } else if contains(lower, "cookies"@) && contains(lower, "browser"@) {
        MSG_BROWSER_COOKIES@
    } else if contains(lower, "requested format is not available"@) || contains(
        lower,
        "format is not available"@,
    ) {
        MSG_NO_FORMAT@
    } else {
        "Download failed: "@ + raw
    }
}

/// The message for a yt-dlp error, given the error and its lower-cased text.
pub fn friendly_error_from(raw: &str, lower: &str) -> (m: String)
    ensures
        m@ == friendly_error(raw@, lower@),
{
    let l = chars_of(lower);
    if contains_str(&l, "sign in to confirm") || contains_str(&l, "not a bot") {
        return to_owned(MSG_BOT_BLOCKED);
    }
    if contains_str(&l, "cookies") && contains_str(&l, "browser") {
        return to_owned(MSG_BROWSER_COOKIES);
    }
    if contains_str(&l, "requested format is not available") || contains_str(
        &l,
        "format is not available",
    ) {
        return to_owned(MSG_NO_FORMAT);
    }
    let mut out: Vec<char> = Vec::new();
    push_str(&mut out, "Download failed: ");
    push_str(&mut out, raw);
    string_from_chars(&out)
}

/// A user-facing message for a yt-dlp error: sign-in, cookie and format
/// failures get advice, anything else is reported as it came.
pub fn friendly_download_error(raw: &str) -> (m: String)
    ensures
        m@ == friendly_error(raw@, lowered(raw@)),
{
    let lower = to_lowercase(raw);
    friendly_error_from(raw, lower.as_str())
}

/// yt-dlp could not find a usable format (given the lower-cased error).
pub open spec fn format_error(lower: Seq<char>) -> bool {
    ||| contains(lower, "format is not available"@)
    ||| contains(lower, "requested format"@)
    ||| contains(lower, "no video formats"@)
    ||| contains(lower, "no formats found"@)
    ||| contains(lower, "only images are available"@)
    ||| contains(lower, "nesting violation"@)
}

/// Another strategy may succeed where this one failed (given the lower-cased error).
pub open spec fn retryable_error(lower: Seq<char>) -> bool {
    ||| format_error(lower)
    ||| contains(lower, "unable to extract"@)
    ||| contains(lower, "failed to extract"@)
    ||| contains(lower, "javascript runtime"@)
    ||| contains(lower, "sign in to confirm"@)
    ||| contains(lower, "not a bot"@)
}

/// A download that YouTube stopped as a bot check, or whose page or player
/// could not be read, or that found no usable format, is retryable: given
/// its lower-cased error, `retry_with_next` tries the next strategy
/// whenever one is left.
pub proof fn law_bot_checks_are_retried(lower: Seq<char>)
    ensures
        contains(lower, "sign in to confirm"@) ==> retryable_error(lower),
        contains(lower, "not a bot"@) ==> retryable_error(lower),
        contains(lower, "unable to extract"@) ==> retryable_error(lower),
        contains(lower, "failed to extract"@) ==> retryable_error(lower),
        contains(lower, "javascript runtime"@) ==> retryable_error(lower),
        contains(lower, "requested format"@) ==> retryable_error(lower),
{
}

/// Whether a lower-cased yt-dlp error says no usable format was found.
pub fn format_error_in(lower: &str) -> (r: bool)
    ensures
        r == format_error(lower@),
{
    let l = chars_of(lower);
    contains_str(&l, "format is not available") || contains_str(&l, "requested format")
        || contains_str(&l, "no video formats") || contains_str(&l, "no formats found")
        || contains_str(&l, "only images are available") || contains_str(&l, "nesting violation")
}

/// Whether a lower-cased yt-dlp error is worth retrying with another strategy.
pub fn retryable_error_in(lower: &str) -> (r: bool)
    ensures
        r == retryable_error(lower@),
{
    let l = chars_of(lower);
    format_error_in(lower) || contains_str(&l, "unable to extract") || contains_str(
        &l,
        "failed to extract",
    ) || contains_str(&l, "javascript runtime") || contains_str(&l, "sign in to confirm")
        || contains_str(&l, "not a bot")
}

/// Whether a yt-dlp error says no usable format was found.
pub fn is_format_error(raw: &str) -> (r: bool)
    ensures
        r == format_error(lowered(raw@)),
{
    let lower = to_lowercase(raw);
    format_error_in(lower.as_str())
}

/// Whether a yt-dlp error is worth retrying with another strategy.
pub fn is_retryable_download_error(raw: &str) -> (r: bool)
    ensures
        r == retryable_error(lowered(raw@)),
{
    let lower = to_lowercase(raw);
    retryable_error_in(lower.as_str())
}

// ---------------------------------------------------------------------------
// Links
// ---------------------------------------------------------------------------

/// A Spotify web link or URI.
pub fn is_spotify_url(input: &str) -> (r: bool)
    ensures
        r == (contains(input@, "open.spotify.com"@) || "spotify:"@.is_prefix_of(input@)),
{
    let v = chars_of(input);
    contains_str(&v, "open.spotify.com") || starts_with_str(&v, "spotify:")
}

/// An http(s) link rather than a search phrase.
pub fn looks_like_url(input: &str) -> (r: bool)
    ensures
        r == ("http://"@.is_prefix_of(input@) || "https://"@.is_prefix_of(input@)),
{
    let v = chars_of(input);
    starts_with_str(&v, "http://") || starts_with_str(&v, "https://")
}

/// The source kind recorded for a YouTube link.
pub open spec fn url_kind(input: Seq<char>) -> Seq<char> {
    if contains(input, "music.youtube.com"@) {
        "youtube-music"@
    } else {
        "youtube"@
    }
}

/// "youtube-music" for YouTube Music links, "youtube" otherwise.
pub fn kind_from_url(input: &str) -> (k: String)
    ensures
        k@ == url_kind(input@),
{
    let v = chars_of(input);
    if contains_str(&v, "music.youtube.com") {
        to_owned("youtube-music")
    } else {
        to_owned("youtube")
    }
}

/// A lower-cased link names a playlist and not a single video.
pub open spec fn playlist_url(lower: Seq<char>) -> bool {
    let has_video = contains(lower, "/watch"@) && (contains(lower, "v="@) || contains(
        lower,
        "/watch/"@,
    ));
    !has_video && (contains(lower, "/playlist"@) || contains(lower, "/browse/vl"@) || contains(
        lower,
        "list="@,
    ) || contains(lower, "/album/"@))
}

/// A link to a single video is never expanded as a playlist, even when it
/// carries a `list=` parameter; a link to a playlist page, or with a
/// `list=` parameter and no video, is.
pub proof fn law_video_link_is_not_a_playlist(lower: Seq<char>)
    ensures
        contains(lower, "/watch"@) && contains(lower, "v="@) ==> !playlist_url(lower),
        !contains(lower, "/watch"@) && (contains(lower, "/playlist"@) || contains(lower, "list="@))
            ==> playlist_url(lower),
{
}

/// Whether a lower-cased link names a playlist.
pub fn playlist_url_in(lower: &str) -> (r: bool)
    ensures
        r == playlist_url(lower@),
        contains(lower@, "/watch"@) && contains(lower@, "v="@) ==> !r,
{
    let l = chars_of(lower);
    let has_video = contains_str(&l, "/watch") && (contains_str(&l, "v=") || contains_str(
        &l,
        "/watch/",
    ));
    if has_video {
        return false;
    }
    contains_str(&l, "/playlist") || contains_str(&l, "/browse/vl") || contains_str(&l, "list=")
        || contains_str(&l, "/album/")
}

/// Whether a YouTube link names a playlist. A link to a single video
/// (`/watch?v=...`) is never a playlist, even when it carries `list=`.
pub fn is_youtube_playlist_url(url: &str) -> (r: bool)
    ensures
        r == playlist_url(lowered(url@)),
{
    let lower = to_lowercase(url);
    playlist_url_in(lower.as_str())
}

// ---------------------------------------------------------------------------
// Download strategies
// ---------------------------------------------------------------------------

/// A way to invoke yt-dlp: format selector, player-client arguments and
/// whether ffmpeg extracts the audio afterwards.
pub struct DownloadStrategy {
    pub label: String,
    pub format: Option<&'static str>,
    pub client_args: Option<&'static str>,
    pub extract_audio: bool,
}

/// A strategy seen as `(label, format, client arguments, extract audio)`.
pub type StrategyView = (Seq<char>, Option<Seq<char>>, Option<Seq<char>>, bool);

pub open spec fn opt_str(o: Option<&str>) -> Option<Seq<char>> {
    match o {
        Some(s) => Some(s@),
        None => None,
    }
}

impl View for DownloadStrategy {
    type V = StrategyView;

    open spec fn view(&self) -> StrategyView {
        (self.label@, opt_str(self.format), opt_str(self.client_args), self.extract_audio)
    }
}

/// A quality preset as it is matched: trimmed, then lower-cased.
pub open spec fn preset_key(preset: Seq<char>) -> Seq<char> {
    lowered(trim(preset))
}

/// `preset.trim().to_lowercase()`.
pub fn normalize_preset(preset: &str) -> (k: String)
    ensures
        k@ == preset_key(preset@),
{
    let t = trimmed(preset);
    let ts = string_from_chars(&t);
    to_lowercase(ts.as_str())
}

/// Format selectors, with "extract audio", tried for a normalized preset.
pub open spec fn preset_format_list(key: Seq<char>) -> Seq<(Seq<char>, bool)> {
    if key == "fast"@ {
        seq![("worstaudio/worst"@, false), ("worst"@, true)]
    } else if key == "any"@ {
        seq![("best"@, true), ("bestaudio/best"@, false), ("ba/b"@, false)]
    } else if key == "best"@ {
        seq![("bestaudio/best"@, true), ("bestaudio/best"@, false), ("ba/b"@, false)]
    } else {
        seq![("bestaudio/best"@, true), ("bestaudio/best"@, false), ("ba/b"@, false), ("b"@, true)]
    }
}

pub open spec fn pairs_view(v: Seq<(&'static str, bool)>) -> Seq<(Seq<char>, bool)> {
    v.map_values(|p: (&'static str, bool)| (p.0@, p.1))
}

/// The format selectors for a normalized preset.
pub fn preset_formats_for(key: &str) -> (r: Vec<(&'static str, bool)>)
    ensures
        pairs_view(r@) == preset_format_list(key@),
{
    let mut r: Vec<(&'static str, bool)> = Vec::new();
    if str_eq(key, "fast") {
        r.push(("worstaudio/worst", false));
        r.push(("worst", true));
    } else if str_eq(key, "any") {
        r.push(("best", true));
        r.push(("bestaudio/best", false));
        r.push(("ba/b", false));
    } else if str_eq(key, "best") {
        r.push(("bestaudio/best", true));
        r.push(("bestaudio/best", false));
        r.push(("ba/b", false));
    } else {
        r.push(("bestaudio/best", true));
        r.push(("bestaudio/best", false));
        r.push(("ba/b", false));
        r.push(("b", true));
    }
    assert(pairs_view(r@) =~= preset_format_list(key@));
    r
}

/// The format selectors for a quality preset ("auto", "best", "any", "fast").
pub fn preset_formats(preset: &str) -> (r: Vec<(&'static str, bool)>)
    ensures
        pairs_view(r@) == preset_format_list(preset_key(preset@)),
{
    let key = normalize_preset(preset);
    preset_formats_for(key.as_str())
}

/// Plain format selectors for a normalized preset.
pub open spec fn base_format_list(key: Seq<char>) -> Seq<Seq<char>> {
    if key == "best"@ {
        seq!["ba/b"@, "bestaudio/best"@, "b"@]
    } else if key == "any"@ {
        seq!["b"@, "ba/b"@, "worst"@]
    } else if key == "fast"@ {
        seq!["worstaudio/worst"@, "worst"@, "ba/b"@]
    } else {
        seq!["ba/b"@, "bestaudio/best"@, "b"@, "worst"@]
    }
}

pub open spec fn strs_view(v: Seq<&'static str>) -> Seq<Seq<char>> {
    v.map_values(|p: &'static str| p@)
}

/// Plain format selectors for a quality preset.
pub fn base_formats(preset: &str) -> (r: Vec<&'static str>)
    ensures
        strs_view(r@) == base_format_list(preset_key(preset@)),
{
    let key = normalize_preset(preset);
    let k = key.as_str();
    let mut r: Vec<&'static str> = Vec::new();
    if str_eq(k, "best") {
        r.push("ba/b");
        r.push("bestaudio/best");
        r.push("b");
    } else if str_eq(k, "any") {
        r.push("b");
        r.push("ba/b");
        r.push("worst");
    } else if str_eq(k, "fast") {
        r.push("worstaudio/worst");
        r.push("worst");
        r.push("ba/b");
    } else {
        r.push("ba/b");
        r.push("bestaudio/best");
        r.push("b");
        r.push("worst");
    }
    assert(strs_view(r@) =~= base_format_list(preset_key(preset@)));
    r
}

/// The format selectors tried for a quality preset.
pub fn format_attempts(preset: &str) -> (r: Vec<&'static str>)
    ensures
        strs_view(r@) == base_format_list(preset_key(preset@)),
{
    base_formats(preset)
}

/// `"<prefix> · <format>"`, with `" · ffmpeg"` when audio is extracted.
pub open spec fn strategy_label(prefix: Seq<char>, f: (Seq<char>, bool)) -> Seq<char> {
    prefix + " · "@ + f.0 + (if f.1 {
        " · ffmpeg"@
    } else {
        Seq::empty()
    })
}

/// The strategies derived from the preset's format list, with or without
/// the bot player clients.
pub open spec fn format_strategies(formats: Seq<(Seq<char>, bool)>, bot: bool) -> Seq<
    StrategyView,
> {
    formats.map_values(
        |f: (Seq<char>, bool)|
            (
                strategy_label(
                    if bot {
                        "bot"@
                    } else {
                        "standard"@
                    },
                    f,
                ),
                Some(f.0),
                if bot {
                    Some(BOT_YT_CLIENT@)
                } else {
                    None
                },
                f.1,
            ),
    )
}

/// The full list of strategies for a normalized preset.
pub open spec fn strategy_list(key: Seq<char>, ffmpeg: bool) -> Seq<StrategyView> {
    let formats = preset_format_list(key);
    seq![("bot · m4a"@, Some(BOT_YT_FORMAT@), Some(BOT_YT_CLIENT@), false)] + (if ffmpeg {
        seq![("bot · m4a · ffmpeg"@, Some(BOT_YT_FORMAT@), Some(BOT_YT_CLIENT@), true)]
    } else {
        Seq::empty()
    }) + format_strategies(formats, true) + format_strategies(formats, false) + seq![
        ("standard · default"@, None, None, false),
        ("web · bestaudio/best · ffmpeg"@, Some("bestaudio/best"@), Some("youtube:player_client=web"@), true),
        ("android · bestaudio/best · ffmpeg"@, Some("bestaudio/best"@), Some("youtube:player_client=android"@), true),
        ("ios · bestaudio/best · ffmpeg"@, Some("bestaudio/best"@), Some("youtube:player_client=ios"@), true),
    ]
}

pub open spec fn strategies_view(v: Seq<DownloadStrategy>) -> Seq<StrategyView> {
    v.map_values(|s: DownloadStrategy| s@)
}

fn label_for(prefix: &str, f: (&'static str, bool)) -> (l: String)
    ensures
        l@ == strategy_label(prefix@, (f.0@, f.1)),
{
    let mut out: Vec<char> = Vec::new();
    push_str(&mut out, prefix);
    push_str(&mut out, " · ");
    push_str(&mut out, f.0);
    if f.1 {
        push_str(&mut out, " · ffmpeg");
    }
    assert(out@ =~= strategy_label(prefix@, (f.0@, f.1)));
    string_from_chars(&out)
}

fn push_format_strategies(
    out: &mut Vec<DownloadStrategy>,
    formats: &Vec<(&'static str, bool)>,
    bot: bool,
)
    ensures
        strategies_view(final(out)@) == strategies_view(old(out)@) + format_strategies(
            pairs_view(formats@),
            bot,
        ),
{
    let ghost start = strategies_view(out@);
    let mut i: usize = 0;
    while i < formats.len()
        invariant
            i <= formats.len(),
            strategies_view(out@) == start + format_strategies(
                pairs_view(formats@.take(i as int)),
                bot,
            ),
        decreases formats.len() - i,
    {
        let f = formats[i];
        let label = if bot {
            label_for("bot", f)
        } else {
            label_for("standard", f)
        };
        let client: Option<&'static str> = if bot {
            Some(BOT_YT_CLIENT)
        } else {
            None
        };
        let ghost before = strategies_view(out@);
        out.push(DownloadStrategy { label, format: Some(f.0), client_args: client, extract_audio: f.1 });
        assert(formats@.take(i + 1) =~= formats@.take(i as int).push(f));
        assert(strategies_view(out@) =~= before.push(out@[out@.len() - 1]@));
        assert(format_strategies(pairs_view(formats@.take(i + 1)), bot) =~= format_strategies(
            pairs_view(formats@.take(i as int)),
            bot,
        ).push(out@[out@.len() - 1]@));
        i = i + 1;
    }
    assert(formats@.take(formats@.len() as int) =~= formats@);
}

/// The strategies for a quality preset, given whether ffmpeg is available:
/// the bot-style m4a download first, then the preset's formats with the bot
/// clients, the same without them, yt-dlp's default, and three single-client
/// fallbacks.
pub fn strategies_for(preset: &str, ffmpeg: bool) -> (r: Vec<DownloadStrategy>)
    ensures
        strategies_view(r@) == strategy_list(preset_key(preset_key(preset@)), ffmpeg),
        r@.len() >= 9,
        r@[0]@ == ("bot · m4a"@, Some(BOT_YT_FORMAT@), Some(BOT_YT_CLIENT@), false),
{
    let key = normalize_preset(preset);
    let formats = preset_formats(key.as_str());
    let ghost k = preset_key(preset_key(preset@));
    let mut out: Vec<DownloadStrategy> = Vec::new();
    out.push(
        DownloadStrategy {
            label: to_owned("bot · m4a"),
            format: Some(BOT_YT_FORMAT),
            client_args: Some(BOT_YT_CLIENT),
            extract_audio: false,
        },
    );
    if ffmpeg {
        out.push(
            DownloadStrategy {
                label: to_owned("bot · m4a · ffmpeg"),
                format: Some(BOT_YT_FORMAT),
                client_args: Some(BOT_YT_CLIENT),
                extract_audio: true,
            },
        );
    }
    let ghost head = strategies_view(out@);
    assert(head =~= seq![("bot · m4a"@, Some(BOT_YT_FORMAT@), Some(BOT_YT_CLIENT@), false)] + (
    if ffmpeg {
        seq![("bot · m4a · ffmpeg"@, Some(BOT_YT_FORMAT@), Some(BOT_YT_CLIENT@), true)]
    } else {
        Seq::empty()
    }));
    push_format_strategies(&mut out, &formats, true);
    push_format_strategies(&mut out, &formats, false);
    let ghost mid = strategies_view(out@);
    out.push(
        DownloadStrategy {
            label: to_owned("standard · default"),
            format: None,
            client_args: None,
            extract_audio: false,
        },
    );
    out.push(
        DownloadStrategy {
            label: to_owned("web · bestaudio/best · ffmpeg"),
            format: Some("bestaudio/best"),
            client_args: Some("youtube:player_client=web"),
            extract_audio: true,
        },
    );
    out.push(
        DownloadStrategy {
            label: to_owned("android · bestaudio/best · ffmpeg"),
            format: Some("bestaudio/best"),
            client_args: Some("youtube:player_client=android"),
            extract_audio: true,
        },
    );
    out.push(
        DownloadStrategy {
            label: to_owned("ios · bestaudio/best · ffmpeg"),
            format: Some("bestaudio/best"),
            client_args: Some("youtube:player_client=ios"),
            extract_audio: true,
        },
    );
    assert(strategies_view(out@) =~= mid + seq![
        ("standard · default"@, None, None, false),
        ("web · bestaudio/best · ffmpeg"@, Some("bestaudio/best"@), Some("youtube:player_client=web"@), true),
        ("android · bestaudio/best · ffmpeg"@, Some("bestaudio/best"@), Some("youtube:player_client=android"@), true),
        ("ios · bestaudio/best · ffmpeg"@, Some("bestaudio/best"@), Some("youtube:player_client=ios"@), true),
    ]);
    assert(strategies_view(out@) =~= strategy_list(k, ffmpeg));
    assert(preset_format_list(k).len() >= 2);
    assert(out@[0]@ == strategies_view(out@)[0]);
    out
}

/// The strategies tried, in order, for a quality preset; the ffmpeg
/// extraction variant of the first one is included when ffmpeg is found.
pub fn download_strategies(preset: &str) -> (r: Vec<DownloadStrategy>)
    ensures
        strategies_view(r@) == strategy_list(preset_key(preset_key(preset@)), false)
            || strategies_view(r@) == strategy_list(preset_key(preset_key(preset@)), true),
        r@.len() >= 9,
        r@[0]@ == ("bot · m4a"@, Some(BOT_YT_FORMAT@), Some(BOT_YT_CLIENT@), false),
{
    let ffmpeg = ffmpeg_available();
    strategies_for(preset, ffmpeg)
}

/// A strategy whose label tells what it does: the label ends in
/// " · ffmpeg" exactly when the audio is extracted, starts with
/// "standard · " exactly when no player clients are given, and starts with
/// "bot · " exactly when the bot player clients are.
pub open spec fn label_tells(s: StrategyView) -> bool {
    &&& " · ffmpeg"@.is_suffix_of(s.0) == s.3
    &&& (s.2 is None) == "standard · "@.is_prefix_of(s.0)
    &&& "bot · "@.is_prefix_of(s.0) == (s.2 == Some(BOT_YT_CLIENT@))
}

/// What a label's first and last characters rule out.
proof fn lemma_label_ends(label: Seq<char>)
    requires
        label.len() > 0,
    ensures
        " · ffmpeg"@.is_suffix_of(label) ==> label.last() == 'g',
        "standard · "@.is_prefix_of(label) ==> label[0] == 's',
        "bot · "@.is_prefix_of(label) ==> label[0] == 'b',
{
    reveal_strlit(" · ffmpeg");
    reveal_strlit("standard · ");
    reveal_strlit("bot · ");
    let n = label.len() as int;
    if " · ffmpeg"@.is_suffix_of(label) {
        assert(label.subrange(n - 9, n)[8] == label[n - 1]);
    }
    if "standard · "@.is_prefix_of(label) {
        assert(label.subrange(0, 11)[0] == label[0]);
    }
    if "bot · "@.is_prefix_of(label) {
        assert(label.subrange(0, 6)[0] == label[0]);
    }
}

/// `a` begins `a + b`, and `b` ends it.
proof fn lemma_concat_ends(a: Seq<char>, b: Seq<char>)
    ensures
        a.is_prefix_of(a + b),
        b.is_suffix_of(a + b),
{
    assert(a =~= (a + b).subrange(0, a.len() as int));
    assert(b =~= (a + b).subrange(a.len() as int, (a + b).len() as int));
}

/// A label built by `strategy_label` from the prefix "bot" or "standard"
/// and a format selector that is not empty and does not end in 'g' tells
/// its prefix and whether audio is extracted.
proof fn lemma_built_label(bot: bool, f: (Seq<char>, bool))
    requires
        f.0.len() > 0,
        f.0.last() != 'g',
    ensures
        ({
            let label = strategy_label(
                if bot {
                    "bot"@
                } else {
                    "standard"@
                },
                f,
            );
            &&& " · ffmpeg"@.is_suffix_of(label) == f.1
            &&& "standard · "@.is_prefix_of(label) == !bot
            &&& "bot · "@.is_prefix_of(label) == bot
        }),
{
    reveal_strlit("bot");
    reveal_strlit("standard");
    reveal_strlit(" · ");
    reveal_strlit(" · ffmpeg");
    reveal_strlit("standard · ");
    reveal_strlit("bot · ");
    let prefix = if bot {
        "bot"@
    } else {
        "standard"@
    };
    let label = strategy_label(prefix, f);
    let head = prefix + " · "@;
    let body = head + f.0;
    let tail = if f.1 {
        " · ffmpeg"@
    } else {
        Seq::empty()
    };
    assert(label =~= body + tail);
    assert(label =~= head + (f.0 + tail));
    lemma_concat_ends(head, f.0 + tail);
    lemma_concat_ends(body, tail);
    lemma_label_ends(label);
    assert(label.len() > 0);
    if f.1 {
        assert(" · ffmpeg"@.is_suffix_of(label));
    } else {
        assert(label =~= body);
        assert(label.last() == f.0.last());
    }
    if bot {
        assert("bot · "@ =~= head);
        assert(label[0] == head[0]);
    } else {
        assert("standard · "@ =~= head);
        assert(label[0] == head[0]);
    }
}

/// Every strategy of every list tells by its label what it does (see
/// `label_tells`), whatever the preset and whether ffmpeg was found.
pub proof fn law_strategy_labels_tell(key: Seq<char>, ffmpeg: bool)
    ensures
        forall|i: int|
            0 <= i < strategy_list(key, ffmpeg).len() ==> label_tells(
                #[trigger] strategy_list(key, ffmpeg)[i],
            ),
{
    reveal_strlit("worstaudio/worst");
    reveal_strlit("worst");
    reveal_strlit("best");
    reveal_strlit("bestaudio/best");
    reveal_strlit("ba/b");
    reveal_strlit("b");
    let formats = preset_format_list(key);
    assert forall|j: int| 0 <= j < formats.len() implies #[trigger] formats[j].0.len() > 0
        && formats[j].0.last() != 'g' by {}
    assert forall|bot: bool, j: int| 0 <= j < formats.len() implies label_tells(
        #[trigger] format_strategies(formats, bot)[j],
    ) by {
        lemma_built_label(bot, formats[j]);
        reveal_strlit("youtube:player_client=mweb,ios,android");
    }
    let fixed_head = seq![("bot · m4a"@, Some(BOT_YT_FORMAT@), Some(BOT_YT_CLIENT@), false)];
    let extract = if ffmpeg {
        seq![("bot · m4a · ffmpeg"@, Some(BOT_YT_FORMAT@), Some(BOT_YT_CLIENT@), true)]
    } else {
        Seq::empty()
    };
    let fixed_tail = seq![
        ("standard · default"@, None, None, false),
        ("web · bestaudio/best · ffmpeg"@, Some("bestaudio/best"@), Some("youtube:player_client=web"@), true),
        ("android · bestaudio/best · ffmpeg"@, Some("bestaudio/best"@), Some("youtube:player_client=android"@), true),
        ("ios · bestaudio/best · ffmpeg"@, Some("bestaudio/best"@), Some("youtube:player_client=ios"@), true),
    ];
    lemma_fixed_labels();
    assert forall|j: int| 0 <= j < fixed_head.len() implies label_tells(#[trigger] fixed_head[j]) by {}
    assert forall|j: int| 0 <= j < extract.len() implies label_tells(#[trigger] extract[j]) by {}
    assert forall|j: int| 0 <= j < fixed_tail.len() implies label_tells(#[trigger] fixed_tail[j]) by {}
    let all = strategy_list(key, ffmpeg);
    let a = format_strategies(formats, true);
    let b = format_strategies(formats, false);
    assert(all =~= fixed_head + extract + a + b + fixed_tail);
    assert forall|i: int| 0 <= i < all.len() implies label_tells(#[trigger] all[i]) by {
        let n0 = fixed_head.len() as int;
        let n1 = n0 + extract.len();
        let n2 = n1 + a.len();
        let n3 = n2 + b.len();
        if i < n0 {
            assert(all[i] == fixed_head[i]);
        } else if i < n1 {
            assert(all[i] == extract[i - n0]);
        } else if i < n2 {
            assert(all[i] == a[i - n1]);
        } else if i < n3 {
            assert(all[i] == b[i - n2]);
        } else {
            assert(all[i] == fixed_tail[i - n3]);
        }
    }
}

/// The fixed strategies tell by their labels what they do.
proof fn lemma_fixed_labels()
    ensures
        label_tells(("bot · m4a"@, Some(BOT_YT_FORMAT@), Some(BOT_YT_CLIENT@), false)),
        label_tells(("bot · m4a · ffmpeg"@, Some(BOT_YT_FORMAT@), Some(BOT_YT_CLIENT@), true)),
        label_tells(("standard · default"@, None, None, false)),
        label_tells(
            ("web · bestaudio/best · ffmpeg"@, Some("bestaudio/best"@), Some("youtube:player_client=web"@), true),
        ),
        label_tells(
            ("android · bestaudio/best · ffmpeg"@, Some("bestaudio/best"@), Some("youtube:player_client=android"@), true),
        ),
        label_tells(
            ("ios · bestaudio/best · ffmpeg"@, Some("bestaudio/best"@), Some("youtube:player_client=ios"@), true),
        ),
{
    reveal_strlit("youtube:player_client=mweb,ios,android");
    reveal_strlit("youtube:player_client=web");
    reveal_strlit("youtube:player_client=android");
    reveal_strlit("youtube:player_client=ios");
    reveal_strlit("bot · m4a");
    reveal_strlit("bot · m4a · ffmpeg");
    reveal_strlit("standard · default");
    reveal_strlit("web · bestaudio/best · ffmpeg");
    reveal_strlit("android · bestaudio/best · ffmpeg");
    reveal_strlit("ios · bestaudio/best · ffmpeg");
    reveal_strlit(" · ffmpeg");
    reveal_strlit("standard · ");
    reveal_strlit("bot · ");
    lemma_label_ends("bot · m4a"@);
    lemma_label_ends("standard · default"@);
    lemma_label_ends("web · bestaudio/best · ffmpeg"@);
    lemma_label_ends("android · bestaudio/best · ffmpeg"@);
    lemma_label_ends("ios · bestaudio/best · ffmpeg"@);
    lemma_concat_ends("bot · "@, "m4a"@);
    reveal_strlit("m4a");
    assert("bot · m4a"@ =~= "bot · "@ + "m4a"@);
    reveal_strlit("bot · m4a");
    assert("bot · m4a · ffmpeg"@ =~= "bot · "@ + "m4a · ffmpeg"@) by {
        reveal_strlit("m4a · ffmpeg");
    }
    lemma_concat_ends("bot · "@, "m4a · ffmpeg"@);
    assert("bot · m4a · ffmpeg"@ =~= "bot · m4a"@ + " · ffmpeg"@);
    lemma_concat_ends("bot · m4a"@, " · ffmpeg"@);
    assert("standard · default"@ =~= "standard · "@ + "default"@) by {
        reveal_strlit("default");
    }
    lemma_concat_ends("standard · "@, "default"@);
    assert("web · bestaudio/best · ffmpeg"@ =~= "web · bestaudio/best"@ + " · ffmpeg"@) by {
        reveal_strlit("web · bestaudio/best");
    }
    lemma_concat_ends("web · bestaudio/best"@, " · ffmpeg"@);
    assert("android · bestaudio/best · ffmpeg"@ =~= "android · bestaudio/best"@ + " · ffmpeg"@) by {
        reveal_strlit("android · bestaudio/best");
    }
    lemma_concat_ends("android · bestaudio/best"@, " · ffmpeg"@);
    assert("ios · bestaudio/best · ffmpeg"@ =~= "ios · bestaudio/best"@ + " · ffmpeg"@) by {
        reveal_strlit("ios · bestaudio/best");
    }
    lemma_concat_ends("ios · bestaudio/best"@, " · ffmpeg"@);
    assert("youtube:player_client=web"@ != BOT_YT_CLIENT@) by {
        assert("youtube:player_client=web"@.len() != BOT_YT_CLIENT@.len());
    }
    assert("youtube:player_client=android"@ != BOT_YT_CLIENT@) by {
        assert("youtube:player_client=android"@.len() != BOT_YT_CLIENT@.len());
    }
    assert("youtube:player_client=ios"@ != BOT_YT_CLIENT@) by {
        assert("youtube:player_client=ios"@.len() != BOT_YT_CLIENT@.len());
    }
}

// ---------------------------------------------------------------------------
// yt-dlp arguments
// ---------------------------------------------------------------------------

pub open spec fn strings_view(v: Seq<String>) -> Seq<Seq<char>> {
    v.map_values(|s: String| s@)
}

pub open spec fn opt_view(o: Option<&str>) -> Option<Seq<char>> {
    match o {
        Some(s) => Some(s@),
        None => None,
    }
}

/// Cookie arguments: a cookies.txt file that exists takes priority over
/// browser cookies; a browser named "none" means no cookies.
pub open spec fn cookie_args(
    file: Option<Seq<char>>,
    browser: Option<Seq<char>>,
    file_exists: bool,
) -> Seq<Seq<char>> {
    if file is Some && trim(file->0).len() > 0 && file_exists {
        seq!["--cookies"@, trim(file->0)]
    } else if browser is Some && trim(browser->0).len() > 0 && !eq_ignore_ascii_case(
        trim(browser->0),
        "none"@,
    ) {
        seq!["--cookies-from-browser"@, trim(browser->0)]
    } else {
        Seq::empty()
    }
}

/// The cookie arguments for `auth`, given whether its (trimmed) cookies file
/// is a file on disk.
pub fn cookie_args_given(auth: &YtAuth, file_exists: bool) -> (r: Vec<String>)
    ensures
        strings_view(r@) == cookie_args(opt_view(auth.cookies_file), opt_view(auth.browser), file_exists),
{
    let mut r: Vec<String> = Vec::new();
    if let Some(f) = auth.cookies_file {
        let t = trimmed(f);
        if t.len() > 0 && file_exists {
            r.push(to_owned("--cookies"));
            r.push(string_from_chars(&t));
            assert(strings_view(r@) =~= cookie_args(opt_view(auth.cookies_file), opt_view(auth.browser), file_exists));
            return r;
        }
    }
    if let Some(b) = auth.browser {
        let t = trimmed(b);
        if t.len() > 0 && !chars_eq_ignore_ascii_case(&t, &chars_of("none")) {
            r.push(to_owned("--cookies-from-browser"));
            r.push(string_from_chars(&t));
        }
    }
    assert(strings_view(r@) =~= cookie_args(opt_view(auth.cookies_file), opt_view(auth.browser), file_exists));
    r
}

/// Whether the (trimmed) cookies file of `auth` is a file on disk. The
/// answer depends on the disk, so nothing is stated of it.
fn cookie_file_exists(auth: &YtAuth) -> bool {
    match auth.cookies_file {
        Some(f) => {
            let t = trimmed(f);
            if t.len() > 0 {
                let ts = string_from_chars(&t);
                path_is_file(ts.as_str())
            } else {
                false
            }
        },
        None => false,
    }
}

/// Cookie arguments for yt-dlp: the cookies.txt file when it exists, else the
/// browser to read cookies from.
pub fn ytdlp_cookie_args(auth: &YtAuth) -> (r: Vec<String>)
    ensures
        strings_view(r@) == cookie_args(opt_view(auth.cookies_file), opt_view(auth.browser), false)
            || strings_view(r@) == cookie_args(opt_view(auth.cookies_file), opt_view(auth.browser), true),
{
    let exists = cookie_file_exists(auth);
    cookie_args_given(auth, exists)
}

/// Whichever browser is set, an existing cookies file is what yt-dlp is given.
pub proof fn law_cookie_file_wins(file: Seq<char>, browser: Option<Seq<char>>)
    requires
        trim(file).len() > 0,
    ensures
        cookie_args(Some(file), browser, true) == seq!["--cookies"@, trim(file)],
{
}

/// `--extractor-args` for a player-client selection, when there is one.
pub open spec fn client_args(client: Option<Seq<char>>) -> Seq<Seq<char>> {
    if client is Some && client->0.len() > 0 {
        seq!["--extractor-args"@, client->0]
    } else {
        Seq::empty()
    }
}

/// The arguments selecting yt-dlp's player clients.
pub fn ytdlp_client_args(client: Option<&str>) -> (r: Vec<String>)
    ensures
        strings_view(r@) == client_args(opt_view(client)),
{
    let mut r: Vec<String> = Vec::new();
    if let Some(c) = client {
        let v = chars_of(c);
        if v.len() > 0 {
            r.push(to_owned("--extractor-args"));
            r.push(to_owned(c));
        }
    }
    assert(strings_view(r@) =~= client_args(opt_view(client)));
    r
}

/// The arguments used to expand playlists: the cookie arguments, then the
/// bot player clients.
pub open spec fn auth_args(file: Option<Seq<char>>, browser: Option<Seq<char>>, file_exists: bool) -> Seq<
    Seq<char>,
> {
    cookie_args(file, browser, file_exists) + client_args(Some(BOT_YT_CLIENT@))
}

/// Cookies plus the bot player clients, given whether the cookies file of
/// `auth` is a file on disk.
pub fn auth_args_given(auth: &YtAuth, file_exists: bool) -> (r: Vec<String>)
    ensures
        strings_view(r@) == auth_args(opt_view(auth.cookies_file), opt_view(auth.browser), file_exists),
{
    let mut r = cookie_args_given(auth, file_exists);
    let mut c = ytdlp_client_args(Some(BOT_YT_CLIENT));
    let ghost a = strings_view(r@);
    let ghost b = strings_view(c@);
    r.append(&mut c);
    assert(strings_view(r@) =~= a + b);
    r
}

/// Cookies plus the bot player clients, as used to expand playlists.
pub fn ytdlp_auth_args(auth: &YtAuth) -> (r: Vec<String>)
    ensures
        strings_view(r@) == auth_args(opt_view(auth.cookies_file), opt_view(auth.browser), false)
            || strings_view(r@) == auth_args(opt_view(auth.cookies_file), opt_view(auth.browser), true),
{
    let exists = cookie_file_exists(auth);
    auth_args_given(auth, exists)
}

/// For the same answer on whether the cookies file exists, the arguments
/// used to expand a playlist are exactly the cookie arguments followed by
/// `--extractor-args` with the bot player clients.
pub proof fn law_auth_is_cookies_then_clients(
    file: Option<Seq<char>>,
    browser: Option<Seq<char>>,
    file_exists: bool,
)
    ensures
        auth_args(file, browser, file_exists) == cookie_args(file, browser, file_exists) + seq![
            "--extractor-args"@,
            BOT_YT_CLIENT@,
        ],
{
    reveal_strlit("youtube:player_client=mweb,ios,android");
    assert(BOT_YT_CLIENT@.len() > 0);
}

/// Flags shared by every yt-dlp run: remote JS components, the JS runtime and
/// ffmpeg when they are found, and relaxed TLS and source address.
pub open spec fn runtime_args(node: Option<Seq<char>>, ffmpeg: Option<Seq<char>>) -> Seq<Seq<char>> {
    seq!["--remote-components"@, "ejs:github"@] + (match node {
        Some(n) => seq!["--js-runtimes"@, "node:"@ + n],
        None => Seq::empty(),
    }) + (match ffmpeg {
        Some(f) => seq!["--ffmpeg-location"@, f],
        None => Seq::empty(),
    }) + seq!["--no-check-certificate"@, "--source-address"@, "0.0.0.0"@]
}

/// The shared yt-dlp flags, given where node and ffmpeg were found.
pub fn ytdlp_runtime_args(node: Option<&str>, ffmpeg: Option<&str>) -> (r: Vec<String>)
    ensures
        strings_view(r@) == runtime_args(opt_view(node), opt_view(ffmpeg)),
{
    let mut r: Vec<String> = Vec::new();
    r.push(to_owned("--remote-components"));
    r.push(to_owned("ejs:github"));
    if let Some(n) = node {
        r.push(to_owned("--js-runtimes"));
        let mut v: Vec<char> = Vec::new();
        push_str(&mut v, "node:");
        push_str(&mut v, n);
        r.push(string_from_chars(&v));
    }
    if let Some(f) = ffmpeg {
        r.push(to_owned("--ffmpeg-location"));
        r.push(to_owned(f));
    }
    r.push(to_owned("--no-check-certificate"));
    r.push(to_owned("--source-address"));
    r.push(to_owned("0.0.0.0"));
    assert(strings_view(r@) =~= runtime_args(opt_view(node), opt_view(ffmpeg)));
    r
}

/// The directories always added to `PATH` for yt-dlp's helpers.
pub open spec fn path_extras(home: Option<Seq<char>>) -> Seq<Seq<char>> {
    seq!["/usr/bin"@, "/usr/local/bin"@, "/bin"@] + match home {
        Some(h) => seq![h + "/.local/share/fnm/current/bin"@, h + "/.cargo/bin"@],
        None => Seq::empty(),
    }
}

/// `parts` with each of `extras` appended unless it is already there.
pub open spec fn add_missing(parts: Seq<Seq<char>>, extras: Seq<Seq<char>>) -> Seq<Seq<char>>
    decreases extras.len(),
{
    if extras.len() == 0 {
        parts
    } else {
        let p = add_missing(parts, extras.drop_last());
        if p.contains(extras.last()) {
            p
        } else {
            p.push(extras.last())
        }
    }
}

/// The `PATH` handed to yt-dlp: the current one, then the usual tool
/// directories that it lacks.
pub open spec fn extended_path_spec(path: Option<Seq<char>>, home: Option<Seq<char>>) -> Seq<char> {
    let parts = match path {
        Some(p) => split_char(p, ':'),
        None => Seq::empty(),
    };
    join(add_missing(parts, path_extras(home)), ":"@)
}

/// Every directory of the current `PATH` stays, in order, and every usual
/// tool directory ends up present.
pub proof fn law_extended_path_keeps_and_adds(parts: Seq<Seq<char>>, extras: Seq<Seq<char>>)
    ensures
        parts.is_prefix_of(add_missing(parts, extras)),
        forall|i: int| 0 <= i < extras.len() ==> add_missing(parts, extras).contains(
            #[trigger] extras[i],
        ),
    decreases extras.len(),
{
    if extras.len() > 0 {
        let d = extras.drop_last();
        law_extended_path_keeps_and_adds(parts, d);
        let p = add_missing(parts, d);
        let r = add_missing(parts, extras);
        assert forall|i: int| 0 <= i < extras.len() implies r.contains(#[trigger] extras[i]) by {
            if i < d.len() {
                assert(p.contains(d[i]));
                let k = choose|k: int| 0 <= k < p.len() && p[k] == d[i];
                assert(r[k] == d[i]);
            } else if !p.contains(extras.last()) {
                assert(r[r.len() - 1] == extras.last());
            }
        }
    }
}

/// The `PATH` for yt-dlp given the current `PATH` and home directory.
pub fn extended_path(path: Option<&str>, home: Option<&str>) -> (r: String)
    ensures
        r@ == extended_path_spec(opt_view(path), opt_view(home)),
{
    let mut parts: Vec<Vec<char>> = match path {
        Some(p) => {
            let v = chars_of(p);
            split_char_chars(&v, ':')
        },
        None => Vec::new(),
    };
    let ghost base = pieces(parts@);
    assert(base =~= match opt_view(path) {
        Some(p) => split_char(p, ':'),
        None => Seq::empty(),
    });
    let mut extras: Vec<Vec<char>> = Vec::new();
    extras.push(chars_of("/usr/bin"));
    extras.push(chars_of("/usr/local/bin"));
    extras.push(chars_of("/bin"));
    if let Some(h) = home {
        let mut a = chars_of(h);
        push_str(&mut a, "/.local/share/fnm/current/bin");
        let mut b = chars_of(h);
        push_str(&mut b, "/.cargo/bin");
        extras.push(a);
        extras.push(b);
    }
    assert(pieces(extras@) =~= path_extras(opt_view(home)));
    let mut i: usize = 0;
    assert(pieces(extras@).take(0) =~= Seq::<Seq<char>>::empty());
    while i < extras.len()
        invariant
            i <= extras.len(),
            pieces(parts@) == add_missing(base, pieces(extras@).take(i as int)),
        decreases extras.len() - i,
    {
        assert(pieces(extras@).take(i + 1).drop_last() =~= pieces(extras@).take(i as int));
        assert(pieces(extras@).take(i + 1).last() == extras@[i as int]@);
        if !contains_piece(&parts, &extras[i]) {
            let e = extras[i].clone();
            let ghost before = pieces(parts@);
            parts.push(e);
            assert(pieces(parts@) =~= before.push(extras@[i as int]@));
        }
        i = i + 1;
    }
    assert(pieces(extras@).take(extras@.len() as int) =~= pieces(extras@));
    let joined = join_chars(&parts, ":");
    string_from_chars(&joined)
}

// ---------------------------------------------------------------------------
// Spotify links
// ---------------------------------------------------------------------------

/// A Spotify URI turned into a web link, or a web link without its query.
pub open spec fn spotify_link(input: Seq<char>) -> Seq<char> {
    match strip_prefix(input, "spotify:track:"@) {
        Some(rest) => "https://open.spotify.com/track/"@ + rest,
        None => match strip_prefix(input, "spotify:playlist:"@) {
            Some(rest) => "https://open.spotify.com/playlist/"@ + rest,
            None => match strip_prefix(input, "spotify:album:"@) {
                Some(rest) => "https://open.spotify.com/album/"@ + rest,
                None => first_piece(input, "?"@),
            },
        },
    }
}

fn prefixed(prefix: &str, rest: &Vec<char>) -> (s: String)
    ensures
        s@ == prefix@ + rest@,
{
    let mut v = chars_of(prefix);
    push_chars(&mut v, rest);
    string_from_chars(&v)
}

/// Each kind of Spotify URI becomes the web link of the same kind, with the
/// same id: `spotify:<kind>:<id>` is `https://open.spotify.com/<kind>/<id>`
/// for tracks, playlists and albums.
pub proof fn law_spotify_uri_keeps_its_kind(id: Seq<char>)
    ensures
        spotify_link("spotify:track:"@ + id) == "https://open.spotify.com/track/"@ + id,
        spotify_link("spotify:playlist:"@ + id) == "https://open.spotify.com/playlist/"@ + id,
        spotify_link("spotify:album:"@ + id) == "https://open.spotify.com/album/"@ + id,
{
    reveal_strlit("spotify:track:");
    reveal_strlit("spotify:playlist:");
    reveal_strlit("spotify:album:");
    let t = "spotify:track:"@;
    let p = "spotify:playlist:"@;
    let a = "spotify:album:"@;
    assert(t =~= (t + id).subrange(0, t.len() as int));
    assert((t + id).skip(t.len() as int) =~= id);
    assert(p =~= (p + id).subrange(0, p.len() as int));
    assert((p + id).skip(p.len() as int) =~= id);
    assert(a =~= (a + id).subrange(0, a.len() as int));
    assert((a + id).skip(a.len() as int) =~= id);
    // The kinds differ at their ninth character: 't', 'p', 'a'.
    assert((p + id)[8] == 'p');
    assert(!t.is_prefix_of(p + id)) by {
        if t.is_prefix_of(p + id) {
            assert((p + id).subrange(0, t.len() as int)[8] == t[8]);
        }
    }
    assert((a + id)[8] == 'a');
    assert(!t.is_prefix_of(a + id)) by {
        if t.is_prefix_of(a + id) {
            assert((a + id).subrange(0, t.len() as int)[8] == t[8]);
        }
    }
    assert(!p.is_prefix_of(a + id)) by {
        if p.is_prefix_of(a + id) {
            assert((a + id).subrange(0, p.len() as int)[8] == p[8]);
        }
    }
}

/// Any other input is a web link whose query is cut off: the result begins
/// the input, holds no '?', and is the whole input when it had none.
pub proof fn law_web_link_drops_query(input: Seq<char>)
    requires
        !"spotify:"@.is_prefix_of(input),
    ensures
        spotify_link(input).is_prefix_of(input),
        !contains(spotify_link(input), "?"@),
        !contains(input, "?"@) ==> spotify_link(input) == input,
{
    reveal_strlit("spotify:");
    reveal_strlit("spotify:track:");
    reveal_strlit("spotify:playlist:");
    reveal_strlit("spotify:album:");
    reveal_strlit("?");
    let sp = "spotify:"@;
    assert forall|u: Seq<char>| #[trigger] u.is_prefix_of(input) && sp.is_prefix_of(u) implies sp.is_prefix_of(
        input,
    ) by {
        assert(input.subrange(0, sp.len() as int) =~= u.subrange(0, sp.len() as int));
    }
    assert(sp.is_prefix_of("spotify:track:"@));
    assert(sp.is_prefix_of("spotify:playlist:"@));
    assert(sp.is_prefix_of("spotify:album:"@));
    assert(strip_prefix(input, "spotify:track:"@) is None);
    assert(strip_prefix(input, "spotify:playlist:"@) is None);
    assert(strip_prefix(input, "spotify:album:"@) is None);
    assert(spotify_link(input) == first_piece(input, "?"@));
    lemma_find(input, "?"@);
    match find(input, "?"@) {
        Some(k) => {
            let r = input.take(k);
            assert(spotify_link(input) == r);
            assert(r =~= input.subrange(0, r.len() as int));
            if contains(r, "?"@) {
                let j = choose|j: int| occurs_at(r, "?"@, j);
                assert(input.subrange(j, j + 1) =~= r.subrange(j, j + 1));
                assert(occurs_at(input, "?"@, j));
            }
        },
        None => {
            assert(spotify_link(input) == input);
            assert(input =~= input.subrange(0, input.len() as int));
        },
    }
}

/// The canonical web link for a Spotify link or URI.
pub fn normalize_spotify_url(input: &str) -> (r: String)
    ensures
        r@ == spotify_link(input@),
{
    let v = chars_of(input);
    if let Some(rest) = strip_prefix_chars(&v, "spotify:track:") {
        return prefixed("https://open.spotify.com/track/", &rest);
    }
    if let Some(rest) = strip_prefix_chars(&v, "spotify:playlist:") {
        return prefixed("https://open.spotify.com/playlist/", &rest);
    }
    if let Some(rest) = strip_prefix_chars(&v, "spotify:album:") {
        return prefixed("https://open.spotify.com/album/", &rest);
    }
    let first = first_piece_chars(&v, "?");
    string_from_chars(&first)
}

/// The embeddable player page of a Spotify playlist or album link.
pub open spec fn embed_link(url: Seq<char>) -> Option<Seq<char>> {
    match second_piece(url, "/playlist/"@) {
        Some(id) => Some("https://open.spotify.com/embed/playlist/"@ + trim_end_matches(id, "/"@)),
        None => match second_piece(url, "/album/"@) {
            Some(id) => Some("https://open.spotify.com/embed/album/"@ + trim_end_matches(id, "/"@)),
            None => None,
        },
    }
}

/// The embed page of a Spotify playlist or album, whose HTML lists its tracks.
pub fn embed_url(url: &str) -> (r: Option<String>)
    ensures
        match r {
            Some(e) => embed_link(url@) == Some(e@),
            None => embed_link(url@) is None,
        },
{
    let v = chars_of(url);
    if let Some(id) = second_piece_chars(&v, "/playlist/") {
        let id = trim_end_matches_chars(&id, "/");
        return Some(prefixed("https://open.spotify.com/embed/playlist/", &id));
    }
    if let Some(id) = second_piece_chars(&v, "/album/") {
        let id = trim_end_matches_chars(&id, "/");
        return Some(prefixed("https://open.spotify.com/embed/album/", &id));
    }
    None
}

/// The web link of a Spotify track id.
pub fn spotify_track_url(id: &str) -> (r: String)
    ensures
        r@ == "https://open.spotify.com/track/"@ + id@,
{
    let v = chars_of(id);
    prefixed("https://open.spotify.com/track/", &v)
}

// ---------------------------------------------------------------------------
// Percent-encoding and HTML entities
// ---------------------------------------------------------------------------

/// Bytes left as they are in a query value.
pub open spec fn unreserved(b: u8) -> bool {
    (65 <= b <= 90) || (97 <= b <= 122) || (48 <= b <= 57) || b == 45 || b == 95 || b == 46 || b
        == 126
}

/// The upper-case hex digit for `n < 16`.
pub open spec fn upper_hex_digit(n: int) -> char {
    if n < 10 {
        (('0' as u32) + n) as char
    } else {
        (('A' as u32) + n - 10) as char
    }
}

/// Percent-encoding of UTF-8 bytes: unreserved bytes as they are, others as `%XX`.
pub open spec fn percent_encoded(b: Seq<u8>) -> Seq<char>
    decreases b.len(),
{
    if b.len() == 0 {
        Seq::empty()
    } else {
        let x = b.last();
        percent_encoded(b.drop_last()) + if unreserved(x) {
            seq![x as char]
        } else {
            seq!['%', upper_hex_digit((x / 16) as int), upper_hex_digit((x % 16) as int)]
        }
    }
}

fn upper_hex_digit_exec(n: u8) -> (c: char)
    requires
        n < 16,
    ensures
        c == upper_hex_digit(n as int),
{
    if n < 10 {
        (48u8 + n) as char
    } else {
        (65u8 + n - 10) as char
    }
}

/// Percent-encodes a value for use in a URL query.
pub fn urlencoding_lite(value: &str) -> (r: String)
    ensures
        r@ == percent_encoded(vstd::utf8::encode_utf8(value@)),
{
    let bytes = value.as_bytes();
    let mut out: Vec<char> = Vec::new();
    let mut i: usize = 0;
    assert(bytes@.take(0) =~= Seq::<u8>::empty());
    while i < bytes.len()
        invariant
            i <= bytes@.len(),
            bytes@ == vstd::utf8::encode_utf8(value@),
            out@ == percent_encoded(bytes@.take(i as int)),
        decreases bytes.len() - i,
    {
        let b = bytes[i];
        assert(bytes@.take(i + 1).drop_last() =~= bytes@.take(i as int));
        assert(bytes@.take(i + 1).last() == b);
        if (65 <= b && b <= 90) || (97 <= b && b <= 122) || (48 <= b && b <= 57) || b == 45 || b
            == 95 || b == 46 || b == 126 {
            out.push(b as char);
        } else {
            out.push('%');
            out.push(upper_hex_digit_exec(b / 16));
            out.push(upper_hex_digit_exec(b % 16));
        }
        i = i + 1;
    }
    assert(bytes@.take(bytes@.len() as int) =~= bytes@);
    string_from_chars(&out)
}

/// `&amp;`, `&#39;`, `&quot;`, `&lt;` and `&gt;` decoded, one entity after
/// the other over the whole text.
pub open spec fn unescaped(v: Seq<char>) -> Seq<char> {
    replace_all(
        replace_all(
            replace_all(replace_all(replace_all(v, "&amp;"@, "&"@), "&#39;"@, "'"@), "&quot;"@, "\""@),
            "&lt;"@,
            "<"@,
        ),
        "&gt;"@,
        ">"@,
    )
}

/// Decodes the HTML entities that appear in Spotify page metadata.
pub fn html_unescape(value: &str) -> (r: String)
    ensures
        r@ == unescaped(value@),
{
    proof {
        reveal_strlit("&amp;");
        reveal_strlit("&#39;");
        reveal_strlit("&quot;");
        reveal_strlit("&lt;");
        reveal_strlit("&gt;");
    }
    let v = chars_of(value);
    let v = replace_chars(&v, "&amp;", "&");
    let v = replace_chars(&v, "&#39;", "'");
    let v = replace_chars(&v, "&quot;", "\"");
    let v = replace_chars(&v, "&lt;", "<");
    let v = replace_chars(&v, "&gt;", ">");
    string_from_chars(&v)
}

// ---------------------------------------------------------------------------
// Page scraping
// ---------------------------------------------------------------------------

/// The first match of group 1 of `pattern` in `haystack` (`None` also when
/// the pattern does not compile).
pub uninterp spec fn regex_first_group(pattern: Seq<char>, haystack: Seq<char>) -> Option<
    Seq<char>,
>;

/// Group 1 of every successive non-overlapping match of `pattern` in
/// `haystack` (nothing when the pattern does not compile).
pub uninterp spec fn regex_all_first_groups(pattern: Seq<char>, haystack: Seq<char>) -> Seq<
    Seq<char>,
>;

pub open spec fn opt_seq(o: Option<String>) -> Option<Seq<char>> {
    match o {
        Some(s) => Some(s@),
        None => None,
    }
}

/// `Regex::new(pattern)` then `captures(haystack)` and its group 1: the
/// regex crate's matching is not restated; the result is named
/// [`regex_first_group`].
#[verifier::external_body]
fn regex_capture1(pattern: &str, haystack: &str) -> (r: Option<String>)
    ensures
        opt_seq(r) == regex_first_group(pattern@, haystack@),
{
    regex::Regex::new(pattern).ok().and_then(|re| re.captures(haystack)).and_then(
        |c| c.get(1).map(|m| m.as_str().to_string()),
    )
}

/// `Regex::new(pattern)` then group 1 of every item of
/// `captures_iter(haystack)`; the result is named [`regex_all_first_groups`].
/// Indexing a capture by 1 panics when group 1 took no part in the match, so
/// only the track-id patterns, whose group 1 is mandatory, are admitted.
#[verifier::external_body]
fn regex_capture1_all(pattern: &str, haystack: &str) -> (r: Vec<String>)
    requires
        pattern@ == RE_TRACK_URI@ || pattern@ == RE_TRACK_LINK@ || pattern@ == RE_TRACK_JSON@,
    ensures
        strings_view(r@) == regex_all_first_groups(pattern@, haystack@),
{
    match regex::Regex::new(pattern) {
        Ok(re) => re.captures_iter(haystack).map(|c| c[1].to_string()).collect(),
        Err(_) => Vec::new(),
    }
}

/// The first capture of `pattern` in `haystack`, HTML entities decoded.
pub fn capture_first(haystack: &str, pattern: &str) -> (r: Option<String>)
    ensures
        opt_seq(r) == match regex_first_group(pattern@, haystack@) {
            Some(m) => Some(unescaped(m)),
            None => None,
        },
{
    match regex_capture1(pattern, haystack) {
        Some(m) => Some(html_unescape(m.as_str())),
        None => None,
    }
}

pub const RE_TRACK_URI: &'static str = "spotify:track:([A-Za-z0-9]{22})";
pub const RE_TRACK_LINK: &'static str = "open\\.spotify\\.com/track/([A-Za-z0-9]{22})";
pub const RE_TRACK_JSON: &'static str = "\"uri\"\\s*:\\s*\"spotify:track:([A-Za-z0-9]{22})\"";

/// `s` with later repeats removed, first occurrences kept in order.
pub open spec fn unique_in_order(s: Seq<Seq<char>>) -> Seq<Seq<char>>
    decreases s.len(),
{
    if s.len() == 0 {
        s
    } else {
        let u = unique_in_order(s.drop_last());
        if u.contains(s.last()) {
            u
        } else {
            u.push(s.last())
        }
    }
}

/// Track ids with repeats dropped, in order of first appearance.
pub fn unique_ids(found: Vec<String>) -> (r: Vec<String>)
    ensures
        strings_view(r@) == unique_in_order(strings_view(found@)),
{
    let ghost f = strings_view(found@);
    let mut r: Vec<String> = Vec::new();
    let mut i: usize = 0;
    assert(f.take(0) =~= Seq::<Seq<char>>::empty());
    while i < found.len()
        invariant
            f == strings_view(found@),
            i <= found.len(),
            strings_view(r@) == unique_in_order(f.take(i as int)),
        decreases found.len() - i,
    {
        assert(f.take(i + 1).drop_last() =~= f.take(i as int));
        assert(f.take(i + 1).last() == found@[i as int]@);
        let mut seen = false;
        let mut j: usize = 0;
        while j < r.len()
            invariant
                i < found@.len(),
                j <= r.len(),
                !seen ==> forall|k: int| 0 <= k < j ==> r@[k]@ != found@[i as int]@,
                seen ==> strings_view(r@).contains(found@[i as int]@),
            decreases r.len() - j,
        {
            if !seen && str_eq(r[j].as_str(), found[i].as_str()) {
                seen = true;
                assert(strings_view(r@)[j as int] == found@[i as int]@);
            }
            j = j + 1;
        }
        if !seen {
            let ghost before = strings_view(r@);
            assert(!before.contains(found@[i as int]@)) by {
                if before.contains(found@[i as int]@) {
                    let k = choose|k: int| 0 <= k < before.len() && before[k] == found@[i as int]@;
                    assert(r@[k]@ == found@[i as int]@);
                }
            }
            r.push(to_owned(found[i].as_str()));
            assert(strings_view(r@) =~= before.push(found@[i as int]@));
        }
        i = i + 1;
    }
    assert(f.take(f.len() as int) =~= f);
    r
}

/// `unique_in_order` leaves no repeats and keeps every value.
pub proof fn law_unique_ids(s: Seq<Seq<char>>)
    ensures
        unique_in_order(s).no_duplicates(),
        forall|x: Seq<char>| s.contains(x) <==> unique_in_order(s).contains(x),
    decreases s.len(),
{
    if s.len() > 0 {
        let d = s.drop_last();
        law_unique_ids(d);
        let u = unique_in_order(d);
        assert forall|x: Seq<char>| s.contains(x) <==> unique_in_order(s).contains(x) by {
            if s.contains(x) {
                let k = choose|k: int| 0 <= k < s.len() && s[k] == x;
                if k < d.len() {
                    assert(d[k] == x);
                    assert(d.contains(x));
                    assert(u.contains(x));
                    if !u.contains(s.last()) {
                        let m = choose|m: int| 0 <= m < u.len() && u[m] == x;
                        assert(u.push(s.last())[m] == x);
                    }
                } else if !u.contains(s.last()) {
                    assert(u.push(s.last())[u.len() as int] == x);
                }
            }
            if unique_in_order(s).contains(x) {
                if u.contains(x) {
                    assert(d.contains(x));
                    let k = choose|k: int| 0 <= k < d.len() && d[k] == x;
                    assert(s[k] == x);
                } else {
                    let m = choose|m: int|
                        0 <= m < unique_in_order(s).len() && unique_in_order(s)[m] == x;
                    if m < u.len() {
                        assert(u[m] == x);
                    }
                    assert(s[s.len() - 1] == x);
                }
            }
        }
        if !u.contains(s.last()) {
            assert forall|i: int, j: int|
                0 <= i < u.push(s.last()).len() && 0 <= j < u.push(s.last()).len() && i != j
                    implies u.push(s.last())[i] != u.push(s.last())[j] by {
                if i == u.len() {
                    assert(u[j] != s.last());
                } else if j == u.len() {
                    assert(u[i] != s.last());
                }
            }
        }
    }
}

/// The Spotify track ids linked from a page, in order of first appearance
/// and without repeats.
pub fn extract_spotify_track_ids(html: &str) -> (r: Vec<String>)
    ensures
        strings_view(r@) == unique_in_order(
            regex_all_first_groups(RE_TRACK_URI@, html@) + regex_all_first_groups(
                RE_TRACK_LINK@,
                html@,
            ) + regex_all_first_groups(RE_TRACK_JSON@, html@),
        ),
{
    let mut all = regex_capture1_all(RE_TRACK_URI, html);
    let mut b = regex_capture1_all(RE_TRACK_LINK, html);
    let mut c = regex_capture1_all(RE_TRACK_JSON, html);
    let ghost va = strings_view(all@);
    let ghost vb = strings_view(b@);
    let ghost vc = strings_view(c@);
    all.append(&mut b);
    assert(strings_view(all@) =~= va + vb);
    all.append(&mut c);
    assert(strings_view(all@) =~= va + vb + vc);
    unique_ids(all)
}

/// Title, artist and cover art of a Spotify page.
pub struct OembedMeta {
    pub title: String,
    pub artist: String,
    pub thumbnail: Option<String>,
}

/// The fields of Spotify's oEmbed answer, with defaults for missing ones.
pub fn oembed_meta(
    title: Option<String>,
    author_name: Option<String>,
    thumbnail_url: Option<String>,
) -> (m: OembedMeta)
    ensures
        m.title@ == match opt_seq(title) {
            Some(t) => t,
            None => "Unknown title"@,
        },
        m.artist@ == match opt_seq(author_name) {
            Some(a) => a,
            None => "Unknown artist"@,
        },
        opt_seq(m.thumbnail) == opt_seq(thumbnail_url),
{
    OembedMeta {
        title: match title {
            Some(t) => t,
            None => to_owned("Unknown title"),
        },
        artist: match author_name {
            Some(a) => a,
            None => to_owned("Unknown artist"),
        },
        thumbnail: thumbnail_url,
    }
}

/// Spotify's oEmbed answer read from its body: its title, author and
/// thumbnail, with defaults for missing ones; `None` where the body is not
/// JSON.
pub fn oembed_from_json(body: &[u8]) -> (r: Option<OembedMeta>)
    ensures
        match json_from_bytes(body@) {
            None => r is None,
            Some(j) => r matches Some(m) && m.title@ == text_or(member(j, "title"@), "Unknown title"@)
                && m.artist@ == text_or(member(j, "author_name"@), "Unknown artist"@) && opt_seq(
                m.thumbnail,
            ) == text_of(member(j, "thumbnail_url"@)),
        },
{
    match parse_json_bytes(body) {
        None => None,
        Some(j) => Some(
            oembed_meta(
                text_member(&j, "title"),
                text_member(&j, "author_name"),
                text_member(&j, "thumbnail_url"),
            ),
        ),
    }
}

pub const RE_OG_TITLE: &'static str = "property=\"og:title\"\\s+content=\"([^\"]+)\"";
pub const RE_OG_TITLE_REV: &'static str = "content=\"([^\"]+)\"\\s+property=\"og:title\"";
pub const RE_OG_DESCRIPTION: &'static str = "property=\"og:description\"\\s+content=\"([^\"]+)\"";
pub const RE_ARTISTS_JSON: &'static str = "\"artists\"\\s*:\\s*\\[\\s*\\{\\s*\"name\"\\s*:\\s*\"([^\"]+)\"";
pub const RE_AUTHOR_JSON: &'static str = "\"author_name\"\\s*:\\s*\"([^\"]+)\"";
pub const RE_OG_IMAGE: &'static str = "property=\"og:image\"\\s+content=\"([^\"]+)\"";

/// Title, artist and cover of a track page from its metadata: the page
/// title names the title (and maybe the artist); the artist comes from the
/// page's JSON, else the title, else the description's second part.
pub open spec fn page_meta(
    og_title: Option<Seq<char>>,
    og_desc: Option<Seq<char>>,
    json_artist: Option<Seq<char>>,
    thumbnail: Option<Seq<char>>,
) -> (Seq<char>, Seq<char>, Option<Seq<char>>) {
    let raw_title = match og_title {
        Some(t) => t,
        None => "Unknown title"@,
    };
    let (title, from_title) = title_artist(raw_title);
    let artist = match json_artist {
        Some(a) => a,
        None => match from_title {
            Some(a) => a,
            None => match og_desc {
                Some(d) => match second_piece(d, " · "@) {
                    Some(p) => trim(p),
                    None => "Unknown artist"@,
                },
                None => "Unknown artist"@,
            },
        },
    };
    (title, artist, thumbnail)
}

/// Builds a track's metadata from what was captured on its page.
pub fn meta_from_captures(
    og_title: Option<String>,
    og_desc: Option<String>,
    json_artist: Option<String>,
    thumbnail: Option<String>,
) -> (m: OembedMeta)
    ensures
        (m.title@, m.artist@, opt_seq(m.thumbnail)) == page_meta(
            opt_seq(og_title),
            opt_seq(og_desc),
            opt_seq(json_artist),
            opt_seq(thumbnail),
        ),
{
    let raw_title = match og_title {
        Some(t) => t,
        None => to_owned("Unknown title"),
    };
    let (title, from_title) = split_title_artist(raw_title.as_str());
    let artist = match json_artist {
        Some(a) => a,
        None => match from_title {
            Some(a) => a,
            None => match og_desc {
                Some(d) => {
                    let dv = chars_of(d.as_str());
                    match second_piece_chars(&dv, " · ") {
                        Some(p) => {
                            let t = trim_chars(&p);
                            string_from_chars(&t)
                        },
                        None => to_owned("Unknown artist"),
                    }
                },
                None => to_owned("Unknown artist"),
            },
        },
    };
    OembedMeta { title, artist, thumbnail }
}

/// The capture of the first pattern, else of the second.
pub open spec fn first_capture_of(
    html: Seq<char>,
    a: Seq<char>,
    b: Seq<char>,
) -> Option<Seq<char>> {
    match regex_first_group(a, html) {
        Some(m) => Some(unescaped(m)),
        None => match regex_first_group(b, html) {
            Some(m) => Some(unescaped(m)),
            None => None,
        },
    }
}

/// Title, artist and cover art scraped from a Spotify track page.
pub fn track_meta_from_page(html: &str) -> (m: OembedMeta)
    ensures
        (m.title@, m.artist@, opt_seq(m.thumbnail)) == page_meta(
            first_capture_of(html@, RE_OG_TITLE@, RE_OG_TITLE_REV@),
            first_capture_of(html@, RE_OG_DESCRIPTION@, RE_OG_DESCRIPTION@),
            first_capture_of(html@, RE_ARTISTS_JSON@, RE_AUTHOR_JSON@),
            first_capture_of(html@, RE_OG_IMAGE@, RE_OG_IMAGE@),
        ),
{
    let og_title = match capture_first(html, RE_OG_TITLE) {
        Some(t) => Some(t),
        None => capture_first(html, RE_OG_TITLE_REV),
    };
    let og_desc = capture_first(html, RE_OG_DESCRIPTION);
    let json_artist = match capture_first(html, RE_ARTISTS_JSON) {
        Some(a) => Some(a),
        None => capture_first(html, RE_AUTHOR_JSON),
    };
    let thumbnail = capture_first(html, RE_OG_IMAGE);
    meta_from_captures(og_title, og_desc, json_artist, thumbnail)
}

/// Whether a scraped track page should replace oEmbed's answer: it does when
/// oEmbed named no real artist.
pub fn needs_page_scrape(meta: &OembedMeta) -> (r: bool)
    ensures
        r == placeholder_artist(meta.artist@),
{
    is_placeholder_artist(meta.artist.as_str())
}

/// oEmbed metadata completed from the scraped page: its artist when it is a
/// real one, its title when oEmbed had none.
pub fn merge_scraped_meta(meta: OembedMeta, scraped: OembedMeta) -> (m: OembedMeta)
    ensures
        m.artist@ == (if !placeholder_artist(scraped.artist@) {
            scraped.artist@
        } else {
            meta.artist@
        }),
        m.title@ == (if scraped.title@.len() > 0 && (meta.title@.len() == 0 || meta.title@
            == "Unknown title"@) {
            scraped.title@
        } else {
            meta.title@
        }),
        opt_seq(m.thumbnail) == opt_seq(meta.thumbnail),
{
    let artist = if !is_placeholder_artist(scraped.artist.as_str()) {
        scraped.artist
    } else {
        meta.artist
    };
    let title = if !scraped.title.as_str().is_empty() && (meta.title.as_str().is_empty() || str_eq(
        meta.title.as_str(),
        "Unknown title",
    )) {
        scraped.title
    } else {
        meta.title
    };
    OembedMeta { title, artist, thumbnail: meta.thumbnail }
}

/// The final metadata of a Spotify track: the title is cleaned, and a
/// placeholder artist is replaced by the one named in the title.
pub fn finish_track_meta(meta: OembedMeta) -> (m: OembedMeta)
    ensures
        m.title@ == title_artist(meta.title@).0,
        m.artist@ == (if placeholder_artist(meta.artist@) && title_artist(meta.title@).1 is Some {
            title_artist(meta.title@).1->0
        } else {
            meta.artist@
        }),
        opt_seq(m.thumbnail) == opt_seq(meta.thumbnail),
{
    let (title, from_title) = split_title_artist(meta.title.as_str());
    let artist = if is_placeholder_artist(meta.artist.as_str()) {
        match from_title {
            Some(a) => a,
            None => meta.artist,
        }
    } else {
        meta.artist
    };
    OembedMeta { title, artist, thumbnail: meta.thumbnail }
}

// ---------------------------------------------------------------------------
// Expanding input into batches
// ---------------------------------------------------------------------------

/// An item seen as `(title, artist, source URL, source kind, yt-dlp query)`.
pub type ItemView = (Seq<char>, Seq<char>, Seq<char>, Seq<char>, Seq<char>);

pub open spec fn item_view(i: ResolvedItem) -> ItemView {
    (i.title@, i.artist@, i.source_url@, i.source_kind@, i.ytdlp_query@)
}

pub open spec fn items_view(v: Seq<ResolvedItem>) -> Seq<ItemView> {
    v.map_values(|i: ResolvedItem| item_view(i))
}

fn make_item(
    title: String,
    artist: String,
    source_url: String,
    source_kind: String,
    ytdlp_query: String,
) -> (i: ResolvedItem)
    ensures
        item_view(i) == (title@, artist@, source_url@, source_kind@, ytdlp_query@),
{
    ResolvedItem { title, artist, source_url, source_kind, ytdlp_query }
}

/// How one (trimmed) input is expanded.
pub enum InputPlan {
    /// A Spotify link: resolved through Spotify's pages.
    Spotify,
    /// A YouTube playlist: listed by yt-dlp.
    YoutubePlaylist,
    /// A single video link or a search, ready as it is.
    Direct(ResolvedItem),
}

/// The plan for an input, with the item for a direct one.
pub open spec fn input_plan(input: Seq<char>) -> (int, Option<ItemView>) {
    if contains(input, "open.spotify.com"@) || "spotify:"@.is_prefix_of(input) {
        (0, None)
    } else if "http://"@.is_prefix_of(input) || "https://"@.is_prefix_of(input) {
        if playlist_url(lowered(input)) {
            (1, None)
        } else {
            (2, Some(("Resolving…"@, "YouTube"@, input, url_kind(input), input)))
        }
    } else {
        (2, Some((input, "Search"@, input, "search"@, "ytsearch1:"@ + input)))
    }
}

pub open spec fn plan_view(p: InputPlan) -> (int, Option<ItemView>) {
    match p {
        InputPlan::Spotify => (0, None),
        InputPlan::YoutubePlaylist => (1, None),
        InputPlan::Direct(i) => (2, Some(item_view(i))),
    }
}

/// Decides how an input line (already trimmed) is expanded: Spotify links
/// and YouTube playlists need a lookup; a video link or a search phrase
/// becomes one item directly.
pub fn plan_input(input: &str) -> (p: InputPlan)
    ensures
        plan_view(p) == input_plan(input@),
{
    if is_spotify_url(input) {
        return InputPlan::Spotify;
    }
    if looks_like_url(input) {
        if is_youtube_playlist_url(input) {
            return InputPlan::YoutubePlaylist;
        }
        return InputPlan::Direct(
            make_item(
                to_owned("Resolving…"),
                to_owned("YouTube"),
                to_owned(input),
                kind_from_url(input),
                to_owned(input),
            ),
        );
    }
    let mut q = chars_of("ytsearch1:");
    push_str(&mut q, input);
    InputPlan::Direct(
        make_item(
            to_owned(input),
            to_owned("Search"),
            to_owned(input),
            to_owned("search"),
            string_from_chars(&q),
        ),
    )
}

/// The batches that hold at least one item, in order.
pub open spec fn nonempty_batches(s: Seq<ResolvedBatch>) -> Seq<ResolvedBatch>
    decreases s.len(),
{
    if s.len() == 0 {
        Seq::empty()
    } else {
        let r = nonempty_batches(s.drop_last());
        if s.last().items@.len() > 0 {
            r.push(s.last())
        } else {
            r
        }
    }
}

pub const MSG_NOTHING_TO_INGEST: &'static str = "No valid links or queries were provided";

/// The batches that the inputs expanded to, without the empty ones; an
/// error when none is left.
pub fn keep_batches(batches: Vec<ResolvedBatch>) -> (r: Result<Vec<ResolvedBatch>, crate::error::AppError>)
    ensures
        match r {
            Ok(v) => v@ == nonempty_batches(batches@) && v@.len() > 0,
            Err(e) => nonempty_batches(batches@).len() == 0 && e.text() == MSG_NOTHING_TO_INGEST@,
        },
{
    let ghost orig = batches@;
    assert(orig.len() == batches.len());
    let mut rest = batches;
    let mut out: Vec<ResolvedBatch> = Vec::new();
    let mut k: usize = 0;
    assert(orig.take(0) =~= Seq::<ResolvedBatch>::empty());
    assert(orig.skip(0) =~= orig);
    while rest.len() > 0
        invariant
            k <= orig.len(),
            orig.len() <= usize::MAX,
            rest@ == orig.skip(k as int),
            out@ == nonempty_batches(orig.take(k as int)),
        decreases rest.len(),
    {
        assert(orig.skip(k as int).len() == orig.len() - k);
        let b = rest.remove(0);
        assert(b == orig[k as int]);
        assert(orig.take(k + 1).drop_last() =~= orig.take(k as int));
        assert(orig.take(k + 1).last() == orig[k as int]);
        if b.items.len() > 0 {
            out.push(b);
        }
        assert(rest@ =~= orig.skip(k + 1));
        k = k + 1;
    }
    assert(orig.take(k as int) =~= orig);
    if out.len() == 0 {
        Err(crate::error::AppError::msg(MSG_NOTHING_TO_INGEST))
    } else {
        Ok(out)
    }
}

/// `as_str` of a looked-up value, else `fallback`.
pub open spec fn text_or(o: Option<JsonView>, fallback: Seq<char>) -> Seq<char> {
    match text_of(o) {
        Some(s) => s,
        None => fallback,
    }
}

/// Most tracks taken from one YouTube playlist.
pub const MAX_PLAYLIST_ITEMS: usize = 80;

/// The item for an entry of a flat playlist listing, from a playlist link
/// of this kind, if the entry links to a video (`null` entries are skipped).
pub open spec fn entry_item(e: JsonView, kind: Seq<char>) -> Option<ItemView> {
    let id = text_or(member(e, "id"@), Seq::empty());
    let webpage = text_or(member_or(e, "webpage_url"@, "url"@), Seq::empty());
    let source = if "http"@.is_prefix_of(webpage) {
        Some(webpage)
    } else if id.len() > 0 {
        Some("https://www.youtube.com/watch?v="@ + id)
    } else {
        None
    };
    if e is Null {
        None
    } else {
        match source {
            Some(src) => Some(
                (
                    text_or(member(e, "title"@), "Playlist item"@),
                    text_or(member_or(e, "uploader"@, "channel"@), "YouTube"@),
                    src,
                    kind,
                    src,
                ),
            ),
            None => None,
        }
    }
}

/// The items of the first entries that link to videos, at most 80.
pub open spec fn listing_items(entries: Seq<JsonView>, kind: Seq<char>) -> Seq<ItemView>
    decreases entries.len(),
{
    if entries.len() == 0 {
        Seq::empty()
    } else {
        let c = listing_items(entries.drop_last(), kind);
        if c.len() >= MAX_PLAYLIST_ITEMS {
            c
        } else {
            match entry_item(entries.last(), kind) {
                Some(i) => c.push(i),
                None => c,
            }
        }
    }
}

/// A YouTube playlist never yields more than 80 tracks, and only entries
/// that link to a video become tracks.
pub proof fn law_playlist_is_capped(entries: Seq<JsonView>, kind: Seq<char>)
    ensures
        listing_items(entries, kind).len() <= MAX_PLAYLIST_ITEMS,
        listing_items(entries, kind).len() <= entries.len(),
    decreases entries.len(),
{
    if entries.len() > 0 {
        law_playlist_is_capped(entries.drop_last(), kind);
    }
}

/// The `entries` array of a listing, or none.
pub open spec fn playlist_entries(j: JsonView) -> Seq<JsonView> {
    match items_of(member(j, "entries"@)) {
        Some(a) => a,
        None => Seq::empty(),
    }
}

/// The cover of a listing: the `url` of its last thumbnail, else its
/// `thumbnail`.
pub open spec fn playlist_cover(j: JsonView) -> Option<Seq<char>> {
    let last = match items_of(member(j, "thumbnails"@)) {
        Some(a) => if a.len() > 0 {
            text_of(member(a.last(), "url"@))
        } else {
            None
        },
        None => None,
    };
    match last {
        Some(c) => Some(c),
        None => text_of(member(j, "thumbnail"@)),
    }
}

fn item_for_entry(e: &JsonValue, url: &str) -> (r: Option<ResolvedItem>)
    ensures
        match r {
            Some(i) => entry_item(e@, url_kind(url@)) == Some(item_view(i)),
            None => entry_item(e@, url_kind(url@)) is None,
        },
{
    if e.is_null() {
        return None;
    }
    let id: Vec<char> = match text_member(e, "id") {
        Some(s) => chars_of(s.as_str()),
        None => Vec::new(),
    };
    let webpage: Vec<char> = match text_member_or(e, "webpage_url", "url") {
        Some(s) => chars_of(s.as_str()),
        None => Vec::new(),
    };
    let source = if starts_with_str(&webpage, "http") {
        string_from_chars(&webpage)
    } else if id.len() > 0 {
        let mut v = chars_of("https://www.youtube.com/watch?v=");
        push_chars(&mut v, &id);
        string_from_chars(&v)
    } else {
        return None;
    };
    let title = match text_member(e, "title") {
        Some(t) => t,
        None => to_owned("Playlist item"),
    };
    let artist = match text_member_or(e, "uploader", "channel") {
        Some(a) => a,
        None => to_owned("YouTube"),
    };
    let query = to_owned(source.as_str());
    Some(make_item(title, artist, source, kind_from_url(url), query))
}

/// A batch seen as its playlist `(title, artist, source URL, kind, cover)`
/// and its items.
pub type BatchView = (
    Option<(Seq<char>, Seq<char>, Seq<char>, Seq<char>, Option<Seq<char>>)>,
    Seq<ItemView>,
);

pub open spec fn batch_view(b: ResolvedBatch) -> BatchView {
    (
        match b.playlist {
            Some(p) => Some((p.title@, p.artist@, p.source_url@, p.source_kind@, opt_seq(p.cover_url))),
            None => None,
        },
        items_view(b.items@),
    )
}

/// A batch or the message of its error.
pub open spec fn batch_result_view(r: Result<ResolvedBatch, crate::error::AppError>) -> Result<
    BatchView,
    Seq<char>,
> {
    match r {
        Ok(b) => Ok(batch_view(b)),
        Err(e) => Err(e.text()),
    }
}

pub const MSG_EMPTY_PLAYLIST: &'static str = "That playlist had no playable entries. Paste a single video URL instead.";

/// The batch for the flat listing `j` of the YouTube playlist at `url`: its
/// video entries (at most 80) under the playlist's title, uploader and
/// cover, or an error when no entry is playable.
pub open spec fn playlist_result(url: Seq<char>, j: JsonView) -> Result<BatchView, Seq<char>> {
    let items = listing_items(playlist_entries(j), url_kind(url));
    if items.len() == 0 {
        Err(MSG_EMPTY_PLAYLIST@)
    } else {
        Ok(
            (
                Some(
                    (
                        text_or(member(j, "title"@), "YouTube playlist"@),
                        text_or(member_or(j, "uploader"@, "channel"@), "YouTube"@),
                        url,
                        url_kind(url),
                        playlist_cover(j),
                    ),
                ),
                items,
            ),
        )
    }
}

/// The batch for a YouTube playlist listing as printed by
/// `yt-dlp -J --flat-playlist`.
pub fn playlist_batch(url: &str, json: &JsonValue) -> (r: Result<ResolvedBatch, crate::error::AppError>)
    ensures
        batch_result_view(r) == playlist_result(url@, json@),
{
    let ghost kind = url_kind(url@);
    let empty: Vec<JsonValue> = Vec::new();
    let entries: &Vec<JsonValue> = match json.get("entries") {
        Some(x) => match x.items() {
            Some(a) => a,
            None => &empty,
        },
        None => &empty,
    };
    let ghost ev = entries@.map_values(|x: JsonValue| x@);
    assert(ev =~= playlist_entries(json@));
    let mut items: Vec<ResolvedItem> = Vec::new();
    let mut i: usize = 0;
    assert(ev.take(0) =~= Seq::<JsonView>::empty());
    while i < entries.len()
        invariant
            i <= entries@.len(),
            kind == url_kind(url@),
            ev == entries@.map_values(|x: JsonValue| x@),
            items_view(items@) == listing_items(ev.take(i as int), kind),
        decreases entries.len() - i,
    {
        let ghost t = ev.take(i + 1);
        assert(t.drop_last() =~= ev.take(i as int));
        assert(t.last() == entries@[i as int]@);
        if items.len() < MAX_PLAYLIST_ITEMS {
            match item_for_entry(&entries[i], url) {
                Some(it) => {
                    let ghost before = items_view(items@);
                    items.push(it);
                    assert(items_view(items@) =~= before.push(item_view(it)));
                },
                None => {},
            }
        }
        i = i + 1;
    }
    assert(ev.take(ev.len() as int) =~= ev);
    if items.len() == 0 {
        return Err(crate::error::AppError::msg(MSG_EMPTY_PLAYLIST));
    }
    let title = match text_member(json, "title") {
        Some(t) => t,
        None => to_owned("YouTube playlist"),
    };
    let artist = match text_member_or(json, "uploader", "channel") {
        Some(a) => a,
        None => to_owned("YouTube"),
    };
    let last: Option<String> = match json.get("thumbnails") {
        Some(t) => match t.items() {
            Some(a) => if a.len() > 0 {
                let ghost av = a@.map_values(|x: JsonValue| x@);
                assert(av.last() == a@[a@.len() - 1]@);
                text_member(&a[a.len() - 1], "url")
            } else {
                None
            },
            None => None,
        },
        None => None,
    };
    let cover_url = match last {
        Some(c) => Some(c),
        None => text_member(json, "thumbnail"),
    };
    Ok(
        ResolvedBatch {
            playlist: Some(
                PlaylistMeta {
                    title,
                    artist,
                    source_url: to_owned(url),
                    source_kind: kind_from_url(url),
                    cover_url,
                },
            ),
            items,
        },
    )
}

pub const MSG_INVALID_PLAYLIST_JSON: &'static str = "Playlist metadata was not valid JSON. Try a single track URL.";

/// What a playlist listing run of yt-dlp gives: a failed run with nothing
/// on stdout is its last error line made friendly; otherwise stdout must be
/// JSON, read as the listing.
pub open spec fn playlist_output_result(
    url: Seq<char>,
    success: bool,
    stdout: Seq<u8>,
    stderr: Seq<u8>,
) -> Result<BatchView, Seq<char>> {
    if !success && stdout.len() == 0 {
        Err(playlist_error_text(utf8_lossy(stderr)))
    } else {
        match json_from_bytes(stdout) {
            None => Err(MSG_INVALID_PLAYLIST_JSON@),
            Some(j) => playlist_result(url, j),
        }
    }
}

/// The batch for a YouTube playlist from what `yt-dlp -J --flat-playlist`
/// wrote and whether it succeeded.
pub fn playlist_from_output(url: &str, success: bool, stdout: &[u8], stderr: &[u8]) -> (r: Result<
    ResolvedBatch,
    crate::error::AppError,
>)
    ensures
        batch_result_view(r) == playlist_output_result(url@, success, stdout@, stderr@),
{
    if !success && stdout.len() == 0 {
        let err = string_from_utf8_lossy(stderr);
        let m = playlist_error_message(err.as_str());
        return Err(crate::error::AppError::from_string(m));
    }
    match parse_json_bytes(stdout) {
        None => Err(crate::error::AppError::msg(MSG_INVALID_PLAYLIST_JSON)),
        Some(j) => playlist_batch(url, &j),
    }
}

/// A Spotify link that names a playlist or an album.
pub fn is_spotify_collection(url: &str) -> (r: bool)
    ensures
        r == (contains(url@, "/playlist/"@) || contains(url@, "/album/"@)),
{
    let v = chars_of(url);
    contains_str(&v, "/playlist/") || contains_str(&v, "/album/")
}

/// The batch for a Spotify playlist or album, given its tracks and (when
/// Spotify answered) its oEmbed metadata; an error names the collection
/// when no track could be read.
pub fn spotify_collection_batch(
    url: String,
    tracks: Vec<ResolvedItem>,
    meta: Option<OembedMeta>,
) -> (r: Result<ResolvedBatch, crate::error::AppError>)
    ensures
        match r {
            Ok(b) => tracks@.len() > 0 && batch_view(b) == (
                Some(
                    (
                        match meta {
                            Some(m) => m.title@,
                            None => "Spotify playlist"@,
                        },
                        match meta {
                            Some(m) => m.artist@,
                            None => "Spotify"@,
                        },
                        url@,
                        if contains(url@, "/album/"@) {
                            "spotify-album"@
                        } else {
                            "spotify-playlist"@
                        },
                        match meta {
                            Some(m) => opt_seq(m.thumbnail),
                            None => None,
                        },
                    ),
                ),
                items_view(tracks@),
            ),
            Err(e) => tracks@.len() == 0 && e.text() == "Could not read Spotify tracks from “"@
                + match meta {
                Some(m) => m.title@,
                None => "this collection"@,
            } + "”. Open the playlist, copy individual track links, or paste the YouTube Music playlist URL."@,
        },
{
    if tracks.len() == 0 {
        let mut m = chars_of("Could not read Spotify tracks from “");
        match &meta {
            Some(x) => push_str(&mut m, x.title.as_str()),
            None => push_str(&mut m, "this collection"),
        }
        push_str(
            &mut m,
            "”. Open the playlist, copy individual track links, or paste the YouTube Music playlist URL.",
        );
        let ms = string_from_chars(&m);
        return Err(crate::error::AppError::from_string(ms));
    }
    let uv = chars_of(url.as_str());
    let kind = if contains_str(&uv, "/album/") {
        to_owned("spotify-album")
    } else {
        to_owned("spotify-playlist")
    };
    let (title, artist, cover_url) = match meta {
        Some(m) => (m.title, m.artist, m.thumbnail),
        None => (to_owned("Spotify playlist"), to_owned("Spotify"), None),
    };
    Ok(
        ResolvedBatch {
            playlist: Some(PlaylistMeta { title, artist, source_url: url, source_kind: kind, cover_url }),
            items: tracks,
        },
    )
}

/// The batch for a single Spotify track.
pub fn spotify_track_batch(meta: OembedMeta, url: String) -> (b: ResolvedBatch)
    ensures
        b.playlist is None,
        b.items@.len() == 1,
        b.items@[0].title@ == title_artist(meta.title@).0,
        b.items@[0].artist@ == (if placeholder_artist(meta.artist@) && title_artist(meta.title@).1 is Some {
            title_artist(meta.title@).1->0
        } else {
            meta.artist@
        }),
        b.items@[0].source_url@ == url@,
        b.items@[0].source_kind@ == "spotify"@,
        b.items@[0].ytdlp_query@ == search_query(b.items@[0].title@, b.items@[0].artist@),
{
    let item = spotify_item(meta.title, meta.artist, url);
    let mut items: Vec<ResolvedItem> = Vec::new();
    items.push(item);
    ResolvedBatch { playlist: None, items }
}

// ---------------------------------------------------------------------------
// Running yt-dlp
// ---------------------------------------------------------------------------

/// The arguments of a playlist listing run.
pub open spec fn playlist_args_spec(
    runtime: Seq<Seq<char>>,
    auth: Seq<Seq<char>>,
    url: Seq<char>,
) -> Seq<Seq<char>> {
    seq!["--flat-playlist"@, "-J"@, "--no-download"@, "--ignore-errors"@, "--no-warnings"@]
        + runtime + auth + seq![url]
}

/// The yt-dlp arguments that list a playlist without downloading it.
pub fn playlist_args(runtime: Vec<String>, auth: Vec<String>, url: &str) -> (r: Vec<String>)
    ensures
        strings_view(r@) == playlist_args_spec(strings_view(runtime@), strings_view(auth@), url@),
{
    let mut r: Vec<String> = Vec::new();
    r.push(to_owned("--flat-playlist"));
    r.push(to_owned("-J"));
    r.push(to_owned("--no-download"));
    r.push(to_owned("--ignore-errors"));
    r.push(to_owned("--no-warnings"));
    let ghost head = strings_view(r@);
    let mut runtime = runtime;
    let mut auth = auth;
    let ghost rv = strings_view(runtime@);
    let ghost av = strings_view(auth@);
    r.append(&mut runtime);
    assert(strings_view(r@) =~= head + rv);
    r.append(&mut auth);
    assert(strings_view(r@) =~= head + rv + av);
    let ghost before = strings_view(r@);
    r.push(to_owned(url));
    assert(strings_view(r@) =~= playlist_args_spec(rv, av, url@));
    r
}

/// The arguments of one download attempt: shared flags, the strategy's
/// format and extraction, output and retry flags, cookies, player clients,
/// and the query last.
pub open spec fn download_args_spec(
    runtime: Seq<Seq<char>>,
    s: StrategyView,
    output_tpl: Seq<char>,
    cookies: Seq<Seq<char>>,
    query: Seq<char>,
) -> Seq<Seq<char>> {
    runtime + (match s.1 {
        Some(f) => seq!["-f"@, f],
        None => Seq::empty(),
    }) + (if s.3 {
        seq!["-x"@, "--audio-format"@, "best"@, "--prefer-ffmpeg"@]
    } else {
        Seq::empty()
    }) + seq![
        "--no-playlist"@,
        "--no-mtime"@,
        "--newline"@,
        "-o"@,
        output_tpl,
        "--print-json"@,
        "--no-progress"@,
        "--restrict-filenames"@,
        "--retries"@,
        "3"@,
        "--fragment-retries"@,
        "3"@,
    ] + cookies + client_args(s.2) + seq![query]
}

/// Every download attempt fetches one video only: whatever the strategy,
/// cookies and query, `--no-playlist` comes before the query, which is the
/// last argument, and the output template follows `-o`.
pub proof fn law_download_is_single_video(
    runtime: Seq<Seq<char>>,
    s: StrategyView,
    output_tpl: Seq<char>,
    cookies: Seq<Seq<char>>,
    query: Seq<char>,
)
    ensures
        ({
            let a = download_args_spec(runtime, s, output_tpl, cookies, query);
            &&& a.len() > 0
            &&& a.last() == query
            &&& a.take(a.len() - 1).contains("--no-playlist"@)
            &&& exists|k: int| 0 <= k < a.len() - 2 && #[trigger] a[k] == "-o"@ && a[k + 1] == output_tpl
            &&& a.take(runtime.len() as int) == runtime
            &&& (s.1 matches Some(f) ==> a[runtime.len() as int] == "-f"@ && a[runtime.len() + 1int] == f)
            &&& (s.3 ==> a.contains("-x"@))
            &&& a.len() >= cookies.len() + client_args(s.2).len() + 1
            &&& a.subrange(
                a.len() - 1 - cookies.len() - client_args(s.2).len(),
                a.len() - 1,
            ) == cookies + client_args(s.2)
        }),
{
    let a = download_args_spec(runtime, s, output_tpl, cookies, query);
    let k: int = runtime.len() + (if s.1 is Some {
        2int
    } else {
        0int
    }) + (if s.3 {
        4int
    } else {
        0int
    });
    assert(a[k] == "--no-playlist"@);
    assert(a.take(a.len() - 1)[k] == "--no-playlist"@);
    assert(a[k + 3] == "-o"@);
    assert(a[k + 4] == output_tpl);
    assert(a.take(runtime.len() as int) =~= runtime);
    if s.3 {
        let x = runtime.len() + (if s.1 is Some {
            2int
        } else {
            0int
        });
        assert(a[x] == "-x"@);
    }
    let tail = cookies + client_args(s.2);
    assert(a.subrange(a.len() - 1 - tail.len(), a.len() - 1) =~= tail);
}

/// The yt-dlp arguments of one download attempt with a strategy.
pub fn download_args(
    runtime: Vec<String>,
    strategy: &DownloadStrategy,
    output_tpl: &str,
    cookies: Vec<String>,
    query: &str,
) -> (r: Vec<String>)
    ensures
        strings_view(r@) == download_args_spec(
            strings_view(runtime@),
            strategy@,
            output_tpl@,
            strings_view(cookies@),
            query@,
        ),
{
    let mut r = runtime;
    let ghost a = strings_view(r@);
    if let Some(f) = strategy.format {
        r.push(to_owned("-f"));
        r.push(to_owned(f));
    }
    if strategy.extract_audio {
        r.push(to_owned("-x"));
        r.push(to_owned("--audio-format"));
        r.push(to_owned("best"));
        r.push(to_owned("--prefer-ffmpeg"));
    }
    r.push(to_owned("--no-playlist"));
    r.push(to_owned("--no-mtime"));
    r.push(to_owned("--newline"));
    r.push(to_owned("-o"));
    r.push(to_owned(output_tpl));
    r.push(to_owned("--print-json"));
    r.push(to_owned("--no-progress"));
    r.push(to_owned("--restrict-filenames"));
    r.push(to_owned("--retries"));
    r.push(to_owned("3"));
    r.push(to_owned("--fragment-retries"));
    r.push(to_owned("3"));
    let ghost b = strings_view(r@);
    let mut cookies = cookies;
    let ghost cv = strings_view(cookies@);
    r.append(&mut cookies);
    assert(strings_view(r@) =~= b + cv);
    let mut client = ytdlp_client_args(strategy.client_args);
    let ghost clv = strings_view(client@);
    r.append(&mut client);
    assert(strings_view(r@) =~= b + cv + clv);
    r.push(to_owned(query));
    assert(strings_view(r@) =~= download_args_spec(a, strategy@, output_tpl@, cv, query@));
    r
}

/// A file left by a download attempt (`source.<ext>`).
pub fn is_source_file_name(name: &str) -> (r: bool)
    ensures
        r == "source."@.is_prefix_of(name@),
{
    let v = chars_of(name);
    starts_with_str(&v, "source.")
}

/// A finished download (`source.<ext>`, not a `.partial` file).
pub fn is_downloaded_source_name(name: &str) -> (r: bool)
    ensures
        r == ("source."@.is_prefix_of(name@) && !".partial"@.is_suffix_of(name@)),
{
    let v = chars_of(name);
    starts_with_str(&v, "source.") && !ends_with_str(&v, ".partial")
}

/// A line of yt-dlp's output that holds the JSON description of the download.
pub fn is_json_line(line: &str) -> (r: bool)
    ensures
        r == "{"@.is_prefix_of(line@),
{
    let v = chars_of(line);
    starts_with_str(&v, "{")
}

/// A member of yt-dlp's JSON record read as an optional string: absent or
/// `null` is no value, a string is its text, and any other value makes the
/// whole record unreadable.
pub open spec fn optional_text(j: JsonView, key: Seq<char>) -> Option<Option<Seq<char>>> {
    match member(j, key) {
        None => Some(None),
        Some(JsonView::Null) => Some(None),
        Some(JsonView::Str(s)) => Some(Some(s)),
        Some(_) => None,
    }
}

/// A member of yt-dlp's JSON record read as an optional number.
pub open spec fn optional_number_ok(j: JsonView, key: Seq<char>) -> bool {
    match member(j, key) {
        None => true,
        Some(JsonView::Null) => true,
        Some(JsonView::Number) => true,
        Some(_) => false,
    }
}

/// The fields read from yt-dlp's record of a download:
/// `(title, uploader, artist, track, thumbnail)`.
pub type RecordView = (
    Option<Seq<char>>,
    Option<Seq<char>>,
    Option<Seq<char>>,
    Option<Seq<char>>,
    Option<Seq<char>>,
);

/// The record in the JSON object `j`, if each field read has its type
/// (the `duration` too, which is read elsewhere as a number).
pub open spec fn download_record(j: JsonView) -> Option<RecordView> {
    if j is Object && optional_text(j, "title"@) is Some && optional_text(j, "uploader"@) is Some
        && optional_text(j, "artist"@) is Some && optional_text(j, "track"@) is Some
        && optional_text(j, "thumbnail"@) is Some && optional_number_ok(j, "duration"@) {
        Some(
            (
                optional_text(j, "title"@)->0,
                optional_text(j, "uploader"@)->0,
                optional_text(j, "artist"@)->0,
                optional_text(j, "track"@)->0,
                optional_text(j, "thumbnail"@)->0,
            ),
        )
    } else {
        None
    }
}

/// The record printed on the JSON line of a download, if there is one and
/// it reads.
pub open spec fn line_record(line: Option<Seq<char>>) -> Option<RecordView> {
    match line {
        Some(l) => match json_from_text(l) {
            Some(j) => download_record(j),
            None => None,
        },
        None => None,
    }
}

/// `a`, else `b`, else `fallback`.
pub open spec fn first_text(a: Option<Seq<char>>, b: Option<Seq<char>>, fallback: Seq<char>) -> Seq<char> {
    match a {
        Some(x) => x,
        None => match b {
            Some(y) => y,
            None => fallback,
        },
    }
}

/// What a finished download is called and where its cover is: the track
/// name, else the title; the artist, else the uploader; the thumbnail.
/// `has_record` tells whether the JSON line was read at all.
pub struct TrackMeta {
    pub title: String,
    pub artist: String,
    pub thumbnail: Option<String>,
    pub has_record: bool,
}

pub open spec fn opt_opt_seq(o: Option<Option<String>>) -> Option<Option<Seq<char>>> {
    match o {
        Some(x) => Some(opt_seq(x)),
        None => None,
    }
}

fn optional_text_member(j: &JsonValue, key: &str) -> (r: Option<Option<String>>)
    ensures
        opt_opt_seq(r) == optional_text(j@, key@),
{
    match j.get(key) {
        None => Some(None),
        Some(v) => if v.is_null() {
            Some(None)
        } else {
            match v.text() {
                Some(s) => Some(Some(s)),
                None => None,
            }
        },
    }
}

fn optional_number_member(j: &JsonValue, key: &str) -> (r: bool)
    ensures
        r == optional_number_ok(j@, key@),
{
    match j.get(key) {
        None => true,
        Some(v) => v.is_null() || v.is_number(),
    }
}

/// The metadata of a finished download from the last JSON line that
/// yt-dlp printed (one that `is_json_line` accepts), if any; where the line
/// is missing or does not read, the placeholders "Unknown title" and
/// "Unknown artist" and no cover.
pub fn track_meta(json_line: Option<&str>) -> (r: TrackMeta)
    requires
        json_line matches Some(l) ==> "{"@.is_prefix_of(l@),
    ensures
        r.has_record == line_record(opt_view(json_line)) is Some,
        ({
            let (title, uploader, artist, track, thumbnail) = match line_record(opt_view(json_line)) {
                Some(rec) => rec,
                None => (None, None, None, None, None),
            };
            &&& r.title@ == first_text(track, title, "Unknown title"@)
            &&& r.artist@ == first_text(artist, uploader, "Unknown artist"@)
            &&& opt_seq(r.thumbnail) == thumbnail
        }),
{
    let j = match json_line {
        Some(l) => parse_json_text(l),
        None => None,
    };
    let mut title: Option<String> = None;
    let mut uploader: Option<String> = None;
    let mut artist: Option<String> = None;
    let mut track: Option<String> = None;
    let mut thumbnail: Option<String> = None;
    let mut has_record = false;
    if let Some(j) = j {
        if j.is_object() {
            let t = optional_text_member(&j, "title");
            let u = optional_text_member(&j, "uploader");
            let a = optional_text_member(&j, "artist");
            let k = optional_text_member(&j, "track");
            let h = optional_text_member(&j, "thumbnail");
            let d = optional_number_member(&j, "duration");
            if let (Some(t), Some(u), Some(a), Some(k), Some(h), true) = (t, u, a, k, h, d) {
                title = t;
                uploader = u;
                artist = a;
                track = k;
                thumbnail = h;
                has_record = true;
            }
        }
    }
    let title = first_or(track, title, "Unknown title");
    let artist = first_or(artist, uploader, "Unknown artist");
    TrackMeta { title, artist, thumbnail, has_record }
}

/// The first present value, else `fallback`.
pub fn first_or(a: Option<String>, b: Option<String>, fallback: &str) -> (r: String)
    ensures
        r@ == match opt_seq(a) {
            Some(x) => x,
            None => match opt_seq(b) {
                Some(y) => y,
                None => fallback@,
            },
        },
{
    match a {
        Some(x) => x,
        None => match b {
            Some(y) => y,
            None => to_owned(fallback),
        },
    }
}

/// The last line of yt-dlp's error output that is not blank, else a generic
/// message.
pub open spec fn last_error_line(err: Seq<char>) -> Seq<char> {
    last_nonblank(lines(err))
}

/// The last element of `ls` that is not blank, else "yt-dlp failed".
pub open spec fn last_nonblank(ls: Seq<Seq<char>>) -> Seq<char>
    decreases ls.len(),
{
    if ls.len() == 0 {
        "yt-dlp failed"@
    } else if trim(ls.last()).len() > 0 {
        ls.last()
    } else {
        last_nonblank(ls.drop_last())
    }
}

/// The message of a failed yt-dlp run: its last non-blank error line.
pub fn last_error_message(err: &str) -> (r: String)
    ensures
        r@ == last_error_line(err@),
{
    let v = chars_of(err);
    let ls = lines_chars(&v);
    let mut i: usize = ls.len();
    assert(pieces(ls@).take(i as int) =~= pieces(ls@));
    while i > 0
        invariant
            i <= ls@.len(),
            pieces(ls@) == lines(err@),
            last_nonblank(lines(err@)) == last_nonblank(pieces(ls@).take(i as int)),
        decreases i,
    {
        let t = trim_chars(&ls[i - 1]);
        let ghost p = pieces(ls@).take(i as int);
        assert(p.last() == ls@[i - 1]@);
        assert(p.drop_last() =~= pieces(ls@).take(i - 1));
        if t.len() > 0 {
            return string_from_chars(&ls[i - 1]);
        }
        i = i - 1;
    }
    to_owned("yt-dlp failed")
}

/// The last line of yt-dlp's error output, if any.
pub open spec fn last_line(err: Seq<char>) -> Option<Seq<char>> {
    if lines(err).len() > 0 {
        Some(lines(err).last())
    } else {
        None
    }
}

/// The message of a failed playlist listing: its last error line made
/// friendly.
pub open spec fn playlist_error_text(stderr: Seq<char>) -> Seq<char> {
    let l = match last_line(stderr) {
        Some(l) => l,
        None => "yt-dlp failed"@,
    };
    friendly_error(l, lowered(l))
}

/// The message of a failed playlist listing: its last error line made friendly.
pub fn playlist_error_message(stderr: &str) -> (r: String)
    ensures
        r@ == playlist_error_text(stderr@),
{
    let v = chars_of(stderr);
    let ls = lines_chars(&v);
    let line = if ls.len() > 0 {
        string_from_chars(&ls[ls.len() - 1])
    } else {
        to_owned("yt-dlp failed")
    };
    friendly_download_error(line.as_str())
}

/// Whether a failed attempt is followed by the next strategy: only when one
/// is left and the error is one that another strategy may get around.
pub fn retry_with_next(index: usize, count: usize, err: &str) -> (r: bool)
    ensures
        r == (index + 1 < count && retryable_error(lowered(err@))),
{
    index < count && count - index > 1 && is_retryable_download_error(err)
}

// ---------------------------------------------------------------------------
// Local tools
// ---------------------------------------------------------------------------

/// `which::which`: the path of the first executable called `name` on `PATH`.
/// The answer depends on the machine; nothing is stated of it.
#[verifier::external_body]
fn which_tool(name: &str) -> Option<String> {
    which::which(name).ok().map(|p| p.to_string_lossy().into_owned())
}

/// `std::path::Path::is_file`: whether a regular file exists at `path`.
/// The answer depends on the disk; nothing is stated of it.
#[verifier::external_body]
pub(crate) fn path_is_file(path: &str) -> bool {
    std::path::Path::new(path).is_file()
}

/// The tool to run: the one found on `PATH`, else the first fallback that
/// exists (`exists[i]` tells whether `fallbacks[i]` is a file).
pub open spec fn tool_choice(
    on_path: Option<Seq<char>>,
    fallbacks: Seq<Seq<char>>,
    exists: Seq<bool>,
) -> Option<Seq<char>> {
    match on_path {
        Some(p) => Some(p),
        None => if exists_first(fallbacks, exists) {
            Some(fallbacks[first_existing(fallbacks, exists)])
        } else {
            None
        },
    }
}

/// Some fallback exists.
pub open spec fn exists_first(fallbacks: Seq<Seq<char>>, exists: Seq<bool>) -> bool {
    exists|i: int| 0 <= i < fallbacks.len() && i < exists.len() && #[trigger] exists[i]
}

/// The index of the first fallback that exists.
pub open spec fn first_existing(fallbacks: Seq<Seq<char>>, exists: Seq<bool>) -> int {
    choose|i: int|
        0 <= i < fallbacks.len() && i < exists.len() && exists[i] && forall|j: int|
            0 <= j < i ==> !#[trigger] exists[j]
}

/// Picks the tool to run from what was found on `PATH` and which fallbacks
/// exist.
pub fn pick_tool(on_path: Option<String>, fallbacks: &Vec<&'static str>, exists: &Vec<bool>) -> (r:
    Option<String>)
    ensures
        opt_seq(r) == tool_choice(opt_seq(on_path), fallbacks@.map_values(|f: &'static str| f@), exists@),
{
    let ghost fs = fallbacks@.map_values(|f: &'static str| f@);
    if let Some(p) = on_path {
        return Some(p);
    }
    let mut i: usize = 0;
    while i < fallbacks.len() && i < exists.len()
        invariant
            fs == fallbacks@.map_values(|f: &'static str| f@),
            on_path is None,
            i <= fallbacks@.len(),
            forall|j: int| 0 <= j < i ==> j < exists@.len() && !#[trigger] exists@[j],
        decreases fallbacks.len() - i,
    {
        if exists[i] {
            proof {
                assert(exists_first(fs, exists@));
                let k = first_existing(fs, exists@);
                assert(0 <= k < fs.len() && k < exists@.len() && exists@[k] && forall|j: int|
                    0 <= j < k ==> !#[trigger] exists@[j]) by {
                    assert(0 <= i < fs.len() && i < exists@.len() && exists@[i as int] && forall|j: int|
                        0 <= j < i ==> !#[trigger] exists@[j]);
                }
                if k < i {
                    assert(!exists@[k]);
                } else if k > i {
                    assert(!exists@[i as int]);
                }
                assert(k == i);
                assert(fs[i as int] == fallbacks@[i as int]@);
            }
            return Some(to_owned(fallbacks[i]));
        }
        i = i + 1;
    }
    proof {
        if exists_first(fs, exists@) {
            let k = choose|k: int| 0 <= k < fs.len() && k < exists@.len() && #[trigger] exists@[k];
            assert(!exists@[k]);
        }
    }
    None
}

/// The executable called `name` on `PATH`, else the first of `fallbacks`
/// that is a file. Both lookups depend on the machine, so nothing is stated
/// of the result; the choice between them is `pick_tool`'s.
pub fn resolve_tool(name: &str, fallbacks: &Vec<&'static str>) -> Option<String> {
    let on_path = which_tool(name);
    let mut exists: Vec<bool> = Vec::new();
    let mut i: usize = 0;
    while i < fallbacks.len()
        invariant
            i <= fallbacks.len(),
        decreases fallbacks.len() - i,
    {
        exists.push(path_is_file(fallbacks[i]));
        i = i + 1;
    }
    pick_tool(on_path, fallbacks, &exists)
}

/// The name ffmpeg is searched for on `PATH`, and the places tried, in
/// order, when it is not there.
pub fn ffmpeg_lookup() -> (r: (&'static str, Vec<&'static str>))
    ensures
        r.0@ == "ffmpeg"@,
        r.1@.map_values(|f: &'static str| f@) == seq!["/usr/bin/ffmpeg"@, "/usr/local/bin/ffmpeg"@],
{
    let mut fallbacks: Vec<&'static str> = Vec::new();
    fallbacks.push("/usr/bin/ffmpeg");
    fallbacks.push("/usr/local/bin/ffmpeg");
    assert(fallbacks@.map_values(|f: &'static str| f@) =~= seq!["/usr/bin/ffmpeg"@, "/usr/local/bin/ffmpeg"@]);
    ("ffmpeg", fallbacks)
}

/// Where ffmpeg is, if it is installed: the lookup of `ffmpeg_lookup`
/// handed to `resolve_tool`. The answer depends on the machine, so nothing
/// is stated of it; the choice between the places is `pick_tool`'s.
pub fn resolve_ffmpeg() -> Option<String> {
    let (name, fallbacks) = ffmpeg_lookup();
    resolve_tool(name, &fallbacks)
}

/// Whether ffmpeg is installed (see `resolve_ffmpeg`). The answer depends on
/// the machine, so nothing is stated of it.
pub fn ffmpeg_available() -> bool {
    resolve_ffmpeg().is_some()
}

} // verus!
