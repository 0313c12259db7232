//! The decisions behind the app's commands: stored preferences and their
//! defaults, validation of user input, export file names, and what the job
//! runner does with a queued track.
use vstd::prelude::*;

use crate::download::{download_query, resolve_download_query, DEFAULT_DOWNLOAD_FORMAT};
use crate::error::AppError;
use crate::models::DEFAULT_MODEL_ID;
use crate::text::{
    chars_of, is_blank, lowered, push_str, str_eq, string_from_chars, to_lowercase,
    to_owned, trim, trimmed,
};
use crate::tools::{Platform, TargetOs};

verus! {

/// Settings key of the selected model.
pub const SETTING_MODEL: &'static str = "selected_model";

/// The browser whose cookies are used when none is set.
pub open spec fn default_browser_spec(p: Platform) -> Seq<char> {
    match p.os {
        TargetOs::MacOs => "chrome"@,
        TargetOs::Windows => "chrome"@,
        _ => "firefox"@,
    }
}

/// The default browser to read YouTube cookies from on a platform.
pub fn default_cookies_browser(p: Platform) -> (r: &'static str)
    ensures
        r@ == default_browser_spec(p),
{
    match p.os {
        TargetOs::MacOs => "chrome",
        TargetOs::Windows => "chrome",
        _ => "firefox",
    }
}

pub open spec fn opt_string(o: Option<String>) -> Option<Seq<char>> {
    match o {
        Some(s) => Some(s@),
        None => None,
    }
}

/// The selected model id, or the default model when none is stored.
pub fn selected_model_id(stored: Option<String>) -> (r: String)
    ensures
        r@ == match opt_string(stored) {
            Some(s) => s,
            None => DEFAULT_MODEL_ID@,
        },
{
    match stored {
        Some(s) => s,
        None => to_owned(DEFAULT_MODEL_ID),
    }
}

/// A stored setting, unless it is missing or blank.
pub open spec fn nonblank(stored: Option<Seq<char>>) -> Option<Seq<char>> {
    match stored {
        Some(s) => if trim(s).len() > 0 {
            Some(s)
        } else {
            None
        },
        None => None,
    }
}

/// A stored setting, unless it is missing or blank.
pub fn nonblank_setting(stored: Option<String>) -> (r: Option<String>)
    ensures
        opt_string(r) == nonblank(opt_string(stored)),
{
    match stored {
        Some(s) => if is_blank(s.as_str()) {
            None
        } else {
            Some(s)
        },
        None => None,
    }
}

/// The browser to read cookies from: the stored one, else the platform default.
pub fn cookies_browser(stored: Option<String>, p: Platform) -> (r: String)
    ensures
        r@ == match nonblank(opt_string(stored)) {
            Some(s) => s,
            None => default_browser_spec(p),
        },
{
    match nonblank_setting(stored) {
        Some(s) => s,
        None => to_owned(default_cookies_browser(p)),
    }
}

/// The download quality preset: the stored one, else "auto".
pub fn download_format(stored: Option<String>) -> (r: String)
    ensures
        r@ == match nonblank(opt_string(stored)) {
            Some(s) => s,
            None => DEFAULT_DOWNLOAD_FORMAT@,
        },
{
    match nonblank_setting(stored) {
        Some(s) => s,
        None => to_owned(DEFAULT_DOWNLOAD_FORMAT),
    }
}

/// The quality presets a user can choose.
pub open spec fn known_preset(key: Seq<char>) -> bool {
    key == "auto"@ || key == "best"@ || key == "any"@ || key == "fast"@
}

/// A quality preset to store, given its normalized (trimmed, lower-cased) form.
pub fn check_download_format(key: String) -> (r: Result<String, AppError>)
    ensures
        match r {
            Ok(v) => known_preset(key@) && v@ == key@,
            Err(e) => !known_preset(key@) && e.text() == "Unknown download quality preset"@,
        },
{
    let k = key.as_str();
    if str_eq(k, "auto") || str_eq(k, "best") || str_eq(k, "any") || str_eq(k, "fast") {
        Ok(key)
    } else {
        Err(AppError::msg("Unknown download quality preset"))
    }
}

/// The quality preset to store for user input: one of "auto", "best", "any",
/// "fast", in any case and with surrounding whitespace.
pub fn normalize_download_format(format: &str) -> (r: Result<String, AppError>)
    ensures
        match r {
            Ok(v) => known_preset(lowered(trim(format@))) && v@ == lowered(trim(format@)),
            Err(e) => !known_preset(lowered(trim(format@))) && e.text()
                == "Unknown download quality preset"@,
        },
{
    let t = trimmed(format);
    let ts = string_from_chars(&t);
    let key = to_lowercase(ts.as_str());
    check_download_format(key)
}

/// The cookies file setting to store for user input: `None` clears it,
/// otherwise the trimmed path (which must name a file).
pub fn cookies_file_input(path: &str) -> (r: Option<String>)
    ensures
        match r {
            Some(p) => trim(path@).len() > 0 && p@ == trim(path@),
            None => trim(path@).len() == 0,
        },
{
    let t = trimmed(path);
    if t.len() == 0 {
        None
    } else {
        Some(string_from_chars(&t))
    }
}

/// A character kept in export file names; others become '_'.
pub open spec fn slug_char(c: char) -> char {
    if ('a' <= c && c <= 'z') || ('A' <= c && c <= 'Z') || ('0' <= c && c <= '9') || c == ' '
        || c == '-' {
        c
    } else {
        '_'
    }
}

/// `"artist - title"` with every character but ASCII letters, digits, spaces
/// and '-' replaced by '_'.
pub open spec fn slug_spec(artist: Seq<char>, title: Seq<char>) -> Seq<char> {
    (artist + " - "@ + title).map_values(|c: char| slug_char(c))
}

/// The base file name under which a track's stems are exported.
pub fn stem_slug(artist: &str, title: &str) -> (r: String)
    ensures
        r@ == slug_spec(artist@, title@),
{
    let mut raw: Vec<char> = chars_of(artist);
    push_str(&mut raw, " - ");
    push_str(&mut raw, title);
    let mut out: Vec<char> = Vec::new();
    let mut i: usize = 0;
    while i < raw.len()
        invariant
            raw@ == artist@ + " - "@ + title@,
            i <= raw.len(),
            out@ == raw@.take(i as int).map_values(|c: char| slug_char(c)),
        decreases raw.len() - i,
    {
        let c = raw[i];
        let k = if ('a' <= c && c <= 'z') || ('A' <= c && c <= 'Z') || ('0' <= c && c <= '9') || c
            == ' ' || c == '-' {
            c
        } else {
            '_'
        };
        out.push(k);
        assert(raw@.take(i + 1) =~= raw@.take(i as int).push(c));
        assert(out@ =~= raw@.take(i + 1).map_values(|c: char| slug_char(c)));
        i = i + 1;
    }
    assert(raw@.take(raw@.len() as int) =~= raw@);
    string_from_chars(&out)
}

/// Export file names only hold letters, digits, spaces, '-' and '_'.
pub proof fn law_slug_is_safe(artist: Seq<char>, title: Seq<char>)
    ensures
        forall|i: int|
            0 <= i < slug_spec(artist, title).len() ==> {
                let c = #[trigger] slug_spec(artist, title)[i];
                ('a' <= c && c <= 'z') || ('A' <= c && c <= 'Z') || ('0' <= c && c <= '9') || c
                    == ' ' || c == '-' || c == '_'
            },
{
}

/// The file names of a track's exported vocals and instrumental.
pub fn export_names(slug: &str) -> (r: (String, String))
    ensures
        r.0@ == slug@ + ".vocals.wav"@,
        r.1@ == slug@ + ".instrumental.wav"@,
{
    let mut a = chars_of(slug);
    push_str(&mut a, ".vocals.wav");
    let mut b = chars_of(slug);
    push_str(&mut b, ".instrumental.wav");
    (string_from_chars(&a), string_from_chars(&b))
}

/// Tracks that are neither ready nor failed are put back in the queue at start-up.
pub fn needs_resume(status: &str) -> (r: bool)
    ensures
        r == (status@ != "ready"@ && status@ != "error"@),
{
    !(str_eq(status, "ready") || str_eq(status, "error"))
}

/// What the job runner does with a queued track.
pub enum JobAction {
    /// The stems exist already.
    Skip,
    /// The audio is downloaded: separate it.
    Separate,
    /// Download with this yt-dlp query, then separate.
    Download(String),
}

/// The stored facts about a track that decide its next job.
pub struct QueuedTrack<'a> {
    pub status: &'a str,
    pub has_vocals: bool,
    pub has_source: bool,
    pub source_kind: &'a str,
    pub title: &'a str,
    pub artist: &'a str,
    pub source_url: Option<&'a str>,
    pub ytdlp_query: Option<&'a str>,
}

pub open spec fn opt_str(o: Option<&str>) -> Option<Seq<char>> {
    match o {
        Some(s) => Some(s@),
        None => None,
    }
}

/// The next job for a track and the query it was queued with: nothing when its
/// stems exist, separation when its audio is there, else a download, with
/// the query rebuilt from the track when the queued one is blank.
pub open spec fn job_action_spec(t: QueuedTrack, query: Seq<char>) -> (int, Seq<char>) {
    if t.status@ == "ready"@ && t.has_vocals {
        (0, Seq::empty())
    } else if t.has_source {
        (1, Seq::empty())
    } else if trim(query).len() == 0 {
        (
            2,
            download_query(
                t.source_kind@,
                t.title@,
                t.artist@,
                opt_str(t.source_url),
                opt_str(t.ytdlp_query),
            ),
        )
    } else {
        (2, query)
    }
}

pub open spec fn action_view(a: JobAction) -> (int, Seq<char>) {
    match a {
        JobAction::Skip => (0, Seq::empty()),
        JobAction::Separate => (1, Seq::empty()),
        JobAction::Download(q) => (2, q@),
    }
}

/// Decides the next job for a queued track.
pub fn queued_job_action(t: &QueuedTrack, query: String) -> (a: JobAction)
    ensures
        action_view(a) == job_action_spec(*t, query@),
{
    if str_eq(t.status, "ready") && t.has_vocals {
        return JobAction::Skip;
    }
    if t.has_source {
        return JobAction::Separate;
    }
    if is_blank(query.as_str()) {
        let q = resolve_download_query(t.source_kind, t.title, t.artist, t.source_url, t.ytdlp_query);
        return JobAction::Download(q);
    }
    JobAction::Download(query)
}

/// The name of the directory, under the tracks directory, that holds a
/// playlist's cover.
pub fn playlist_dir_name(id: &str) -> (r: String)
    ensures
        r@ == "_playlist_"@ + id@,
{
    let mut v = chars_of("_playlist_");
    push_str(&mut v, id);
    string_from_chars(&v)
}

/// What the asset protocol is handed for a stem path: the path itself.
pub fn asset_url(path: String) -> (r: String)
    ensures
        r@ == path@,
{
    path
}

/// `Path::extension` of `path`, taken as text where it is UTF-8. What std
/// counts as the extension is left to the name.
pub uninterp spec fn path_extension(path: Seq<char>) -> Option<Seq<char>>;

/// `Path::file_stem` of `path`, taken as text where it is UTF-8. What std
/// counts as the stem is left to the name.
pub uninterp spec fn path_file_stem(path: Seq<char>) -> Option<Seq<char>>;

/// `Path::extension(..).and_then(OsStr::to_str)`.
#[verifier::external_body]
fn extension_of(path: &str) -> (r: Option<String>)
    ensures
        match r {
            Some(e) => path_extension(path@) == Some(e@),
            None => path_extension(path@) is None,
        },
{
    std::path::Path::new(path).extension().and_then(|e| e.to_str()).map(|e| e.to_string())
}

/// `Path::file_stem(..).and_then(OsStr::to_str)`.
#[verifier::external_body]
fn file_stem_of(path: &str) -> (r: Option<String>)
    ensures
        match r {
            Some(e) => path_file_stem(path@) == Some(e@),
            None => path_file_stem(path@) is None,
        },
{
    std::path::Path::new(path).file_stem().and_then(|e| e.to_str()).map(|e| e.to_string())
}

/// For a local audio file at `path`: the name its copy gets in the track's
/// directory, `source.<extension>` (`source.bin` without one), and the
/// track's title, the file's stem (`Local file` without one).
pub fn local_file_names(path: &str) -> (r: (String, String))
    ensures
        r.0@ == "source."@ + match path_extension(path@) {
            Some(e) => e,
            None => "bin"@,
        },
        r.1@ == match path_file_stem(path@) {
            Some(s) => s,
            None => "Local file"@,
        },
{
    let mut name = chars_of("source.");
    match extension_of(path) {
        Some(e) => push_str(&mut name, e.as_str()),
        None => push_str(&mut name, "bin"),
    }
    let title = match file_stem_of(path) {
        Some(s) => s,
        None => to_owned("Local file"),
    };
    (string_from_chars(&name), title)
}

} // verus!
