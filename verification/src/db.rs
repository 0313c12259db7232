//! Library records that carry no audio data, the steps a track goes
//! through (queued, downloading, downloaded, separating, ready or error),
//! and the clock used to stamp them.
use vstd::prelude::*;

use crate::download::{DownloadResult, PlaylistMeta, ResolvedItem};
use crate::infer::SeparationResult;
use crate::text::to_owned;

verus! {

/// A playlist or album that tracks were imported from.
pub struct Playlist {
    pub id: String,
    pub title: String,
    pub artist: String,
    pub source_url: Option<String>,
    pub source_kind: String,
    pub cover_path: Option<String>,
    pub created_at: i64,
    pub updated_at: i64,
    pub track_count: i64,
    pub ready_count: i64,
}

#[verifier::external_type_specification]
#[verifier::external_body]
pub struct ExSystemTime(std::time::SystemTime);

/// `SystemTime::now`: the time of the system clock. It depends on the
/// time; nothing is stated of it.
#[verifier::external_body]
fn system_now() -> std::time::SystemTime {
    std::time::SystemTime::now()
}

/// `SystemTime::duration_since(UNIX_EPOCH)`: the time elapsed since 1970,
/// or `None` when `t` is earlier. Nothing is stated of the value.
#[verifier::external_body]
fn since_unix_epoch(t: std::time::SystemTime) -> Option<std::time::Duration> {
    t.duration_since(std::time::UNIX_EPOCH).ok()
}

/// `Duration::as_secs`: the whole seconds of `d`. A `Duration` is opaque
/// here, so nothing is stated of the value.
#[verifier::external_body]
fn duration_secs(d: &std::time::Duration) -> u64 {
    d.as_secs()
}

/// The system clock in whole seconds since 1970, or `None` when it reads
/// earlier than that.
fn unix_time_secs() -> Option<u64> {
    match since_unix_epoch(system_now()) {
        Some(d) => Some(duration_secs(&d)),
        None => None,
    }
}

pub const MSG_NO_AUDIO: &'static str = "Track has no downloaded audio yet";

/// A timestamp from a clock reading: the seconds since 1970 (as a signed
/// number), or 0 when the clock is before 1970.
pub fn timestamp_from(secs: Option<u64>) -> (t: i64)
    ensures
        match secs {
            Some(s) => t == s as i64,
            None => t == 0,
        },
{
    match secs {
        Some(s) => s as i64,
        None => 0,
    }
}

/// The current time in seconds since 1970, used for `created_at`/`updated_at`.
/// The reading depends on the time, so nothing is stated of it; how a
/// reading becomes a timestamp is `timestamp_from`'s.
pub fn now_secs() -> i64 {
    timestamp_from(unix_time_secs())
}

/// The playlist record for a batch's collection, `track_count` tracks long,
/// created at `now` with no track ready yet.
pub fn new_playlist(
    id: String,
    meta: PlaylistMeta,
    cover_path: Option<String>,
    track_count: i64,
    now: i64,
) -> (p: Playlist)
    ensures
        p.id == id,
        p.title == meta.title,
        p.artist == meta.artist,
        p.source_url == Some(meta.source_url),
        p.source_kind == meta.source_kind,
        p.cover_path == cover_path,
        p.created_at == now,
        p.updated_at == now,
        p.track_count == track_count,
        p.ready_count == 0,
{
    Playlist {
        id,
        title: meta.title,
        artist: meta.artist,
        source_url: Some(meta.source_url),
        source_kind: meta.source_kind,
        cover_path,
        created_at: now,
        updated_at: now,
        track_count,
        ready_count: 0,
    }
}

/// A track of the library, without its waveform overview.
pub struct TrackRecord {
    pub id: String,
    pub title: String,
    pub artist: String,
    pub source_url: Option<String>,
    pub source_kind: String,
    pub source_path: Option<String>,
    pub vocals_path: Option<String>,
    pub instrumental_path: Option<String>,
    pub cover_path: Option<String>,
    pub duration_ms: Option<i64>,
    pub sample_rate: Option<i64>,
    pub status: String,
    pub error: Option<String>,
    pub created_at: i64,
    pub updated_at: i64,
    pub playlist_id: Option<String>,
    pub playlist_index: Option<i64>,
    pub ytdlp_query: Option<String>,
}

/// What no step changes: the track's identity, where it came from, and
/// its place in a playlist.
pub open spec fn same_origin(a: TrackRecord, b: TrackRecord) -> bool {
    &&& a.id == b.id
    &&& a.source_url == b.source_url
    &&& a.source_kind == b.source_kind
    &&& a.created_at == b.created_at
    &&& a.playlist_id == b.playlist_id
    &&& a.playlist_index == b.playlist_index
    &&& a.ytdlp_query == b.ytdlp_query
}

/// The downloaded audio, its metadata and the stems are the same.
pub open spec fn same_media(a: TrackRecord, b: TrackRecord) -> bool {
    &&& a.title == b.title
    &&& a.artist == b.artist
    &&& a.source_path == b.source_path
    &&& a.vocals_path == b.vocals_path
    &&& a.instrumental_path == b.instrumental_path
    &&& a.cover_path == b.cover_path
    &&& a.duration_ms == b.duration_ms
    &&& a.sample_rate == b.sample_rate
}

impl TrackRecord {
    /// A track queued for download from an expanded input, at `index` in its
    /// playlist (if any).
    pub fn queued(
        id: String,
        item: ResolvedItem,
        playlist_id: Option<String>,
        index: i64,
        now: i64,
    ) -> (t: TrackRecord)
        ensures
            t.id == id,
            t.title == item.title,
            t.artist == item.artist,
            t.source_url == Some(item.source_url),
            t.source_kind == item.source_kind,
            t.source_path is None,
            t.vocals_path is None,
            t.instrumental_path is None,
            t.cover_path is None,
            t.duration_ms is None,
            t.sample_rate is None,
            t.status@ == "queued"@,
            t.error is None,
            t.created_at == now,
            t.updated_at == now,
            t.playlist_id == playlist_id,
            t.playlist_index == Some(index),
            t.ytdlp_query == Some(item.ytdlp_query),
    {
        TrackRecord {
            id,
            title: item.title,
            artist: item.artist,
            source_url: Some(item.source_url),
            source_kind: item.source_kind,
            source_path: None,
            vocals_path: None,
            instrumental_path: None,
            cover_path: None,
            duration_ms: None,
            sample_rate: None,
            status: to_owned("queued"),
            error: None,
            created_at: now,
            updated_at: now,
            playlist_id,
            playlist_index: Some(index),
            ytdlp_query: Some(item.ytdlp_query),
        }
    }

    /// A local file copied into the library at `source_path`, ready to be
    /// separated.
    pub fn local_file(id: String, title: String, path: String, source_path: String, now: i64) -> (t:
        TrackRecord)
        ensures
            t.id == id,
            t.title == title,
            t.artist@ == "Local"@,
            t.source_url == Some(path),
            t.source_kind@ == "local"@,
            t.source_path == Some(source_path),
            t.vocals_path is None,
            t.instrumental_path is None,
            t.cover_path is None,
            t.duration_ms is None,
            t.sample_rate is None,
            t.status@ == "downloaded"@,
            t.error is None,
            t.created_at == now,
            t.updated_at == now,
            t.playlist_id is None,
            t.playlist_index is None,
            t.ytdlp_query is None,
    {
        TrackRecord {
            id,
            title,
            artist: to_owned("Local"),
            source_url: Some(path),
            source_kind: to_owned("local"),
            source_path: Some(source_path),
            vocals_path: None,
            instrumental_path: None,
            cover_path: None,
            duration_ms: None,
            sample_rate: None,
            status: to_owned("downloaded"),
            error: None,
            created_at: now,
            updated_at: now,
            playlist_id: None,
            playlist_index: None,
            ytdlp_query: None,
        }
    }

    /// Queued again (a retry or a priority request): the error is cleared.
    pub fn requeue(&mut self, now: i64)
        ensures
            same_origin(*final(self), *old(self)),
            same_media(*final(self), *old(self)),
            final(self).status@ == "queued"@,
            final(self).error is None,
            final(self).updated_at == now,
    {
        self.status = to_owned("queued");
        self.error = None;
        self.updated_at = now;
    }

    /// The download started.
    pub fn start_download(&mut self, now: i64)
        ensures
            same_origin(*final(self), *old(self)),
            same_media(*final(self), *old(self)),
            final(self).status@ == "downloading"@,
            final(self).error == old(self).error,
            final(self).updated_at == now,
    {
        self.status = to_owned("downloading");
        self.updated_at = now;
    }

    /// The download finished: the track takes the downloaded audio and the
    /// title, artist, cover and duration it came with.
    pub fn finish_download(&mut self, dl: DownloadResult, now: i64)
        ensures
            same_origin(*final(self), *old(self)),
            final(self).title == dl.title,
            final(self).artist == dl.artist,
            final(self).source_path == Some(dl.path),
            final(self).cover_path == dl.cover_path,
            final(self).duration_ms == dl.duration_ms,
            final(self).vocals_path == old(self).vocals_path,
            final(self).instrumental_path == old(self).instrumental_path,
            final(self).sample_rate == old(self).sample_rate,
            final(self).status@ == "downloaded"@,
            final(self).error is None,
            final(self).updated_at == now,
    {
        self.title = dl.title;
        self.artist = dl.artist;
        self.source_path = Some(dl.path);
        self.cover_path = dl.cover_path;
        self.duration_ms = dl.duration_ms;
        self.status = to_owned("downloaded");
        self.error = None;
        self.updated_at = now;
    }

    /// The downloaded audio that separation reads, or an error when the
    /// track has none yet.
    pub fn audio_source(&self) -> (r: Result<String, crate::error::AppError>)
        ensures
            match self.source_path {
                Some(p) => r matches Ok(s) && s@ == p@,
                None => r matches Err(e) && e.text() == MSG_NO_AUDIO@,
            },
    {
        match &self.source_path {
            Some(p) => Ok(to_owned(p.as_str())),
            None => Err(crate::error::AppError::msg(MSG_NO_AUDIO)),
        }
    }

    /// Separation started: any earlier error is cleared.
    pub fn start_separation(&mut self, now: i64)
        ensures
            same_origin(*final(self), *old(self)),
            same_media(*final(self), *old(self)),
            final(self).status@ == "separating"@,
            final(self).error is None,
            final(self).updated_at == now,
    {
        self.status = to_owned("separating");
        self.error = None;
        self.updated_at = now;
    }

    /// The stems are written: the track is ready.
    pub fn finish_separation(&mut self, result: &SeparationResult, now: i64)
        ensures
            same_origin(*final(self), *old(self)),
            final(self).title == old(self).title,
            final(self).artist == old(self).artist,
            final(self).source_path == old(self).source_path,
            final(self).cover_path == old(self).cover_path,
            final(self).vocals_path matches Some(v) && v@ == result.vocals_path@,
            final(self).instrumental_path matches Some(p) && p@ == result.instrumental_path@,
            final(self).duration_ms == Some(result.duration_ms),
            final(self).sample_rate == Some(result.sample_rate as i64),
            final(self).status@ == "ready"@,
            final(self).error is None,
            final(self).updated_at == now,
    {
        self.vocals_path = Some(to_owned(result.vocals_path.as_str()));
        self.instrumental_path = Some(to_owned(result.instrumental_path.as_str()));
        self.duration_ms = Some(result.duration_ms);
        self.sample_rate = Some(result.sample_rate as i64);
        self.status = to_owned("ready");
        self.error = None;
        self.updated_at = now;
    }

    /// The download or the separation failed with `message`.
    pub fn fail(&mut self, message: String, now: i64)
        ensures
            same_origin(*final(self), *old(self)),
            same_media(*final(self), *old(self)),
            final(self).status@ == "error"@,
            final(self).error == Some(message),
            final(self).updated_at == now,
    {
        self.status = to_owned("error");
        self.error = Some(message);
        self.updated_at = now;
    }
}

} // verus!
