use dualis::commands::local_file_names;
use dualis::db::{new_playlist, TrackRecord, MSG_NO_AUDIO};
use dualis::download::{DownloadResult, PlaylistMeta, ResolvedItem};
use dualis::infer::SeparationResult;

fn item() -> ResolvedItem {
    ResolvedItem {
        title: "Introvert".to_string(),
        artist: "ReoNa".to_string(),
        source_url: "https://open.spotify.com/track/abc".to_string(),
        source_kind: "spotify".to_string(),
        ytdlp_query: "ytsearch1:Introvert ReoNa".to_string(),
    }
}

#[test]
fn playlist_record_starts_with_nothing_ready() {
    let meta = PlaylistMeta {
        title: "Mix".to_string(),
        artist: "YouTube".to_string(),
        source_url: "https://www.youtube.com/playlist?list=X".to_string(),
        source_kind: "youtube".to_string(),
        cover_url: Some("https://img".to_string()),
    };
    let p = new_playlist("p1".to_string(), meta, Some("/c/cover.jpg".to_string()), 3, 100);
    assert_eq!(p.id, "p1");
    assert_eq!(p.title, "Mix");
    assert_eq!(p.source_url.as_deref(), Some("https://www.youtube.com/playlist?list=X"));
    assert_eq!(p.cover_path.as_deref(), Some("/c/cover.jpg"));
    assert_eq!((p.created_at, p.updated_at, p.track_count, p.ready_count), (100, 100, 3, 0));
}

#[test]
fn track_goes_from_queued_to_ready() {
    let mut t = TrackRecord::queued("t1".to_string(), item(), Some("p1".to_string()), 2, 10);
    assert_eq!(t.status, "queued");
    assert_eq!(t.playlist_index, Some(2));
    assert_eq!(t.ytdlp_query.as_deref(), Some("ytsearch1:Introvert ReoNa"));
    t.start_download(11);
    assert_eq!((t.status.as_str(), t.updated_at), ("downloading", 11));
    t.finish_download(
        DownloadResult {
            path: "/t/t1/source.m4a".to_string(),
            title: "Introvert (TV size)".to_string(),
            artist: "ReoNa".to_string(),
            cover_path: None,
            duration_ms: Some(90_000),
        },
        12,
    );
    assert_eq!(t.status, "downloaded");
    assert_eq!(t.title, "Introvert (TV size)");
    assert_eq!(t.source_path.as_deref(), Some("/t/t1/source.m4a"));
    t.start_separation(13);
    assert_eq!(t.status, "separating");
    let result = SeparationResult {
        vocals_path: "/t/t1/vocals.wav".to_string(),
        instrumental_path: "/t/t1/instrumental.wav".to_string(),
        peaks_path: "/t/t1/peaks.json".to_string(),
        duration_ms: 89_990,
        sample_rate: 44_100,
        execution_provider: "CPU".to_string(),
        bits_per_sample: 32,
    };
    t.finish_separation(&result, 14);
    assert_eq!(t.status, "ready");
    assert_eq!(t.vocals_path.as_deref(), Some("/t/t1/vocals.wav"));
    assert_eq!(t.instrumental_path.as_deref(), Some("/t/t1/instrumental.wav"));
    assert_eq!((t.duration_ms, t.sample_rate, t.updated_at), (Some(89_990), Some(44_100), 14));
    assert_eq!(t.id, "t1");
    assert_eq!(t.created_at, 10);
}

#[test]
fn failures_and_retries() {
    let mut t = TrackRecord::local_file(
        "t2".to_string(),
        "song".to_string(),
        "/home/me/song.flac".to_string(),
        "/t/t2/source.flac".to_string(),
        5,
    );
    assert_eq!((t.status.as_str(), t.artist.as_str(), t.source_kind.as_str()), ("downloaded", "Local", "local"));
    t.fail("WebGPU device lost".to_string(), 6);
    assert_eq!(t.status, "error");
    assert_eq!(t.error.as_deref(), Some("WebGPU device lost"));
    t.requeue(7);
    assert_eq!(t.status, "queued");
    assert_eq!(t.error, None);
    assert_eq!(t.source_path.as_deref(), Some("/t/t2/source.flac"));
}

#[test]
fn separation_needs_downloaded_audio() {
    let queued = TrackRecord::queued("t1".to_string(), item(), None, 0, 5);
    assert_eq!(queued.audio_source().err().unwrap().message(), MSG_NO_AUDIO);
    let local = TrackRecord::local_file(
        "t2".to_string(),
        "Song".to_string(),
        "/music/song.flac".to_string(),
        "/lib/t2/source.flac".to_string(),
        5,
    );
    assert_eq!(local.audio_source().ok().unwrap(), "/lib/t2/source.flac");
}

#[test]
fn local_file_copy_and_title() {
    assert_eq!(
        local_file_names("/music/My Song.flac"),
        ("source.flac".to_string(), "My Song".to_string())
    );
    assert_eq!(
        local_file_names("/music/noext"),
        ("source.bin".to_string(), "noext".to_string())
    );
    assert_eq!(
        local_file_names("/music/a.tar.gz"),
        ("source.gz".to_string(), "a.tar".to_string())
    );
    assert_eq!(local_file_names("/"), ("source.bin".to_string(), "Local file".to_string()));
}
