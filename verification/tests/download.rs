use dualis::download::{
    download_strategies, extended_path, extract_spotify_track_ids, friendly_download_error,
    is_retryable_download_error, is_youtube_playlist_url, normalize_spotify_url, plan_input,
    preset_formats, resolve_download_query, split_title_artist, strategies_for,
    youtube_search_query, ytdlp_cookie_args, cookie_args_given, embed_url, html_unescape,
    urlencoding_lite, track_meta_from_page, playlist_batch, spotify_collection_batch,
    last_error_message, retry_with_next, download_args, InputPlan, YtAuth,
    playlist_from_output, track_meta, oembed_from_json, ffmpeg_lookup, auth_args_given,
    MSG_INVALID_PLAYLIST_JSON, BOT_YT_CLIENT, BOT_YT_FORMAT, MSG_EMPTY_PLAYLIST, OembedMeta,
    format_attempts, is_placeholder_artist, spotify_item, merge_scraped_meta, finish_track_meta,
    is_downloaded_source_name, ytdlp_runtime_args, kind_from_url, pick_tool,
    keep_batches, ResolvedBatch, MSG_NOTHING_TO_INGEST,
};
use dualis::json::JsonValue;

#[test]
fn single_watch_url_is_not_playlist() {
    assert!(!is_youtube_playlist_url(
        "https://music.youtube.com/watch?v=abc123&list=PLxxxx"
    ));
}

#[test]
fn bot_error_is_friendly() {
    let msg = friendly_download_error("ERROR: Sign in to confirm you're not a bot");
    assert!(msg.contains("cookies"));
}

#[test]
fn format_error_is_friendly() {
    let msg = friendly_download_error("ERROR: Requested format is not available");
    assert!(msg.contains("Settings") || msg.contains("stream"));
}

#[test]
fn auto_format_has_fallbacks() {
    assert!(download_strategies("auto").len() >= 5);
}

#[test]
fn auto_has_multiple_strategies() {
    assert!(download_strategies("auto").len() >= 8);
}

#[test]
fn bot_strategy_is_first() {
    let strategies = download_strategies("auto");
    assert_eq!(strategies[0].label, "bot · m4a");
    assert_eq!(strategies[0].format, Some(BOT_YT_FORMAT));
    assert_eq!(strategies[0].client_args, Some(BOT_YT_CLIENT));
}

#[test]
fn youtube_search_uses_title_and_artist() {
    assert_eq!(
        youtube_search_query("Introvert", "ReoNa"),
        "ytsearch1:Introvert ReoNa"
    );
}

#[test]
fn youtube_search_parses_combined_title() {
    assert_eq!(
        youtube_search_query("SAVANA · Artist Name · Spotify", "Unknown artist"),
        "ytsearch1:SAVANA Artist Name"
    );
}

#[test]
fn youtube_search_parses_lyrics_by() {
    assert_eq!(
        youtube_search_query("Nightcall - song and lyrics by Kavinsky | Spotify", "Spotify"),
        "ytsearch1:Nightcall Kavinsky"
    );
}

#[test]
fn retry_uses_stored_youtube_search() {
    assert_eq!(
        resolve_download_query(
            "spotify",
            "Introvert",
            "ReoNa",
            Some("https://open.spotify.com/track/abc"),
            Some("ytsearch1:Introvert ReoNa"),
        ),
        "ytsearch1:Introvert ReoNa"
    );
}

#[test]
fn retry_rebuilds_spotify_search_without_stored_query() {
    assert_eq!(
        resolve_download_query(
            "spotify",
            "Introvert",
            "ReoNa",
            Some("https://open.spotify.com/track/abc"),
            None,
        ),
        "ytsearch1:Introvert ReoNa"
    );
}

#[test]
fn retry_of_youtube_track_uses_its_link() {
    assert_eq!(
        resolve_download_query("youtube", "T", "A", Some("https://youtu.be/x"), Some("   ")),
        "https://youtu.be/x"
    );
    assert_eq!(resolve_download_query("search", "T", "A", None, None), "");
    assert_eq!(
        resolve_download_query("SPOTIFY", "Song", "Band", None, None),
        "ytsearch1:Song Band"
    );
}

#[test]
fn search_query_without_artist_has_no_trailing_space() {
    assert_eq!(youtube_search_query("  Lonely Song  ", "  "), "ytsearch1:Lonely Song");
    assert_eq!(youtube_search_query("Song", "  The Band "), "ytsearch1:Song The Band");
}

#[test]
fn title_splitting_variants() {
    assert_eq!(
        split_title_artist("Song – Singer"),
        ("Song".to_string(), Some("Singer".to_string()))
    );
    assert_eq!(
        split_title_artist("Song — Singer | Spotify"),
        ("Song".to_string(), Some("Singer".to_string()))
    );
    assert_eq!(split_title_artist("Song - Spotify"), ("Song - Spotify".to_string(), None));
    assert_eq!(split_title_artist("Plain title"), ("Plain title".to_string(), None));
    assert_eq!(
        split_title_artist("A - song and lyrics by B - song and lyrics by C"),
        ("A".to_string(), Some("song and lyrics by B".to_string()))
    );
}

#[test]
fn placeholder_artists() {
    assert!(is_placeholder_artist("  VARIOUS ARTISTS "));
    assert!(is_placeholder_artist(""));
    assert!(is_placeholder_artist("spotify"));
    assert!(!is_placeholder_artist("ReoNa"));
}

#[test]
fn spotify_item_takes_artist_from_title() {
    let item = spotify_item(
        "Song · Singer · Spotify".to_string(),
        "Unknown artist".to_string(),
        "https://open.spotify.com/track/x".to_string(),
    );
    assert_eq!(item.title, "Song");
    assert_eq!(item.artist, "Singer");
    assert_eq!(item.source_kind, "spotify");
    assert_eq!(item.ytdlp_query, "ytsearch1:Song Singer");
}

#[test]
fn cookie_errors_and_other_errors() {
    let msg = friendly_download_error("ERROR: could not find firefox cookies database in BROWSER profile");
    assert!(msg.starts_with("Could not read browser cookies"));
    let msg = friendly_download_error("HTTP Error 404");
    assert_eq!(msg, "Download failed: HTTP Error 404");
    let msg = friendly_download_error("SIGN IN TO CONFIRM");
    assert!(msg.starts_with("YouTube blocked this download"));
}

#[test]
fn retryable_errors() {
    assert!(is_retryable_download_error("ERROR: Unable to extract uploader id"));
    assert!(is_retryable_download_error("No video formats found!"));
    assert!(!is_retryable_download_error("HTTP Error 403: Forbidden"));
    assert!(retry_with_next(0, 3, "Requested format is not available"));
    assert!(!retry_with_next(2, 3, "Requested format is not available"));
    assert!(!retry_with_next(0, 3, "HTTP Error 403"));
}

#[test]
fn playlist_links() {
    assert!(is_youtube_playlist_url("https://www.youtube.com/playlist?list=PL123"));
    assert!(is_youtube_playlist_url("https://music.youtube.com/browse/VLPL123"));
    assert!(!is_youtube_playlist_url("https://www.youtube.com/watch?v=abc"));
    assert!(!is_youtube_playlist_url("https://youtu.be/abc"));
}

#[test]
fn strategies_with_and_without_ffmpeg() {
    let without = strategies_for("auto", false);
    let with = strategies_for("  AUTO ", true);
    assert_eq!(without.len(), 13);
    assert_eq!(with.len(), 14);
    assert_eq!(with[1].label, "bot · m4a · ffmpeg");
    assert!(with[1].extract_audio);
    assert_eq!(without[1].label, "bot · bestaudio/best · ffmpeg");
    assert_eq!(without[5].label, "standard · bestaudio/best · ffmpeg");
    assert_eq!(without[5].client_args, None);
    assert_eq!(without[9].label, "standard · default");
    assert_eq!(without[9].format, None);
    assert_eq!(without[12].client_args, Some("youtube:player_client=ios"));
    let fast = strategies_for("fast", false);
    assert_eq!(fast.len(), 9);
    assert_eq!(fast[1].format, Some("worstaudio/worst"));
}

#[test]
fn preset_format_lists() {
    assert_eq!(preset_formats("best"), vec![("bestaudio/best", true), ("bestaudio/best", false), ("ba/b", false)]);
    assert_eq!(preset_formats(" Any "), vec![("best", true), ("bestaudio/best", false), ("ba/b", false)]);
    assert_eq!(preset_formats("weird").len(), 4);
    assert_eq!(format_attempts("fast"), vec!["worstaudio/worst", "worst", "ba/b"]);
    assert_eq!(format_attempts("auto"), vec!["ba/b", "bestaudio/best", "b", "worst"]);
}

#[test]
fn cookies_file_beats_browser() {
    let auth = YtAuth { browser: Some("firefox"), cookies_file: Some(" /tmp/c.txt ") };
    assert_eq!(cookie_args_given(&auth, true), vec!["--cookies".to_string(), "/tmp/c.txt".to_string()]);
    assert_eq!(
        cookie_args_given(&auth, false),
        vec!["--cookies-from-browser".to_string(), "firefox".to_string()]
    );
    let none = YtAuth { browser: Some("None"), cookies_file: None };
    assert!(cookie_args_given(&none, false).is_empty());
    let missing = YtAuth { browser: Some(" chrome "), cookies_file: Some("/definitely/not/here.txt") };
    assert_eq!(
        ytdlp_cookie_args(&missing),
        vec!["--cookies-from-browser".to_string(), "chrome".to_string()]
    );
}

#[test]
fn runtime_flags() {
    let args = ytdlp_runtime_args(Some("/usr/bin/node"), None);
    assert_eq!(
        args,
        vec!["--remote-components", "ejs:github", "--js-runtimes", "node:/usr/bin/node", "--no-check-certificate", "--source-address", "0.0.0.0"]
    );
}

#[test]
fn path_gets_tool_directories() {
    assert_eq!(
        extended_path(Some("/usr/bin:/opt/x"), Some("/home/u")),
        "/usr/bin:/opt/x:/usr/local/bin:/bin:/home/u/.local/share/fnm/current/bin:/home/u/.cargo/bin"
    );
    assert_eq!(extended_path(None, None), "/usr/bin:/usr/local/bin:/bin");
    assert_eq!(extended_path(Some(""), None), ":/usr/bin:/usr/local/bin:/bin");
}

#[test]
fn spotify_links_are_normalized() {
    assert_eq!(normalize_spotify_url("spotify:track:abc"), "https://open.spotify.com/track/abc");
    assert_eq!(normalize_spotify_url("spotify:album:xyz"), "https://open.spotify.com/album/xyz");
    assert_eq!(
        normalize_spotify_url("https://open.spotify.com/playlist/p1?si=123"),
        "https://open.spotify.com/playlist/p1"
    );
    assert_eq!(
        embed_url("https://open.spotify.com/playlist/p1/").as_deref(),
        Some("https://open.spotify.com/embed/playlist/p1")
    );
    assert_eq!(
        embed_url("https://open.spotify.com/album/a9").as_deref(),
        Some("https://open.spotify.com/embed/album/a9")
    );
    assert_eq!(embed_url("https://open.spotify.com/track/t"), None);
}

#[test]
fn encoding_helpers() {
    assert_eq!(urlencoding_lite("a b/é~"), "a%20b%2F%C3%A9~");
    assert_eq!(html_unescape("Tom &amp; Jerry &#39;n&#39; &quot;x&quot; &lt;3 &gt;"), "Tom & Jerry 'n' \"x\" <3 >");
    assert_eq!(html_unescape("&amp;lt;"), "&lt;".replace("&lt;", "<"));
}

#[test]
fn track_ids_are_unique_and_ordered() {
    let a = "A".repeat(22);
    let b = "B".repeat(22);
    let html = format!(
        "spotify:track:{b} x open.spotify.com/track/{a} y \"uri\": \"spotify:track:{b}\" spotify:track:{a}"
    );
    assert_eq!(extract_spotify_track_ids(&html), vec![b.clone(), a.clone()]);
    assert!(extract_spotify_track_ids("nothing here").is_empty());
}

#[test]
fn track_page_metadata() {
    let html = r#"<meta property="og:title" content="Song &amp; Dance - song and lyrics by Band | Spotify"><meta property="og:image" content="https://i/x.jpg">"#;
    let meta = track_meta_from_page(html);
    assert_eq!(meta.title, "Song & Dance");
    assert_eq!(meta.artist, "Band");
    assert_eq!(meta.thumbnail.as_deref(), Some("https://i/x.jpg"));
    let html = r#"<meta property="og:description" content="Listen · Singer · Song · 2020">"#;
    let meta = track_meta_from_page(html);
    assert_eq!(meta.title, "Unknown title");
    assert_eq!(meta.artist, "Singer");
}

#[test]
fn spotify_metadata_merging() {
    let meta = OembedMeta { title: "Unknown title".into(), artist: "Unknown artist".into(), thumbnail: None };
    let scraped = OembedMeta { title: "Real · Person".into(), artist: "Person".into(), thumbnail: None };
    let merged = merge_scraped_meta(meta, scraped);
    assert_eq!(merged.title, "Real · Person");
    assert_eq!(merged.artist, "Person");
    let fin = finish_track_meta(merged);
    assert_eq!(fin.title, "Real");
    assert_eq!(fin.artist, "Person");
}

#[test]
fn inputs_are_planned() {
    assert!(matches!(plan_input("https://open.spotify.com/track/x"), InputPlan::Spotify));
    assert!(matches!(plan_input("https://www.youtube.com/playlist?list=PL1"), InputPlan::YoutubePlaylist));
    match plan_input("https://music.youtube.com/watch?v=1") {
        InputPlan::Direct(item) => {
            assert_eq!(item.title, "Resolving…");
            assert_eq!(item.source_kind, "youtube-music");
            assert_eq!(item.ytdlp_query, "https://music.youtube.com/watch?v=1");
        }
        _ => panic!("expected a direct item"),
    }
    match plan_input("daft punk") {
        InputPlan::Direct(item) => {
            assert_eq!(item.artist, "Search");
            assert_eq!(item.ytdlp_query, "ytsearch1:daft punk");
        }
        _ => panic!("expected a search"),
    }
    assert_eq!(kind_from_url("https://youtu.be/x"), "youtube");
}

fn jstr(s: &str) -> JsonValue {
    JsonValue::Str(s.to_string())
}

fn entry(id: Option<&str>, webpage: Option<&str>, title: Option<&str>) -> JsonValue {
    let mut members = Vec::new();
    if let Some(i) = id {
        members.push(("id".to_string(), jstr(i)));
    }
    if let Some(w) = webpage {
        members.push(("webpage_url".to_string(), jstr(w)));
    }
    if let Some(t) = title {
        members.push(("title".to_string(), jstr(t)));
    }
    members.push(("channel".to_string(), jstr("Chan")));
    JsonValue::Object(members)
}

#[test]
fn playlist_listing_becomes_batch() {
    let mut entries = vec![
        entry(Some("v1"), None, Some("One")),
        entry(None, Some("https://youtu.be/two"), None),
        entry(None, None, Some("skipped")),
    ];
    entries.push(JsonValue::Null);
    entries.push(JsonValue::Object(vec![
        ("id".to_string(), jstr("v3")),
        ("webpage_url".to_string(), JsonValue::Number),
        ("url".to_string(), jstr("https://ignored")),
        ("uploader".to_string(), JsonValue::Bool(true)),
        ("channel".to_string(), jstr("Chan")),
    ]));
    let listing = JsonValue::Object(vec![
        ("channel".to_string(), jstr("Owner")),
        ("thumbnail".to_string(), jstr("https://t/1.jpg")),
        ("entries".to_string(), JsonValue::Array(entries)),
    ]);
    let batch = playlist_batch("https://music.youtube.com/playlist?list=X", &listing).ok().unwrap();
    let meta = batch.playlist.unwrap();
    assert_eq!(meta.title, "YouTube playlist");
    assert_eq!(meta.artist, "Owner");
    assert_eq!(meta.source_kind, "youtube-music");
    assert_eq!(meta.cover_url.as_deref(), Some("https://t/1.jpg"));
    assert_eq!(batch.items.len(), 3);
    assert_eq!(batch.items[0].source_url, "https://www.youtube.com/watch?v=v1");
    assert_eq!(batch.items[0].artist, "Chan");
    assert_eq!(batch.items[1].title, "Playlist item");
    assert_eq!(batch.items[1].ytdlp_query, "https://youtu.be/two");
    assert_eq!(batch.items[2].source_url, "https://www.youtube.com/watch?v=v3");
    assert_eq!(batch.items[2].artist, "YouTube");
}

#[test]
fn playlist_listing_is_capped_and_empty_is_an_error() {
    let entries: Vec<JsonValue> = (0..100).map(|i| entry(Some(&format!("v{i}")), None, None)).collect();
    let listing = JsonValue::Object(vec![
        ("title".to_string(), jstr("Mix")),
        ("entries".to_string(), JsonValue::Array(entries)),
    ]);
    let batch = playlist_batch("https://www.youtube.com/playlist?list=Y", &listing).ok().unwrap();
    assert_eq!(batch.items.len(), 80);
    let empty = JsonValue::Object(vec![]);
    let err = playlist_batch("https://www.youtube.com/playlist?list=Z", &empty).err().unwrap();
    assert_eq!(err.message(), MSG_EMPTY_PLAYLIST);
}

#[test]
fn playlist_output_is_parsed_from_json() {
    let stdout = br#"{"title": "Mix", "uploader": null, "channel": "Owner",
        "thumbnails": [{"url": "https://t/small.jpg"}, {"url": "https://t/big.jpg", "width": 1280}],
        "thumbnail": "https://t/other.jpg",
        "entries": [null, {"id": "abc", "title": "First", "uploader": "Up"},
                    {"url": "https://www.youtube.com/watch?v=def", "duration": 12.5}]}"#;
    let batch = playlist_from_output("https://www.youtube.com/playlist?list=Q", true, stdout, b"")
        .ok()
        .unwrap();
    let meta = batch.playlist.unwrap();
    assert_eq!(meta.title, "Mix");
    // `uploader` is present (null), so `channel` is not consulted.
    assert_eq!(meta.artist, "YouTube");
    assert_eq!(meta.cover_url.as_deref(), Some("https://t/big.jpg"));
    assert_eq!(batch.items.len(), 2);
    assert_eq!(batch.items[0].source_url, "https://www.youtube.com/watch?v=abc");
    assert_eq!(batch.items[0].title, "First");
    assert_eq!(batch.items[0].artist, "Up");
    assert_eq!(batch.items[1].source_url, "https://www.youtube.com/watch?v=def");
    assert_eq!(batch.items[1].title, "Playlist item");
}

#[test]
fn playlist_output_errors() {
    let err = playlist_from_output("https://www.youtube.com/playlist?list=Q", true, b"not json", b"")
        .err()
        .unwrap();
    assert_eq!(err.message(), MSG_INVALID_PLAYLIST_JSON);
    let err = playlist_from_output(
        "https://www.youtube.com/playlist?list=Q",
        false,
        b"",
        b"WARNING: x\nERROR: Sign in to confirm you\xE2\x80\x99re not a bot",
    )
    .err()
    .unwrap();
    assert!(err.message().starts_with("YouTube blocked this download."));
    let err = playlist_from_output("https://www.youtube.com/playlist?list=Q", false, b"", b"\xFFboom")
        .err()
        .unwrap();
    assert_eq!(err.message(), "Download failed: \u{FFFD}boom");
    let err = playlist_from_output("https://www.youtube.com/playlist?list=Q", true, b"{\"entries\": []}", b"")
        .err()
        .unwrap();
    assert_eq!(err.message(), MSG_EMPTY_PLAYLIST);
}

#[test]
fn download_metadata_line() {
    let m = track_meta(Some(r#"{"title": "T", "uploader": "U", "track": "Song", "artist": null, "thumbnail": "https://i/x.jpg", "duration": 3.5}"#));
    assert!(m.has_record);
    assert_eq!(m.title, "Song");
    assert_eq!(m.artist, "U");
    assert_eq!(m.thumbnail.as_deref(), Some("https://i/x.jpg"));
    let m = track_meta(Some(r#"{"title": "T", "artist": "A"}"#));
    assert_eq!(m.title, "T");
    assert_eq!(m.artist, "A");
    assert_eq!(m.thumbnail, None);
    // A field of the wrong type makes the whole record unreadable.
    let m = track_meta(Some(r#"{"title": 5, "artist": "A"}"#));
    assert!(!m.has_record);
    assert_eq!(m.title, "Unknown title");
    assert_eq!(m.artist, "Unknown artist");
    let m = track_meta(Some(r#"{"title": "T", "duration": "long"}"#));
    assert!(!m.has_record);
    assert_eq!(m.title, "Unknown title");
    let m = track_meta(Some("{broken"));
    assert!(!m.has_record);
    let m = track_meta(None);
    assert!(!m.has_record);
    assert_eq!(m.artist, "Unknown artist");
}

#[test]
fn oembed_answer_is_read() {
    let m = oembed_from_json(br#"{"title": "Song", "author_name": "Band", "thumbnail_url": "https://i/c.jpg"}"#).unwrap();
    assert_eq!(m.title, "Song");
    assert_eq!(m.artist, "Band");
    assert_eq!(m.thumbnail.as_deref(), Some("https://i/c.jpg"));
    let m = oembed_from_json(br#"{"title": 3}"#).unwrap();
    assert_eq!(m.title, "Unknown title");
    assert_eq!(m.artist, "Unknown artist");
    assert_eq!(m.thumbnail, None);
    assert!(oembed_from_json(b"<html>").is_none());
}

#[test]
fn ffmpeg_is_looked_up_by_name_then_fixed_places() {
    let (name, fallbacks) = ffmpeg_lookup();
    assert_eq!(name, "ffmpeg");
    assert_eq!(fallbacks, vec!["/usr/bin/ffmpeg", "/usr/local/bin/ffmpeg"]);
}

#[test]
fn auth_args_are_cookies_then_bot_clients() {
    let auth = YtAuth { browser: Some(" firefox "), cookies_file: Some("/c.txt") };
    for exists in [false, true] {
        let mut expected = cookie_args_given(&auth, exists);
        expected.push("--extractor-args".to_string());
        expected.push(BOT_YT_CLIENT.to_string());
        assert_eq!(auth_args_given(&auth, exists), expected);
    }
    assert_eq!(
        auth_args_given(&auth, true),
        vec!["--cookies", "/c.txt", "--extractor-args", BOT_YT_CLIENT]
    );
}

#[test]
fn strategy_labels_tell_what_they_do() {
    for preset in ["auto", "best", "any", "fast"] {
        for ffmpeg in [false, true] {
            for s in strategies_for(preset, ffmpeg) {
                assert_eq!(s.label.ends_with(" · ffmpeg"), s.extract_audio);
                assert_eq!(s.client_args.is_none(), s.label.starts_with("standard · "));
                assert_eq!(s.label.starts_with("bot · "), s.client_args == Some(BOT_YT_CLIENT));
            }
        }
    }
}

#[test]
fn spotify_collections() {
    let err = spotify_collection_batch("https://open.spotify.com/album/a".into(), vec![], None).err().unwrap();
    assert!(err.message().contains("“this collection”"));
    let item = spotify_item("T".into(), "A".into(), "https://open.spotify.com/track/t".into());
    let batch = spotify_collection_batch("https://open.spotify.com/album/a".into(), vec![item], None).ok().unwrap();
    let meta = batch.playlist.unwrap();
    assert_eq!(meta.source_kind, "spotify-album");
    assert_eq!(meta.title, "Spotify playlist");
}

#[test]
fn download_command_line() {
    let strategies = strategies_for("auto", false);
    let args = download_args(
        vec!["--r".to_string()],
        &strategies[1],
        "/tmp/source.%(ext)s",
        vec!["--cookies".to_string(), "c.txt".to_string()],
        "ytsearch1:x",
    );
    assert_eq!(args[0], "--r");
    assert_eq!(args[1], "-f");
    assert_eq!(args[2], "bestaudio/best");
    assert_eq!(args[3], "-x");
    assert_eq!(args.last().unwrap(), "ytsearch1:x");
    assert!(args.contains(&"--extractor-args".to_string()));
    assert!(args.contains(&"/tmp/source.%(ext)s".to_string()));
}

#[test]
fn error_lines_and_source_files() {
    assert_eq!(last_error_message("WARNING: a\nERROR: real problem\n  \n"), "ERROR: real problem");
    assert_eq!(last_error_message(""), "yt-dlp failed");
    assert!(is_downloaded_source_name("source.m4a"));
    assert!(!is_downloaded_source_name("source.m4a.partial"));
    assert!(!is_downloaded_source_name("cover.jpg"));
}

#[test]
fn tool_on_path_wins_over_fallbacks() {
    let fallbacks = vec!["/usr/bin/ffmpeg", "/usr/local/bin/ffmpeg"];
    assert_eq!(
        pick_tool(Some("/opt/bin/ffmpeg".to_string()), &fallbacks, &vec![true, true]),
        Some("/opt/bin/ffmpeg".to_string())
    );
    assert_eq!(
        pick_tool(None, &fallbacks, &vec![false, true]),
        Some("/usr/local/bin/ffmpeg".to_string())
    );
    assert_eq!(
        pick_tool(None, &fallbacks, &vec![true, true]),
        Some("/usr/bin/ffmpeg".to_string())
    );
    assert_eq!(pick_tool(None, &fallbacks, &vec![false, false]), None);
}

#[test]
fn empty_batches_are_dropped() {
    let one = || ResolvedBatch {
        playlist: None,
        items: vec![spotify_item("T".into(), "A".into(), "https://open.spotify.com/track/t".into())],
    };
    let empty = || ResolvedBatch { playlist: None, items: vec![] };
    let kept = keep_batches(vec![empty(), one(), empty(), one()]).ok().unwrap();
    assert_eq!(kept.len(), 2);
    assert_eq!(kept[0].items[0].ytdlp_query, "ytsearch1:T A");
    let err = keep_batches(vec![empty()]).err().unwrap();
    assert_eq!(err.message(), MSG_NOTHING_TO_INGEST);
    assert!(keep_batches(vec![]).is_err());
}
