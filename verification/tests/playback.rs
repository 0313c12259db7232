use dualis::playback::{
    decode_hex_path, encode_hex_path, parse_range, plan_request, resolve_range, stem_url,
    RequestPlan, may_serve, within_root, plan_request_bytes, stem_access_status,
};

#[test]
fn hex_roundtrip() {
    let path = "/home/zeit/.cache/com.z3itt.dualis/tracks/abc/vocals.wav";
    assert_eq!(decode_hex_path(&encode_hex_path(path)).as_deref(), Some(path));
}

#[test]
fn hex_edge_cases() {
    assert_eq!(encode_hex_path("/é"), "2fc3a9");
    assert_eq!(decode_hex_path("2FC3A9").as_deref(), Some("/é"));
    assert_eq!(decode_hex_path(""), None);
    assert_eq!(decode_hex_path("abc"), None);
    assert_eq!(decode_hex_path("zz"), None);
    assert_eq!(decode_hex_path("+a"), Some("\n".to_string()));
    assert_eq!(decode_hex_path("ff"), None);
}

#[test]
fn ranges() {
    assert_eq!(parse_range(" 10-20 "), Some((10, Some(20))));
    assert_eq!(parse_range("-"), Some((0, None)));
    assert_eq!(parse_range("5-"), Some((5, None)));
    assert_eq!(parse_range("x-1"), None);
    assert_eq!(parse_range("7"), None);
    assert_eq!(parse_range("18446744073709551616-"), None);
    assert_eq!(resolve_range(None, 100), Some((0, 99, 100)));
    assert_eq!(resolve_range(Some((10, Some(500))), 100), Some((10, 99, 90)));
    assert_eq!(resolve_range(Some((200, None)), 100), Some((99, 99, 1)));
    assert_eq!(resolve_range(Some((50, Some(10))), 100), None);
    assert_eq!(resolve_range(None, 0), Some((0, 0, 1)));
}

#[test]
fn requests() {
    let hex = encode_hex_path("/tracks/a/vocals.wav");
    let req = format!("GET /stem/{hex}?t=1 HTTP/1.1\r\nHost: x\r\nRange: bytes=0-9\r\n\r\nRange: bytes=5-");
    match plan_request(&req) {
        RequestPlan::Stem { head, path, range } => {
            assert!(!head);
            assert_eq!(path, "/tracks/a/vocals.wav");
            assert_eq!(range, Some((0, Some(9))));
        }
        _ => panic!("expected a stem"),
    }
    assert!(matches!(plan_request("POST /stem/2f HTTP/1.1\r\n"), RequestPlan::MethodNotAllowed));
    assert!(matches!(plan_request("GET /other HTTP/1.1\r\n"), RequestPlan::NotFound));
    assert!(matches!(plan_request("GET /stem/zz HTTP/1.1\r\n"), RequestPlan::BadRequest));
    assert!(matches!(plan_request(""), RequestPlan::MethodNotAllowed));
    match plan_request("HEAD   /stem/2f  HTTP/1.1") {
        RequestPlan::Stem { head, path, range } => {
            assert!(head);
            assert_eq!(path, "/");
            assert_eq!(range, None);
        }
        _ => panic!("expected a stem"),
    }
}

#[test]
fn stem_urls() {
    assert_eq!(stem_url(8080, "/a"), "http://127.0.0.1:8080/stem/2f61");
    assert_eq!(stem_url(0, ""), "http://127.0.0.1:0/stem/");
}

#[test]
fn stems_are_served_only_from_the_tracks_directory() {
    let parts = |v: &[&str]| v.iter().map(|s| s.to_string()).collect::<Vec<String>>();
    let root = parts(&["/", "cache", "tracks"]);
    let inside = parts(&["/", "cache", "tracks", "abc", "vocals.wav"]);
    let sibling = parts(&["/", "cache", "tracks2", "vocals.wav"]);
    assert!(within_root(&inside, &root));
    assert!(!within_root(&sibling, &root));
    assert!(!within_root(&parts(&["/", "cache"]), &root));
    assert!(may_serve(&inside, &root, true));
    assert!(!may_serve(&inside, &root, false));
    assert!(!may_serve(&sibling, &root, true));
}

#[test]
fn request_bytes_are_read_lossily() {
    let req = b"GET /stem/2fc3a9 HTTP/1.1\r\nX-Junk: \xFF\r\nRange: bytes=5-\r\n\r\n";
    match plan_request_bytes(req) {
        RequestPlan::Stem { head, path, range } => {
            assert!(!head);
            assert_eq!(path, "/\u{e9}");
            assert_eq!(range, Some((5, None)));
        }
        _ => panic!("expected a stem"),
    }
    assert!(matches!(plan_request_bytes(b"\xFFGET /stem/2f HTTP/1.1\r\n"), RequestPlan::MethodNotAllowed));
}

#[test]
fn stem_access_statuses() {
    let root: Vec<String> = vec!["/".into(), "tracks".into()];
    let inside: Vec<String> = vec!["/".into(), "tracks".into(), "a".into(), "vocals.wav".into()];
    let outside: Vec<String> = vec!["/".into(), "etc".into(), "passwd".into()];
    assert_eq!(stem_access_status(Some(&inside), Some(&root), true), 200);
    assert_eq!(stem_access_status(Some(&inside), Some(&root), false), 403);
    assert_eq!(stem_access_status(Some(&outside), Some(&root), true), 403);
    assert_eq!(stem_access_status(None, Some(&root), true), 404);
    assert_eq!(stem_access_status(Some(&inside), None, true), 500);
}
