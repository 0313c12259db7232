use dualis::commands::{
    asset_url, cookies_browser, cookies_file_input, default_cookies_browser, download_format,
    export_names, needs_resume, normalize_download_format, nonblank_setting, queued_job_action,
    playlist_dir_name, selected_model_id, stem_slug, JobAction, QueuedTrack,
};
use dualis::db::{now_secs, timestamp_from};
use dualis::tools::{
    active_ep_label, compiled_providers_for, current_triple, sidecar_names, ytdlp_download_url,
    ytdlp_filename, Platform, TargetArch, TargetOs,
};

fn platforms() -> Vec<Platform> {
    let mut out = Vec::new();
    for os in [TargetOs::Linux, TargetOs::Windows, TargetOs::MacOs, TargetOs::Other] {
        for arch in [TargetArch::X86_64, TargetArch::Aarch64, TargetArch::Other] {
            out.push(Platform { os, arch });
        }
    }
    out
}

#[test]
fn compiled_providers_include_cpu() {
    for p in platforms() {
        assert!(compiled_providers_for(p).iter().any(|x| x == "CPU"));
    }
    let linux = Platform { os: TargetOs::Linux, arch: TargetArch::X86_64 };
    assert_eq!(compiled_providers_for(linux), vec!["WebGPU", "CPU"]);
    let win = Platform { os: TargetOs::Windows, arch: TargetArch::Aarch64 };
    assert_eq!(compiled_providers_for(win), vec!["DirectML", "CPU"]);
    assert_eq!(active_ep_label(win), "DirectML");
}

#[test]
fn ytdlp_names_per_platform() {
    let linux = Platform { os: TargetOs::Linux, arch: TargetArch::Aarch64 };
    let win = Platform { os: TargetOs::Windows, arch: TargetArch::X86_64 };
    let mac = Platform { os: TargetOs::MacOs, arch: TargetArch::Aarch64 };
    assert_eq!(ytdlp_filename(linux), "yt-dlp");
    assert_eq!(ytdlp_filename(win), "yt-dlp.exe");
    assert!(ytdlp_download_url(linux).ends_with("yt-dlp_linux_aarch64"));
    assert!(ytdlp_download_url(win).ends_with("yt-dlp.exe"));
    assert_eq!(current_triple(mac), "unknown");
    assert_eq!(
        sidecar_names(linux),
        vec!["yt-dlp".to_string(), "yt-dlp-aarch64-unknown-linux-gnu".to_string()]
    );
    assert_eq!(
        sidecar_names(win),
        vec!["yt-dlp.exe".to_string(), "yt-dlp-x86_64-pc-windows-msvc".to_string(), "yt-dlp.exe".to_string()]
    );
}

#[test]
fn settings_defaults() {
    let mac = Platform { os: TargetOs::MacOs, arch: TargetArch::X86_64 };
    let linux = Platform { os: TargetOs::Linux, arch: TargetArch::X86_64 };
    assert_eq!(default_cookies_browser(mac), "chrome");
    assert_eq!(cookies_browser(Some("  ".into()), linux), "firefox");
    assert_eq!(cookies_browser(Some("brave".into()), linux), "brave");
    assert_eq!(download_format(None), "auto");
    assert_eq!(download_format(Some("fast".into())), "fast");
    assert_eq!(selected_model_id(None), "kim-vocal-2");
    assert_eq!(nonblank_setting(Some("\t".into())), None);
    assert_eq!(normalize_download_format(" BEST ").ok().as_deref(), Some("best"));
    assert_eq!(
        normalize_download_format("ultra").err().unwrap().message(),
        "Unknown download quality preset"
    );
    assert_eq!(cookies_file_input("  "), None);
    assert_eq!(cookies_file_input(" /c.txt ").as_deref(), Some("/c.txt"));
}

#[test]
fn export_names_are_safe() {
    let slug = stem_slug("AC/DC", "Back: in Black!");
    assert_eq!(slug, "AC_DC - Back_ in Black_");
    let (v, i) = export_names(&slug);
    assert_eq!(v, "AC_DC - Back_ in Black_.vocals.wav");
    assert_eq!(i, "AC_DC - Back_ in Black_.instrumental.wav");
    assert_eq!(asset_url("/x/y.wav".into()), "/x/y.wav");
}

#[test]
fn queued_job_decisions() {
    let ready = QueuedTrack {
        status: "ready",
        has_vocals: true,
        has_source: true,
        source_kind: "youtube",
        title: "T",
        artist: "A",
        source_url: Some("https://y"),
        ytdlp_query: None,
    };
    assert!(matches!(queued_job_action(&ready, "q".into()), JobAction::Skip));
    let downloaded = QueuedTrack { status: "downloaded", ..ready };
    assert!(matches!(queued_job_action(&downloaded, "q".into()), JobAction::Separate));
    let fresh = QueuedTrack { status: "queued", has_vocals: false, has_source: false, ..ready };
    match queued_job_action(&fresh, " ".into()) {
        JobAction::Download(q) => assert_eq!(q, "https://y"),
        _ => panic!("expected a download"),
    }
    match queued_job_action(&fresh, "ytsearch1:x".into()) {
        JobAction::Download(q) => assert_eq!(q, "ytsearch1:x"),
        _ => panic!("expected a download"),
    }
    assert!(needs_resume("queued"));
    assert!(!needs_resume("ready"));
    assert!(!needs_resume("error"));
}

#[test]
fn clock() {
    assert!(now_secs() > 1_600_000_000);
    assert_eq!(timestamp_from(None), 0);
    assert_eq!(timestamp_from(Some(42)), 42);
}

#[test]
fn playlist_directory_name() {
    assert_eq!(playlist_dir_name("1234-abcd"), "_playlist_1234-abcd");
}
