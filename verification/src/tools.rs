//! The external tools and execution providers, per platform.
use vstd::prelude::*;

use crate::models::ModelInfo;
use crate::text::{push_str, string_from_chars, to_owned, trim_end_matches};

verus! {

/// The operating system the app runs on.
#[derive(Clone, Copy, PartialEq, Eq, Debug, Structural)]
pub enum TargetOs {
    Linux,
    Windows,
    MacOs,
    Other,
}

/// The processor architecture the app runs on.
#[derive(Clone, Copy, PartialEq, Eq, Debug, Structural)]
pub enum TargetArch {
    X86_64,
    Aarch64,
    Other,
}

/// The platform the app was built for.
#[derive(Clone, Copy, PartialEq, Eq, Debug, Structural)]
pub struct Platform {
    pub os: TargetOs,
    pub arch: TargetArch,
}

/// What the settings screen shows about the runtime.
pub struct RuntimeInfo {
    pub ytdlp_path: Option<String>,
    pub ytdlp_source: String,
    pub model_path: Option<String>,
    pub model_ready: bool,
    pub selected_model: String,
    pub execution_provider: String,
    pub compiled_providers: Vec<String>,
    pub models: Vec<ModelInfo>,
    pub cookies_browser: String,
    pub cookies_file: Option<String>,
    pub download_format: String,
    pub playback_port: u16,
}

/// The file name of the yt-dlp executable.
pub open spec fn ytdlp_filename_spec(p: Platform) -> Seq<char> {
    if p.os == TargetOs::Windows {
        "yt-dlp.exe"@
    } else {
        "yt-dlp"@
    }
}

/// The file name of the yt-dlp executable on a platform.
pub fn ytdlp_filename(p: Platform) -> (r: &'static str)
    ensures
        r@ == ytdlp_filename_spec(p),
{
    match p.os {
        TargetOs::Windows => "yt-dlp.exe",
        _ => "yt-dlp",
    }
}

/// Where the yt-dlp release for a platform is downloaded from.
pub open spec fn ytdlp_download_url_spec(p: Platform) -> Seq<char> {
    if p.os == TargetOs::Windows {
        "https://github.com/yt-dlp/yt-dlp/releases/latest/download/yt-dlp.exe"@
    } else if p.arch == TargetArch::Aarch64 {
        "https://github.com/yt-dlp/yt-dlp/releases/latest/download/yt-dlp_linux_aarch64"@
    } else {
        "https://github.com/yt-dlp/yt-dlp/releases/latest/download/yt-dlp_linux"@
    }
}

/// The download URL of the yt-dlp release for a platform.
pub fn ytdlp_download_url(p: Platform) -> (r: &'static str)
    ensures
        r@ == ytdlp_download_url_spec(p),
{
    match p.os {
        TargetOs::Windows => "https://github.com/yt-dlp/yt-dlp/releases/latest/download/yt-dlp.exe",
        _ => match p.arch {
            TargetArch::Aarch64 => "https://github.com/yt-dlp/yt-dlp/releases/latest/download/yt-dlp_linux_aarch64",
            _ => "https://github.com/yt-dlp/yt-dlp/releases/latest/download/yt-dlp_linux",
        },
    }
}

/// The Rust target triple used in bundled sidecar names.
pub open spec fn triple_spec(p: Platform) -> Seq<char> {
    match (p.os, p.arch) {
        (TargetOs::Linux, TargetArch::X86_64) => "x86_64-unknown-linux-gnu"@,
        (TargetOs::Linux, TargetArch::Aarch64) => "aarch64-unknown-linux-gnu"@,
        (TargetOs::Windows, TargetArch::X86_64) => "x86_64-pc-windows-msvc"@,
        (TargetOs::Windows, TargetArch::Aarch64) => "aarch64-pc-windows-msvc"@,
        _ => "unknown"@,
    }
}

/// The target triple of a platform.
pub fn current_triple(p: Platform) -> (r: &'static str)
    ensures
        r@ == triple_spec(p),
{
    match (p.os, p.arch) {
        (TargetOs::Linux, TargetArch::X86_64) => "x86_64-unknown-linux-gnu",
        (TargetOs::Linux, TargetArch::Aarch64) => "aarch64-unknown-linux-gnu",
        (TargetOs::Windows, TargetArch::X86_64) => "x86_64-pc-windows-msvc",
        (TargetOs::Windows, TargetArch::Aarch64) => "aarch64-pc-windows-msvc",
        _ => "unknown",
    }
}

pub open spec fn strings_view(v: Seq<String>) -> Seq<Seq<char>> {
    v.map_values(|s: String| s@)
}

/// File names of a yt-dlp bundled next to the app executable, in the order
/// they are tried.
pub open spec fn sidecar_names_spec(p: Platform) -> Seq<Seq<char>> {
    seq![
        ytdlp_filename_spec(p),
        trim_end_matches(ytdlp_filename_spec(p), ".exe"@) + "-"@ + triple_spec(p),
    ] + if p.os == TargetOs::Windows {
        seq!["yt-dlp.exe"@]
    } else {
        Seq::empty()
    }
}

/// The names under which a bundled yt-dlp is looked for beside the executable.
pub fn sidecar_names(p: Platform) -> (r: Vec<String>)
    ensures
        strings_view(r@) == sidecar_names_spec(p),
{
    let name = ytdlp_filename(p);
    let mut r: Vec<String> = Vec::new();
    r.push(to_owned(name));
    let stem = crate::text::trim_end_matches_chars(&crate::text::chars_of(name), ".exe");
    let mut v = stem;
    push_str(&mut v, "-");
    push_str(&mut v, current_triple(p));
    r.push(string_from_chars(&v));
    if p.os == TargetOs::Windows {
        r.push(to_owned("yt-dlp.exe"));
    }
    assert(strings_view(r@) =~= sidecar_names_spec(p));
    r
}

/// Execution providers compiled in, most preferred first; the CPU is always there.
pub open spec fn providers_spec(p: Platform) -> Seq<Seq<char>> {
    (if p.os == TargetOs::Windows {
        seq!["DirectML"@]
    } else {
        Seq::empty()
    }) + (if p.os == TargetOs::Linux {
        seq!["WebGPU"@]
    } else {
        Seq::empty()
    }) + seq!["CPU"@]
}

/// The execution providers available on a platform.
pub fn compiled_providers_for(p: Platform) -> (r: Vec<String>)
    ensures
        strings_view(r@) == providers_spec(p),
        strings_view(r@).contains("CPU"@),
{
    let mut r: Vec<String> = Vec::new();
    if p.os == TargetOs::Windows {
        r.push(to_owned("DirectML"));
    }
    if p.os == TargetOs::Linux {
        r.push(to_owned("WebGPU"));
    }
    r.push(to_owned("CPU"));
    assert(strings_view(r@) =~= providers_spec(p));
    assert(strings_view(r@)[strings_view(r@).len() - 1] == "CPU"@);
    r
}

/// The label of the GPU provider that a GPU session runs on.
pub open spec fn ep_label_spec(p: Platform) -> Seq<char> {
    if p.os == TargetOs::Windows {
        "DirectML"@
    } else if p.os == TargetOs::Linux {
        "WebGPU"@
    } else {
        "GPU"@
    }
}

/// The name shown for the active GPU execution provider.
pub fn active_ep_label(p: Platform) -> (r: String)
    ensures
        r@ == ep_label_spec(p),
{
    match p.os {
        TargetOs::Windows => to_owned("DirectML"),
        TargetOs::Linux => to_owned("WebGPU"),
        _ => to_owned("GPU"),
    }
}

} // verus!
