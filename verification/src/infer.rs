//! Decisions around running a separation model: when to fall back to the
//! CPU, how two channels are packed into a waveform tensor and read back,
//! and how progress messages map to job stages.
use vstd::prelude::*;

use crate::error::AppError;
use crate::models::WaveLayout;
use crate::text::{
    chars_of, contains, contains_str, lowered, push_str, str_eq, string_from_chars, to_lowercase,
    to_owned,
};

verus! {

/// What a finished separation produced.
pub struct SeparationResult {
    pub vocals_path: String,
    pub instrumental_path: String,
    pub peaks_path: String,
    pub duration_ms: i64,
    pub sample_rate: u32,
    pub execution_provider: String,
    pub bits_per_sample: u16,
}

// ---------------------------------------------------------------------------
// GPU failures
// ---------------------------------------------------------------------------

/// Fragments of GPU and execution-provider failures after which the CPU is tried.
pub open spec fn gpu_failure_needles() -> Seq<Seq<char>> {
    seq![
        "out of memory"@,
        "oom"@,
        "cuda_error_memory"@,
        "failed to allocate"@,
        "cublas"@,
        "vkallocate"@,
        "dxgi_error"@,
        "enomem"@,
        "resource exhausted"@,
        "d3d12"@,
        "non-zero status code"@,
        "running conv node"@,
        "running gemm node"@,
        "raw_hash_map"@,
        "webgpu"@,
        "webgpu_buffer"@,
        "sequential_executor"@,
        "executekernel"@,
        "all inputs must be tensors"@,
    ]
}

/// A lower-cased error text names a GPU failure.
pub open spec fn gpu_failure(lower: Seq<char>) -> bool {
    exists|i: int| 0 <= i < gpu_failure_needles().len() && contains(lower, #[trigger] gpu_failure_needles()[i])
}

fn needles() -> (v: Vec<&'static str>)
    ensures
        v@.map_values(|s: &'static str| s@) == gpu_failure_needles(),
{
    let mut v: Vec<&'static str> = Vec::new();
    v.push("out of memory");
    v.push("oom");
    v.push("cuda_error_memory");
    v.push("failed to allocate");
    v.push("cublas");
    v.push("vkallocate");
    v.push("dxgi_error");
    v.push("enomem");
    v.push("resource exhausted");
    v.push("d3d12");
    v.push("non-zero status code");
    v.push("running conv node");
    v.push("running gemm node");
    v.push("raw_hash_map");
    v.push("webgpu");
    v.push("webgpu_buffer");
    v.push("sequential_executor");
    v.push("executekernel");
    v.push("all inputs must be tensors");
    assert(v@.map_values(|s: &'static str| s@) =~= gpu_failure_needles());
    v
}

/// Whether a lower-cased error text names a GPU failure.
pub fn gpu_failure_in(lower: &str) -> (r: bool)
    ensures
        r == gpu_failure(lower@),
{
    let l = chars_of(lower);
    let ns = needles();
    let mut i: usize = 0;
    while i < ns.len()
        invariant
            ns@.map_values(|s: &'static str| s@) == gpu_failure_needles(),
            i <= ns@.len(),
            forall|j: int| 0 <= j < i ==> !contains(l@, #[trigger] gpu_failure_needles()[j]),
            l@ == lower@,
        decreases ns.len() - i,
    {
        assert(gpu_failure_needles()[i as int] == ns@[i as int]@);
        if contains_str(&l, ns[i]) {
            return true;
        }
        i = i + 1;
    }
    false
}

/// True when GPU inference failed and the CPU should be tried instead.
pub fn should_fallback_to_cpu(err: &AppError) -> (r: bool)
    ensures
        r == gpu_failure(lowered(err.text())),
{
    let text = err.to_string();
    let lower = to_lowercase(text.as_str());
    gpu_failure_in(lower.as_str())
}

/// The GPU failure was running out of memory.
pub fn is_oom(err: &AppError) -> (r: bool)
    ensures
        r == (gpu_failure(lowered(err.text())) && contains(lowered(err.text()), "memory"@)),
        r ==> gpu_failure(lowered(err.text())),
{
    if !should_fallback_to_cpu(err) {
        return false;
    }
    let text = err.to_string();
    let lower = to_lowercase(text.as_str());
    let l = chars_of(lower.as_str());
    contains_str(&l, "memory")
}

/// The progress message shown while retrying on the CPU.
pub fn cpu_fallback_message(err: &AppError) -> (m: String)
    ensures
        m@ == (if gpu_failure(lowered(err.text())) && contains(lowered(err.text()), "memory"@) {
            "GPU memory exhausted, retrying on CPU"@
        } else {
            "GPU inference failed, retrying on CPU"@
        }),
{
    if is_oom(err) {
        to_owned("GPU memory exhausted, retrying on CPU")
    } else {
        to_owned("GPU inference failed, retrying on CPU")
    }
}

/// Whether to ask for a GPU session, given the error a track last failed with:
/// not after a GPU failure.
pub fn prefer_gpu(last_error: Option<&str>) -> (r: bool)
    ensures
        r == match last_error {
            Some(e) => !gpu_failure(lowered(e@)),
            None => true,
        },
{
    match last_error {
        Some(e) => {
            let err = AppError::msg(e);
            !should_fallback_to_cpu(&err)
        },
        None => true,
    }
}

/// What to do with the cached model session before a separation.
pub enum SessionAction {
    /// The cached session runs the wanted model: use it.
    Keep,
    /// Load the wanted model, on the GPU or on the CPU only.
    Load { gpu: bool },
}

/// `None` to keep the cached session, `Some(gpu)` to load a new one: a session
/// of another model (or none) is replaced, asking for the GPU unless the track
/// last failed on it; a session of the wanted model is replaced by a CPU one
/// after a GPU failure.
pub open spec fn session_choice(
    loaded: Option<Seq<char>>,
    wanted: Seq<char>,
    last_error: Option<Seq<char>>,
) -> Option<bool> {
    let gpu_failed = match last_error {
        Some(e) => gpu_failure(lowered(e)),
        None => false,
    };
    let reload = match loaded {
        Some(id) => id != wanted,
        None => true,
    };
    if reload {
        Some(!gpu_failed)
    } else if gpu_failed {
        Some(false)
    } else {
        None
    }
}

pub open spec fn session_view(a: SessionAction) -> Option<bool> {
    match a {
        SessionAction::Keep => None,
        SessionAction::Load { gpu } => Some(gpu),
    }
}

/// Decides whether the cached session (running model `loaded`, if any) can
/// serve model `wanted`, for a track that last failed with `last_error`.
pub fn session_action(loaded: Option<&str>, wanted: &str, last_error: Option<&str>) -> (a:
    SessionAction)
    ensures
        session_view(a) == session_choice(
            match loaded {
                Some(s) => Some(s@),
                None => None,
            },
            wanted@,
            match last_error {
                Some(e) => Some(e@),
                None => None,
            },
        ),
{
    let gpu = prefer_gpu(last_error);
    let reload = match loaded {
        Some(id) => !str_eq(id, wanted),
        None => true,
    };
    if reload {
        SessionAction::Load { gpu }
    } else if !gpu {
        SessionAction::Load { gpu: false }
    } else {
        SessionAction::Keep
    }
}

/// The message shown when a separation starts.
pub fn preparing_message(model_name: &str) -> (m: String)
    ensures
        m@ == "Preparing "@ + model_name@,
{
    let mut v = chars_of("Preparing ");
    push_str(&mut v, model_name);
    string_from_chars(&v)
}

/// The message shown when the stems are written.
pub fn ready_message(execution_provider: &str) -> (m: String)
    ensures
        m@ == "Ready on "@ + execution_provider@ + " · 32-bit float WAV"@,
{
    let mut v = chars_of("Ready on ");
    push_str(&mut v, execution_provider);
    push_str(&mut v, " · 32-bit float WAV");
    string_from_chars(&v)
}

/// The job stage a progress message belongs to (given its lower-cased text).
pub open spec fn stage_of(lower: Seq<char>) -> Seq<char> {
    if contains(lower, "decod"@) {
        "decode"@
    } else if contains(lower, "reconstr"@) || contains(lower, "stems ready"@) {
        "export"@
    } else {
        "infer"@
    }
}

/// The job stage of a lower-cased progress message.
pub fn stage_in(lower: &str) -> (s: &'static str)
    ensures
        s@ == stage_of(lower@),
{
    let l = chars_of(lower);
    if contains_str(&l, "decod") {
        "decode"
    } else if contains_str(&l, "reconstr") || contains_str(&l, "stems ready") {
        "export"
    } else {
        "infer"
    }
}

/// The job stage ("decode", "infer" or "export") of a progress message.
pub fn progress_stage(message: &str) -> (s: &'static str)
    ensures
        s@ == stage_of(lowered(message@)),
{
    let lower = to_lowercase(message);
    stage_in(lower.as_str())
}

// ---------------------------------------------------------------------------
// Waveform tensors
// ---------------------------------------------------------------------------

/// Two channels as one tensor: all of `l` then all of `r`, or interleaved.
pub open spec fn packed<T>(l: Seq<T>, r: Seq<T>, layout: WaveLayout) -> Seq<T> {
    match layout {
        WaveLayout::ChannelFirst => l + r.take(l.len() as int),
        WaveLayout::ChannelLast => Seq::new(
            2 * l.len(),
            |i: int|
                if i % 2 == 0 {
                    l[i / 2]
                } else {
                    r[i / 2]
                },
        ),
    }
}

/// Packs a stereo chunk into a `[1, 2, n]` (channel first) or `[1, n, 2]`
/// (channel last) tensor.
pub fn pack_waveform<T: Copy>(left: &[T], right: &[T], layout: WaveLayout) -> (v: Vec<T>)
    requires
        right@.len() == left@.len(),
        2 * left@.len() <= usize::MAX,
    ensures
        v@ == packed(left@, right@, layout),
{
    let n = left.len();
    let mut v: Vec<T> = Vec::new();
    match layout {
        WaveLayout::ChannelFirst => {
            let mut i: usize = 0;
            while i < n
                invariant
                    n == left@.len(),
                    i <= n,
                    v@ == left@.take(i as int),
                decreases n - i,
            {
                v.push(left[i]);
                i = i + 1;
                assert(v@ =~= left@.take(i as int));
            }
            let mut j: usize = 0;
            while j < n
                invariant
                    n == left@.len(),
                    n == right@.len(),
                    j <= n,
                    v@ == left@ + right@.take(j as int),
                decreases n - j,
            {
                v.push(right[j]);
                j = j + 1;
                assert(v@ =~= left@ + right@.take(j as int));
            }
            assert(left@.take(n as int) =~= left@);
        },
        WaveLayout::ChannelLast => {
            let mut i: usize = 0;
            while i < n
                invariant
                    n == left@.len(),
                    n == right@.len(),
                    2 * n <= usize::MAX,
                    i <= n,
                    v@.len() == 2 * i,
                    forall|k: int|
                        0 <= k < 2 * i ==> v@[k] == if k % 2 == 0 {
                            left@[k / 2]
                        } else {
                            right@[k / 2]
                        },
                decreases n - i,
            {
                v.push(left[i]);
                v.push(right[i]);
                i = i + 1;
            }
            assert(v@ =~= packed(left@, right@, layout));
        },
    }
    v
}

/// The layout of a model's output: read from its shape when the shape says
/// which axis holds the two channels, else the configured one.
pub open spec fn output_layout(shape: Seq<i64>, layout: WaveLayout) -> WaveLayout {
    if shape.len() >= 3 && shape[1] == 2 {
        WaveLayout::ChannelFirst
    } else if shape.len() >= 3 && shape[shape.len() - 1] == 2 {
        WaveLayout::ChannelLast
    } else {
        layout
    }
}

/// The element at `i`, or `zero` past the end.
pub open spec fn at_or<T>(s: Seq<T>, i: int, zero: T) -> T {
    if 0 <= i < s.len() {
        s[i]
    } else {
        zero
    }
}

/// The two channels of `chunk` samples read back from a model output.
pub open spec fn unpacked<T>(
    out: Seq<T>,
    shape: Seq<i64>,
    chunk: nat,
    layout: WaveLayout,
    zero: T,
) -> (Seq<T>, Seq<T>) {
    match output_layout(shape, layout) {
        WaveLayout::ChannelFirst => (
            Seq::new(chunk, |i: int| at_or(out, i, zero)),
            Seq::new(chunk, |i: int| at_or(out, chunk + i, zero)),
        ),
        WaveLayout::ChannelLast => (
            Seq::new(chunk, |i: int| at_or(out, 2 * i, zero)),
            Seq::new(chunk, |i: int| at_or(out, 2 * i + 1, zero)),
        ),
    }
}

fn get_or<T: Copy>(s: &[T], i: usize, zero: T) -> (x: T)
    ensures
        x == at_or(s@, i as int, zero),
{
    if i < s.len() {
        s[i]
    } else {
        zero
    }
}

/// Reads the left and right channels of `chunk` samples back from a model
/// output of the given shape; missing samples are `zero`.
pub fn unpack_waveform<T: Copy>(
    output: &[T],
    shape: &[i64],
    chunk: usize,
    layout: WaveLayout,
    zero: T,
) -> (r: (Vec<T>, Vec<T>))
    requires
        2 * chunk + 1 <= usize::MAX,
    ensures
        (r.0@, r.1@) == unpacked(output@, shape@, chunk as nat, layout, zero),
{
    let inferred = if shape.len() >= 3 && shape[1] == 2 {
        WaveLayout::ChannelFirst
    } else if shape.len() >= 3 && shape[shape.len() - 1] == 2 {
        WaveLayout::ChannelLast
    } else {
        layout
    };
    let mut left: Vec<T> = Vec::new();
    let mut right: Vec<T> = Vec::new();
    let mut i: usize = 0;
    while i < chunk
        invariant
            2 * chunk + 1 <= usize::MAX,
            i <= chunk,
            inferred == output_layout(shape@, layout),
            left@.len() == i,
            right@.len() == i,
            forall|k: int|
                0 <= k < i ==> #[trigger] left@[k] == (match inferred {
                    WaveLayout::ChannelFirst => at_or(output@, k, zero),
                    WaveLayout::ChannelLast => at_or(output@, 2 * k, zero),
                }),
            forall|k: int|
                0 <= k < i ==> #[trigger] right@[k] == (match inferred {
                    WaveLayout::ChannelFirst => at_or(output@, chunk + k, zero),
                    WaveLayout::ChannelLast => at_or(output@, 2 * k + 1, zero),
                }),
        decreases chunk - i,
    {
        match inferred {
            WaveLayout::ChannelFirst => {
                left.push(get_or(output, i, zero));
                right.push(get_or(output, chunk + i, zero));
            },
            WaveLayout::ChannelLast => {
                left.push(get_or(output, i * 2, zero));
                right.push(get_or(output, i * 2 + 1, zero));
            },
        }
        i = i + 1;
    }
    assert((left@, right@) =~~= unpacked(output@, shape@, chunk as nat, layout, zero));
    (left, right)
}

/// Reading back a packed chunk gives both channels unchanged, as long as the
/// output shape does not contradict the layout it was packed with.
pub proof fn law_pack_unpack_roundtrip<T>(
    l: Seq<T>,
    r: Seq<T>,
    shape: Seq<i64>,
    layout: WaveLayout,
    zero: T,
)
    requires
        l.len() == r.len(),
        output_layout(shape, layout) == layout,
    ensures
        unpacked(packed(l, r, layout), shape, l.len(), layout, zero) == (l, r),
{
    let p = packed(l, r, layout);
    let (a, b) = unpacked(p, shape, l.len(), layout, zero);
    match layout {
        WaveLayout::ChannelFirst => {
            assert(r.take(l.len() as int) =~= r);
            assert(a =~= l);
            assert(b =~= r);
        },
        WaveLayout::ChannelLast => {
            assert forall|i: int| 0 <= i < l.len() implies a[i] == l[i] by {
                assert((2 * i) % 2 == 0);
                assert((2 * i) / 2 == i);
            }
            assert forall|i: int| 0 <= i < l.len() implies b[i] == r[i] by {
                assert((2 * i + 1) % 2 == 1);
                assert((2 * i + 1) / 2 == i);
            }
            assert(a =~= l);
            assert(b =~= r);
        },
    }
}

} // verus!
