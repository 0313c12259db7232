use dualis::error::AppError;
use dualis::infer::{
    cpu_fallback_message, is_oom, pack_waveform, prefer_gpu, preparing_message, progress_stage,
    ready_message, session_action, should_fallback_to_cpu, unpack_waveform, SessionAction,
};
use dualis::models::WaveLayout;

#[test]
fn oom_detector_catches_common_strings() {
    assert!(is_oom(&AppError::msg("CUDA_ERROR_MEMORY allocation failed")));
    assert!(is_oom(&AppError::msg("vkAllocateMemory out of memory")));
    assert!(!is_oom(&AppError::msg("invalid input shape")));
}

#[test]
fn webgpu_conv_error_triggers_cpu_fallback() {
    let err = AppError::msg(
        "Non-zero status code returned while running Conv node. Name:'Conv_0_token_1' Status Message: absl::container_internal::raw_hash_map<>::at",
    );
    assert!(should_fallback_to_cpu(&err));
    assert!(!is_oom(&err));
}

#[test]
fn fallback_messages_and_gpu_preference() {
    assert_eq!(cpu_fallback_message(&AppError::msg("OUT OF MEMORY")), "GPU memory exhausted, retrying on CPU");
    assert_eq!(cpu_fallback_message(&AppError::msg("WebGPU lost")), "GPU inference failed, retrying on CPU");
    assert!(prefer_gpu(None));
    assert!(prefer_gpu(Some("Download failed")));
    assert!(!prefer_gpu(Some("D3D12 device removed")));
}

#[test]
fn progress_stages() {
    assert_eq!(progress_stage("Decoding audio"), "decode");
    assert_eq!(progress_stage("Reconstructing stems"), "export");
    assert_eq!(progress_stage("Stems ready"), "export");
    assert_eq!(progress_stage("Separating chunk 1/3"), "infer");
}

#[test]
fn waveform_pack_roundtrip() {
    let l = [1.0f32, 2.0, 3.0];
    let r = [4.0f32, 5.0, 6.0];
    let first = pack_waveform(&l, &r, WaveLayout::ChannelFirst);
    assert_eq!(first, vec![1.0, 2.0, 3.0, 4.0, 5.0, 6.0]);
    let last = pack_waveform(&l, &r, WaveLayout::ChannelLast);
    assert_eq!(last, vec![1.0, 4.0, 2.0, 5.0, 3.0, 6.0]);
    let (a, b) = unpack_waveform(&first, &[1, 2, 3], 3, WaveLayout::ChannelLast, 0.0);
    assert_eq!((a, b), (l.to_vec(), r.to_vec()));
    let (a, b) = unpack_waveform(&last, &[1, 3, 2], 3, WaveLayout::ChannelFirst, 0.0);
    assert_eq!((a, b), (l.to_vec(), r.to_vec()));
    let (a, b) = unpack_waveform(&[7.0f32], &[], 2, WaveLayout::ChannelFirst, 0.0);
    assert_eq!((a, b), (vec![7.0, 0.0], vec![0.0, 0.0]));
}

fn gpu_of(a: SessionAction) -> Option<bool> {
    match a {
        SessionAction::Keep => None,
        SessionAction::Load { gpu } => Some(gpu),
    }
}

#[test]
fn model_session_reuse() {
    assert_eq!(gpu_of(session_action(None, "kim-vocal-2", None)), Some(true));
    assert_eq!(gpu_of(session_action(Some("kim-vocal-2"), "kim-vocal-2", None)), None);
    assert_eq!(gpu_of(session_action(Some("other"), "kim-vocal-2", None)), Some(true));
    assert_eq!(
        gpu_of(session_action(Some("other"), "kim-vocal-2", Some("WebGPU buffer lost"))),
        Some(false)
    );
    assert_eq!(
        gpu_of(session_action(Some("kim-vocal-2"), "kim-vocal-2", Some("CUDA out of memory"))),
        Some(false)
    );
    assert_eq!(
        gpu_of(session_action(Some("kim-vocal-2"), "kim-vocal-2", Some("Download failed"))),
        None
    );
}

#[test]
fn job_messages() {
    assert_eq!(preparing_message("Kim Vocal 2"), "Preparing Kim Vocal 2");
    assert_eq!(ready_message("CPU"), "Ready on CPU · 32-bit float WAV");
}
