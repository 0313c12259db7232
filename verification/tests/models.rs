use dualis::models::{
    by_id, catalog, config_for_input_dims, model_infos, require, Architecture, ModelConfig,
    WaveLayout, DEFAULT_MODEL_ID,
};

#[test]
fn catalog_has_unique_ids() {
    let mut ids: Vec<_> = catalog().iter().map(|s| s.id).collect();
    ids.sort();
    ids.dedup();
    assert_eq!(ids.len(), catalog().len());
}

#[test]
fn default_model_exists() {
    assert!(by_id(DEFAULT_MODEL_ID).is_some());
    assert_eq!(require("missing").id, DEFAULT_MODEL_ID);
}

#[test]
fn chunk_size_and_default_config() {
    let cfg = ModelConfig::default();
    assert_eq!(cfg.chunk_size(), 1024 * 255);
    assert_eq!(cfg.compensate_per_mille, 1035);
    let spec = require("bs-roformer");
    assert_eq!(spec.architecture, Architecture::Roformer);
    assert_eq!(spec.config.waveform_len, 352_800);
}

#[test]
fn input_dims_adjust_config() {
    let spec = require("uvr-mdx-voc-ft");
    let (arch, cfg) = config_for_input_dims(&spec, Some(vec![1, 4, 2048, 128]));
    assert_eq!(arch, Architecture::Mdx);
    assert_eq!((cfg.dim_f, cfg.dim_t, cfg.n_fft), (2048, 128, 7680));
    let (_, cfg) = config_for_input_dims(&spec, Some(vec![1, 4, 4096, 256]));
    assert_eq!(cfg.n_fft, 8192);
    let (arch, cfg) = config_for_input_dims(&spec, Some(vec![1, 2, 100_000]));
    assert_eq!(arch, Architecture::Roformer);
    assert_eq!((cfg.waveform_len, cfg.layout), (100_000, WaveLayout::ChannelFirst));
    let (_, cfg) = config_for_input_dims(&spec, Some(vec![1, 100_000, 2]));
    assert_eq!(cfg.layout, WaveLayout::ChannelLast);
    let (arch, cfg) = config_for_input_dims(&spec, Some(vec![1, 2, 64]));
    assert_eq!(arch, Architecture::Mdx);
    assert_eq!(cfg, spec.config);
    let (_, cfg) = config_for_input_dims(&spec, None);
    assert_eq!(cfg, spec.config);
}

#[test]
fn model_list() {
    let infos = model_infos(&vec![true, false, false]);
    assert_eq!(infos.len(), 3);
    assert!(infos[0].ready);
    assert_eq!(infos[2].architecture, "roformer");
    assert_eq!(infos[1].id, "uvr-mdx-voc-ft");
}
