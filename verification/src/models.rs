//! The separation models the app can download and run, and how the shape
//! of a loaded model's input adjusts its configuration.
use vstd::prelude::*;

use crate::text::{str_eq, to_owned};

verus! {

/// The kind of network: spectrogram masking (MDX) or waveform-to-waveform.
#[derive(Clone, Copy, PartialEq, Eq, Debug, Structural)]
pub enum Architecture {
    Mdx,
    Roformer,
}

/// How two channels are laid out in a waveform tensor.
#[derive(Clone, Copy, PartialEq, Eq, Debug, Structural)]
pub enum WaveLayout {
    ChannelFirst,
    ChannelLast,
}

/// STFT and chunking parameters of a model. The output gain is stored in
/// thousandths (`1035` is a gain of 1.035) and the overlap between chunks in
/// percent.
#[derive(Clone, Copy, PartialEq, Eq, Debug, Structural)]
pub struct ModelConfig {
    pub n_fft: usize,
    pub hop: usize,
    pub dim_f: usize,
    pub dim_t: usize,
    pub compensate_per_mille: u32,
    pub overlap_percent: u32,
    pub waveform_len: usize,
    pub layout: WaveLayout,
}

impl ModelConfig {
    /// Samples per inference chunk: `hop * (dim_t - 1)`, or 0 when `dim_t` is 0.
    pub fn chunk_size(&self) -> (n: usize)
        requires
            self.hop * (if self.dim_t == 0 {
                0
            } else {
                self.dim_t - 1
            }) <= usize::MAX,
        ensures
            n == self.hop * (if self.dim_t == 0 {
                0
            } else {
                self.dim_t - 1
            }),
    {
        self.hop * self.dim_t.saturating_sub(1)
    }
}

/// The configuration of the default MDX model.
pub open spec fn default_config() -> ModelConfig {
    ModelConfig {
        n_fft: 6144,
        hop: 1024,
        dim_f: 3072,
        dim_t: 256,
        compensate_per_mille: 1035,
        overlap_percent: 25,
        waveform_len: 0,
        layout: WaveLayout::ChannelFirst,
    }
}

impl Default for ModelConfig {
    fn default() -> (c: ModelConfig)
        ensures
            c == default_config(),
    {
        ModelConfig {
            n_fft: 6144,
            hop: 1024,
            dim_f: 3072,
            dim_t: 256,
            compensate_per_mille: 1035,
            overlap_percent: 25,
            waveform_len: 0,
            layout: WaveLayout::ChannelFirst,
        }
    }
}

/// A model of the catalog.
pub struct ModelSpec {
    pub id: &'static str,
    pub name: &'static str,
    pub filename: &'static str,
    pub urls: Vec<&'static str>,
    pub architecture: Architecture,
    pub config: ModelConfig,
    pub description: &'static str,
}

/// A catalog entry seen as
/// `(id, name, filename, urls, architecture, config, description)`.
pub type SpecView = (
    Seq<char>,
    Seq<char>,
    Seq<char>,
    Seq<Seq<char>>,
    Architecture,
    ModelConfig,
    Seq<char>,
);

impl View for ModelSpec {
    type V = SpecView;

    open spec fn view(&self) -> SpecView {
        (
            self.id@,
            self.name@,
            self.filename@,
            self.urls@.map_values(|u: &'static str| u@),
            self.architecture,
            self.config,
            self.description@,
        )
    }
}

/// What the model list shows about a model.
pub struct ModelInfo {
    pub id: String,
    pub name: String,
    pub architecture: String,
    pub ready: bool,
    pub description: String,
}

/// The model used when none is selected.
pub const DEFAULT_MODEL_ID: &'static str = "kim-vocal-2";

/// The catalog, in the order it is shown.
pub open spec fn catalog_view() -> Seq<SpecView> {
    seq![
        (
            "kim-vocal-2"@,
            "Kim Vocal 2"@,
            "Kim_Vocal_2.onnx"@,
            seq![
                "https://github.com/TRvlvr/model_repo/releases/download/all_public_uvr_models/Kim_Vocal_2.onnx"@,
                "https://huggingface.co/seanghay/uvr_models/resolve/main/Kim_Vocal_2.onnx"@,
            ],
            Architecture::Mdx,
            ModelConfig {
                n_fft: 6144,
                hop: 1024,
                dim_f: 3072,
                dim_t: 256,
                compensate_per_mille: 1035,
                overlap_percent: 25,
                waveform_len: 0,
                layout: WaveLayout::ChannelFirst,
            },
            "MDX-Net vocal model. Fast, reliable default for pop and electronic."@,
        ),
        (
            "uvr-mdx-voc-ft"@,
            "UVR MDX Voc FT"@,
            "UVR-MDX-NET-Voc_FT.onnx"@,
            seq![
                "https://github.com/TRvlvr/model_repo/releases/download/all_public_uvr_models/UVR-MDX-NET-Voc_FT.onnx"@,
                "https://huggingface.co/seanghay/uvr_models/resolve/main/UVR-MDX-NET-Voc_FT.onnx"@,
            ],
            Architecture::Mdx,
            ModelConfig {
                n_fft: 7680,
                hop: 1024,
                dim_f: 3072,
                dim_t: 256,
                compensate_per_mille: 1000,
                overlap_percent: 25,
                waveform_len: 0,
                layout: WaveLayout::ChannelFirst,
            },
            "Fine-tuned MDX vocal net. Different timbre, same spectrogram pipeline."@,
        ),
        (
            "bs-roformer"@,
            "BS-Roformer"@,
            "model_bs_roformer.onnx"@,
            seq![
                "https://huggingface.co/seanghay/uvr_models/resolve/main/model_bs_roformer_ep_317_sdr_12.9755.onnx"@,
            ],
            Architecture::Roformer,
            ModelConfig {
                n_fft: 2048,
                hop: 441,
                dim_f: 1024,
                dim_t: 256,
                compensate_per_mille: 1000,
                overlap_percent: 25,
                waveform_len: 352800,
                layout: WaveLayout::ChannelFirst,
            },
            "Roformer-style waveform ONNX. Shape is read from the file at load time."@,
        ),
    ]
}

pub open spec fn specs_view(v: Seq<ModelSpec>) -> Seq<SpecView> {
    v.map_values(|m: ModelSpec| m@)
}

/// The models the app knows.
pub fn catalog() -> (c: Vec<ModelSpec>)
    ensures
        specs_view(c@) == catalog_view(),
{
    let mut c: Vec<ModelSpec> = Vec::new();
    let mut u1: Vec<&'static str> = Vec::new();
    u1.push(
        "https://github.com/TRvlvr/model_repo/releases/download/all_public_uvr_models/Kim_Vocal_2.onnx",
    );
    u1.push("https://huggingface.co/seanghay/uvr_models/resolve/main/Kim_Vocal_2.onnx");
    assert(u1@.map_values(|u: &'static str| u@) =~= catalog_view()[0].3);
    c.push(
        ModelSpec {
            id: "kim-vocal-2",
            name: "Kim Vocal 2",
            filename: "Kim_Vocal_2.onnx",
            urls: u1,
            architecture: Architecture::Mdx,
            config: ModelConfig {
                n_fft: 6144,
                hop: 1024,
                dim_f: 3072,
                dim_t: 256,
                compensate_per_mille: 1035,
                overlap_percent: 25,
                waveform_len: 0,
                layout: WaveLayout::ChannelFirst,
            },
            description: "MDX-Net vocal model. Fast, reliable default for pop and electronic.",
        },
    );
    let mut u2: Vec<&'static str> = Vec::new();
    u2.push(
        "https://github.com/TRvlvr/model_repo/releases/download/all_public_uvr_models/UVR-MDX-NET-Voc_FT.onnx",
    );
    u2.push("https://huggingface.co/seanghay/uvr_models/resolve/main/UVR-MDX-NET-Voc_FT.onnx");
    assert(u2@.map_values(|u: &'static str| u@) =~= catalog_view()[1].3);
    c.push(
        ModelSpec {
            id: "uvr-mdx-voc-ft",
            name: "UVR MDX Voc FT",
            filename: "UVR-MDX-NET-Voc_FT.onnx",
            urls: u2,
            architecture: Architecture::Mdx,
            config: ModelConfig {
                n_fft: 7680,
                hop: 1024,
                dim_f: 3072,
                dim_t: 256,
                compensate_per_mille: 1000,
                overlap_percent: 25,
                waveform_len: 0,
                layout: WaveLayout::ChannelFirst,
            },
            description: "Fine-tuned MDX vocal net. Different timbre, same spectrogram pipeline.",
        },
    );
    let mut u3: Vec<&'static str> = Vec::new();
    u3.push(
        "https://huggingface.co/seanghay/uvr_models/resolve/main/model_bs_roformer_ep_317_sdr_12.9755.onnx",
    );
    assert(u3@.map_values(|u: &'static str| u@) =~= catalog_view()[2].3);
    c.push(
        ModelSpec {
            id: "bs-roformer",
            name: "BS-Roformer",
            filename: "model_bs_roformer.onnx",
            urls: u3,
            architecture: Architecture::Roformer,
            config: ModelConfig {
                n_fft: 2048,
                hop: 441,
                dim_f: 1024,
                dim_t: 256,
                compensate_per_mille: 1000,
                overlap_percent: 25,
                waveform_len: 352800,
                layout: WaveLayout::ChannelFirst,
            },
            description: "Roformer-style waveform ONNX. Shape is read from the file at load time.",
        },
    );
    assert(specs_view(c@) =~= catalog_view());
    c
}

/// The index of the first catalog entry with this id.
pub open spec fn catalog_index(id: Seq<char>) -> Option<int> {
    if catalog_view()[0].0 == id {
        Some(0)
    } else if catalog_view()[1].0 == id {
        Some(1)
    } else if catalog_view()[2].0 == id {
        Some(2)
    } else {
        None
    }
}

/// The catalog entry with this id.
pub fn by_id(id: &str) -> (m: Option<ModelSpec>)
    ensures
        match m {
            Some(s) => catalog_index(id@) is Some && s@ == catalog_view()[catalog_index(id@)->0],
            None => catalog_index(id@) is None,
        },
{
    let mut c = catalog();
    assert(c@.len() == 3) by {
        assert(specs_view(c@).len() == c@.len());
    }
    let mut i: usize = 0;
    while i < c.len()
        invariant
            specs_view(c@) == catalog_view(),
            c@.len() == 3,
            i <= c.len(),
            forall|j: int| 0 <= j < i ==> catalog_view()[j].0 != id@,
        decreases c.len() - i,
    {
        if str_eq(c[i].id, id) {
            assert(specs_view(c@)[i as int] == c@[i as int]@);
            let m = c.remove(i);
            return Some(m);
        }
        assert(specs_view(c@)[i as int] == c@[i as int]@);
        i = i + 1;
    }
    None
}

/// The ids of the catalog are distinct.
pub proof fn law_catalog_ids_unique()
    ensures
        forall|i: int, j: int|
            0 <= i < catalog_view().len() && 0 <= j < catalog_view().len() && i != j
                ==> catalog_view()[i].0 != catalog_view()[j].0,
{
    reveal_strlit("kim-vocal-2");
    reveal_strlit("uvr-mdx-voc-ft");
    reveal_strlit("bs-roformer");
    assert("kim-vocal-2"@[0] != "uvr-mdx-voc-ft"@[0]);
    assert("kim-vocal-2"@[0] != "bs-roformer"@[0]);
    assert("uvr-mdx-voc-ft"@[0] != "bs-roformer"@[0]);
}

/// The default model is in the catalog.
pub proof fn law_default_model_exists()
    ensures
        catalog_index(DEFAULT_MODEL_ID@) == Some(0int),
{
}

/// The model with this id, or the default model for an unknown id.
pub fn require(id: &str) -> (m: ModelSpec)
    ensures
        m@ == catalog_view()[match catalog_index(id@) {
            Some(i) => i,
            None => 0,
        }],
{
    match by_id(id) {
        Some(m) => m,
        None => {
            let mut c = catalog();
            assert(specs_view(c@).len() == c@.len());
            assert(specs_view(c@)[0] == c@[0]@);
            c.remove(0)
        },
    }
}

/// The configuration a model gets from its input shape: `[_, 4, f, t]` is a
/// spectrogram model with `f` bins and `t` frames, `[_, 2, n]` and `[_, n, 2]`
/// are waveform models taking `n` samples per channel.
pub open spec fn shaped_config(spec: SpecView, dims: Option<Seq<i64>>) -> (Architecture, ModelConfig) {
    let cfg = spec.5;
    let arch = spec.4;
    match dims {
        None => (arch, cfg),
        Some(d) => if d.len() == 4 && d[1] == 4 && d[2] > 8 && d[3] > 8 {
            let dim_f = d[2] as usize;
            (
                Architecture::Mdx,
                ModelConfig {
                    dim_f,
                    dim_t: d[3] as usize,
                    n_fft: if cfg.n_fft >= dim_f * 2 {
                        cfg.n_fft
                    } else {
                        (dim_f * 2) as usize
                    },
                    ..cfg
                },
            )
        } else if d.len() == 3 && d[1] == 2 && d[2] > 64 {
            (
                Architecture::Roformer,
                ModelConfig { waveform_len: d[2] as usize, layout: WaveLayout::ChannelFirst, ..cfg },
            )
        } else if d.len() == 3 && d[2] == 2 && d[1] > 64 {
            (
                Architecture::Roformer,
                ModelConfig { waveform_len: d[1] as usize, layout: WaveLayout::ChannelLast, ..cfg },
            )
        } else {
            (arch, cfg)
        },
    }
}

/// Adapts a model's architecture and configuration to the dimensions of its
/// first input, when the model file declares them.
pub fn config_for_input_dims(spec: &ModelSpec, dims: Option<Vec<i64>>) -> (r: (
    Architecture,
    ModelConfig,
))
    requires
        dims is Some && dims->0@.len() == 4 && dims->0@[1] == 4 && dims->0@[2] > 8 && dims->0@[3]
            > 8 ==> (dims->0@[2] as usize) * 2 <= usize::MAX,
    ensures
        r == shaped_config(
            spec@,
            match dims {
                Some(d) => Some(d@),
                None => None,
            },
        ),
{
    let cfg = spec.config;
    let arch = spec.architecture;
    match dims {
        None => (arch, cfg),
        Some(d) => {
            if d.len() == 4 && d[1] == 4 && d[2] > 8 && d[3] > 8 {
                let dim_f = d[2] as usize;
                let dim_t = d[3] as usize;
                let n_fft = if cfg.n_fft >= dim_f * 2 {
                    cfg.n_fft
                } else {
                    dim_f * 2
                };
                (Architecture::Mdx, ModelConfig { dim_f, dim_t, n_fft, ..cfg })
            } else if d.len() == 3 && d[1] == 2 && d[2] > 64 {
                (
                    Architecture::Roformer,
                    ModelConfig {
                        waveform_len: d[2] as usize,
                        layout: WaveLayout::ChannelFirst,
                        ..cfg
                    },
                )
            } else if d.len() == 3 && d[2] == 2 && d[1] > 64 {
                (
                    Architecture::Roformer,
                    ModelConfig {
                        waveform_len: d[1] as usize,
                        layout: WaveLayout::ChannelLast,
                        ..cfg
                    },
                )
            } else {
                (arch, cfg)
            }
        },
    }
}

/// The architecture's name in the model list.
pub open spec fn arch_name(a: Architecture) -> Seq<char> {
    match a {
        Architecture::Mdx => "mdx"@,
        Architecture::Roformer => "roformer"@,
    }
}

/// How a catalog entry is listed, given whether its file is installed.
pub fn model_info(spec: &ModelSpec, ready: bool) -> (i: ModelInfo)
    ensures
        i.id@ == spec.id@,
        i.name@ == spec.name@,
        i.architecture@ == arch_name(spec.architecture),
        i.ready == ready,
        i.description@ == spec.description@,
{
    ModelInfo {
        id: to_owned(spec.id),
        name: to_owned(spec.name),
        architecture: match spec.architecture {
            Architecture::Mdx => to_owned("mdx"),
            Architecture::Roformer => to_owned("roformer"),
        },
        ready,
        description: to_owned(spec.description),
    }
}

/// The model list, given for each catalog entry whether it is installed.
pub fn model_infos(ready: &Vec<bool>) -> (r: Vec<ModelInfo>)
    requires
        ready@.len() == catalog_view().len(),
    ensures
        r@.len() == catalog_view().len(),
        forall|i: int|
            0 <= i < r@.len() ==> {
                &&& (#[trigger] r@[i]).id@ == catalog_view()[i].0
                &&& r@[i].name@ == catalog_view()[i].1
                &&& r@[i].architecture@ == arch_name(catalog_view()[i].4)
                &&& r@[i].ready == ready@[i]
                &&& r@[i].description@ == catalog_view()[i].6
            },
{
    let c = catalog();
    let mut r: Vec<ModelInfo> = Vec::new();
    let mut i: usize = 0;
    while i < c.len()
        invariant
            specs_view(c@) == catalog_view(),
            ready@.len() == c@.len(),
            i <= c.len(),
            r@.len() == i,
            forall|k: int|
                0 <= k < i ==> {
                    &&& (#[trigger] r@[k]).id@ == catalog_view()[k].0
                    &&& r@[k].name@ == catalog_view()[k].1
                    &&& r@[k].architecture@ == arch_name(catalog_view()[k].4)
                    &&& r@[k].ready == ready@[k]
                    &&& r@[k].description@ == catalog_view()[k].6
                },
        decreases c.len() - i,
    {
        assert(specs_view(c@)[i as int] == c@[i as int]@);
        let info = model_info(&c[i], ready[i]);
        r.push(info);
        i = i + 1;
    }
    r
}

} // verus!
