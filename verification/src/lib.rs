//! Distributed pipeline-parallel execution engine for large generative
//! models: a topology model that assigns contiguous layer ranges to nodes,
//! a wire envelope that carries a tensor together with integer control
//! values, a per-shard generation cache with a monotonic position index,
//! and the pipeline and generation drivers built on top of them.
use vstd::prelude::*;

pub mod cache;
pub mod driver;
pub mod envelope;
pub mod error;
pub mod node;
pub mod pipeline;
pub mod tensor;
pub mod topology;
pub mod vae;

verus! {

/// Which kind of generative model the cluster runs.
#[derive(Copy, Clone, Default, Debug, Eq, PartialEq, PartialOrd, Ord, Structural)]
pub enum ModelType {
    #[default]
    TextModel,
    ImageModel,
}

/// Stable Diffusion settings shared by every node of an image cluster.
#[derive(Clone, Debug, Default)]
pub struct SDArgs {
    pub tokenizer: Option<String>,
    pub tokenizer_2: Option<String>,
    pub sd_version: StableDiffusionVersion,
    pub use_f16: bool,
    pub width: Option<usize>,
    pub height: Option<usize>,
    pub sliced_attention_size: Option<usize>,
    pub clip: Option<String>,
    pub clip2: Option<String>,
    pub vae: Option<String>,
    pub unet: Option<String>,
    pub use_flash_attention: bool,
}

/// Which released Stable Diffusion model the image pipeline loads.
#[derive(Debug, Clone, Copy, PartialEq, Eq, Default, Structural)]
pub enum StableDiffusionVersion {
    #[default]
    V1_5,
    V2_1,
    Xl,
    Turbo,
}

impl StableDiffusionVersion {
    /// The hub repository that hosts this version's weight files.
    pub open spec fn repo_spec(self) -> Seq<char> {
        match self {
            StableDiffusionVersion::Xl => "stabilityai/stable-diffusion-xl-base-1.0"@,
            StableDiffusionVersion::V2_1 => "stabilityai/stable-diffusion-2-1"@,
            StableDiffusionVersion::V1_5 => "runwayml/stable-diffusion-v1-5"@,
            StableDiffusionVersion::Turbo => "stabilityai/sdxl-turbo"@,
        }
    }

    pub fn repo(&self) -> (r: &'static str)
        ensures
            r@ == self.repo_spec(),
    {
        match self {
            Self::Xl => "stabilityai/stable-diffusion-xl-base-1.0",
            Self::V2_1 => "stabilityai/stable-diffusion-2-1",
            Self::V1_5 => "runwayml/stable-diffusion-v1-5",
            Self::Turbo => "stabilityai/sdxl-turbo",
        }
    }

    /// The weight file of the denoising UNet, in half or full precision.
    pub open spec fn unet_file_spec(use_f16: bool) -> Seq<char> {
        if use_f16 {
            "unet/diffusion_pytorch_model.fp16.safetensors"@
        } else {
            "unet/diffusion_pytorch_model.safetensors"@
        }
    }

    pub fn unet_file(&self, use_f16: bool) -> (r: &'static str)
        ensures
            r@ == Self::unet_file_spec(use_f16),
    {
        match self {
            Self::V1_5 | Self::V2_1 | Self::Xl | Self::Turbo => {
                if use_f16 {
                    "unet/diffusion_pytorch_model.fp16.safetensors"
                } else {
                    "unet/diffusion_pytorch_model.safetensors"
                }
            },
        }
    }

    /// The weight file of the variational autoencoder.
    pub open spec fn vae_file_spec(use_f16: bool) -> Seq<char> {
        if use_f16 {
            "vae/diffusion_pytorch_model.fp16.safetensors"@
        } else {
            "vae/diffusion_pytorch_model.safetensors"@
        }
    }

    pub fn vae_file(&self, use_f16: bool) -> (r: &'static str)
        ensures
            r@ == Self::vae_file_spec(use_f16),
    {
        match self {
            Self::V1_5 | Self::V2_1 | Self::Xl | Self::Turbo => {
                if use_f16 {
                    "vae/diffusion_pytorch_model.fp16.safetensors"
                } else {
                    "vae/diffusion_pytorch_model.safetensors"
                }
            },
        }
    }

    /// The weight file of the first text encoder.
    pub open spec fn clip_file_spec(use_f16: bool) -> Seq<char> {
        if use_f16 {
            "text_encoder/model.fp16.safetensors"@
        } else {
            "text_encoder/model.safetensors"@
        }
    }

    pub fn clip_file(&self, use_f16: bool) -> (r: &'static str)
        ensures
            r@ == Self::clip_file_spec(use_f16),
    {
        match self {
            Self::V1_5 | Self::V2_1 | Self::Xl | Self::Turbo => {
                if use_f16 {
                    "text_encoder/model.fp16.safetensors"
                } else {
                    "text_encoder/model.safetensors"
                }
            },
        }
    }

    /// The weight file of the second text encoder, present on XL models.
    pub open spec fn clip2_file_spec(use_f16: bool) -> Seq<char> {
        if use_f16 {
            "text_encoder_2/model.fp16.safetensors"@
        } else {
            "text_encoder_2/model.safetensors"@
        }
    }

    pub fn clip2_file(&self, use_f16: bool) -> (r: &'static str)
        ensures
            r@ == Self::clip2_file_spec(use_f16),
    {
        match self {
            Self::V1_5 | Self::V2_1 | Self::Xl | Self::Turbo => {
                if use_f16 {
                    "text_encoder_2/model.fp16.safetensors"
                } else {
                    "text_encoder_2/model.safetensors"
                }
            },
        }
    }
}

} // verus!
