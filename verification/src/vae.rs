//! The variational autoencoder shard's envelope protocol: the direction
//! flag that selects encoding (image to latent) or decoding (latent to
//! image), the request builders the driving node uses, and the routing
//! a worker performs on an incoming request. The autoencoder's numeric
//! work itself is an external collaborator; everything here is about
//! getting the right tensor to the right operation, losslessly.
use vstd::prelude::*;

use crate::SDArgs;
use crate::StableDiffusionVersion;
use crate::envelope::Envelope;
use crate::envelope::encode_env;
use crate::error::ProtocolError;
use crate::tensor::Dtype;
use crate::tensor::TensorData;

verus! {

/// The control value that selects the encoding direction.
pub const DIRECTION_ENCODE: u64 = 1;

/// The control value that selects the decoding direction.
pub const DIRECTION_DECODE: u64 = 0;

/// Which of the autoencoder's two operations a request selects.
#[derive(Debug, Clone, Copy, PartialEq, Eq, Structural)]
pub enum VaeOp {
    Encode,
    Decode,
}

/// The element datatype the autoencoder loads and computes in, from
/// the cluster's half-precision setting.
pub fn sd_dtype(args: &SDArgs) -> (d: Dtype)
    ensures
        d == if args.use_f16 {
            Dtype::F16
        } else {
            Dtype::F32
        },
{
    if args.use_f16 {
        Dtype::F16
    } else {
        Dtype::F32
    }
}

/// The weight file the autoencoder loads: the explicitly configured
/// file if one is set, else the released file of the configured version
/// and precision.
pub fn vae_weight_file(args: &SDArgs) -> (r: String)
    ensures
        r@ == match args.vae {
            Some(n) => n@,
            None => StableDiffusionVersion::vae_file_spec(args.use_f16),
        },
{
    match &args.vae {
        Some(n) => n.clone(),
        None => args.sd_version.vae_file(args.use_f16).to_owned(),
    }
}

/// The stable name of the autoencoder shard, used for logging and as
/// its cache entry key.
pub fn vae_layer_name() -> (r: &'static str)
    ensures
        r@ == "vae"@,
{
    "vae"
}

/// The request that asks the autoencoder shard to encode an image into
/// a latent: direction flag 1, then the image tensor.
pub fn vae_encode_request(image: &TensorData) -> (out: Vec<u8>)
    ensures
        out@ == encode_env(seq![DIRECTION_ENCODE], image.dtype, image.shape@, image.data@),
{
    let mut control: Vec<u64> = Vec::new();
    control.push(DIRECTION_ENCODE);
    proof {
        assert(control@ =~= seq![DIRECTION_ENCODE]);
    }
    crate::envelope::pack_parts(&control, image)
}

/// The request that asks the autoencoder shard to decode a latent back
/// into an image: direction flag 0, then the latent tensor.
pub fn vae_decode_request(latents: &TensorData) -> (out: Vec<u8>)
    ensures
        out@ == encode_env(seq![DIRECTION_DECODE], latents.dtype, latents.shape@, latents.data@),
{
    let mut control: Vec<u64> = Vec::new();
    control.push(DIRECTION_DECODE);
    proof {
        assert(control@ =~= seq![DIRECTION_DECODE]);
    }
    crate::envelope::pack_parts(&control, latents)
}

/// Routes an unpacked request on the autoencoder shard: the first
/// control value selects encoding when it is 1 and decoding otherwise,
/// exactly as the requests above frame it; an envelope without control
/// values is rejected and nothing is computed.
pub fn vae_route(env: &Envelope) -> (r: Result<VaeOp, ProtocolError>)
    ensures
        env.control@.len() == 0 ==> r == Err::<VaeOp, ProtocolError>(ProtocolError::Truncated),
        env.control@.len() > 0 ==> r == Ok::<VaeOp, ProtocolError>(
            if env.control@[0] == DIRECTION_ENCODE {
                VaeOp::Encode
            } else {
                VaeOp::Decode
            },
        ),
{
    if env.control.len() == 0 {
        return Err(ProtocolError::Truncated);
    }
    if env.control[0] == DIRECTION_ENCODE {
        Ok(VaeOp::Encode)
    } else {
        Ok(VaeOp::Decode)
    }
}

} // verus!
