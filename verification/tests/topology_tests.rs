use cake_core::error::ConfigError;
use cake_core::StableDiffusionVersion;
use cake_core::topology::{LayerRange, ShardAssignment, TopologyPlan};

fn shard(first: u64, last: u64, addr: &str) -> ShardAssignment {
    ShardAssignment {
        first_layer: first,
        last_layer: last,
        address: addr.to_string(),
        device_hint: None,
    }
}

#[test]
fn valid_three_shard_plan_loads() {
    let plan = TopologyPlan::load(
        vec![shard(0, 3, "10.0.0.1:10128"), shard(4, 7, "10.0.0.2:10128"), shard(8, 11, "10.0.0.3:10128")],
        12,
    )
    .unwrap();
    assert_eq!(plan.shards.len(), 3);
    assert_eq!(plan.n_layers, 12);
    // One entry per shard, in strictly increasing layer order.
    for i in 1..plan.shards.len() {
        assert!(plan.shards[i - 1].last_layer < plan.shards[i].first_layer);
        assert_eq!(plan.shards[i].first_layer, plan.shards[i - 1].last_layer + 1);
    }
    assert_eq!(plan.shards[0].first_layer, 0);
    assert_eq!(plan.shards[2].last_layer + 1, plan.n_layers);
}

#[test]
fn empty_plan_is_rejected() {
    assert_eq!(TopologyPlan::load(vec![], 4), Err(ConfigError::EmptyPlan));
}

#[test]
fn reversed_range_is_rejected() {
    assert_eq!(
        TopologyPlan::load(vec![shard(3, 1, "a")], 4),
        Err(ConfigError::BadRange)
    );
}

#[test]
fn gap_between_shards_is_rejected() {
    assert_eq!(
        TopologyPlan::load(vec![shard(0, 3, "a"), shard(5, 7, "b")], 8),
        Err(ConfigError::NotContiguous)
    );
}

#[test]
fn overlap_between_shards_is_rejected() {
    assert_eq!(
        TopologyPlan::load(vec![shard(0, 3, "a"), shard(3, 7, "b")], 8),
        Err(ConfigError::NotContiguous)
    );
}

#[test]
fn first_shard_must_start_at_zero() {
    assert_eq!(
        TopologyPlan::load(vec![shard(1, 3, "a")], 4),
        Err(ConfigError::NotContiguous)
    );
}

#[test]
fn wrong_layer_count_is_rejected() {
    assert_eq!(
        TopologyPlan::load(vec![shard(0, 3, "a")], 5),
        Err(ConfigError::WrongLayerCount)
    );
}

#[test]
fn split_ownership_is_rejected() {
    assert_eq!(
        TopologyPlan::load(
            vec![shard(0, 1, "a"), shard(2, 3, "b"), shard(4, 5, "a")],
            6
        ),
        Err(ConfigError::AmbiguousOwnership)
    );
}

#[test]
fn adjacent_ranges_of_one_address_are_accepted() {
    let plan = TopologyPlan::load(
        vec![shard(0, 1, "a"), shard(2, 3, "a"), shard(4, 5, "b")],
        6,
    )
    .unwrap();
    assert_eq!(plan.shards.len(), 3);
}

#[test]
fn resolve_returns_owned_ranges_in_order() {
    let plan = TopologyPlan::load(
        vec![shard(0, 1, "a"), shard(2, 3, "a"), shard(4, 5, "b")],
        6,
    )
    .unwrap();
    let owned = plan.resolve(&"a".to_string());
    assert_eq!(
        owned,
        vec![
            LayerRange { first_layer: 0, last_layer: 1 },
            LayerRange { first_layer: 2, last_layer: 3 }
        ]
    );
    let owned_b = plan.resolve(&"b".to_string());
    assert_eq!(owned_b, vec![LayerRange { first_layer: 4, last_layer: 5 }]);
    assert!(plan.resolve(&"c".to_string()).is_empty());
}

#[test]
fn version_file_names() {
    let v = StableDiffusionVersion::V1_5;
    assert_eq!(v.repo(), "runwayml/stable-diffusion-v1-5");
    assert_eq!(StableDiffusionVersion::V2_1.repo(), "stabilityai/stable-diffusion-2-1");
    assert_eq!(StableDiffusionVersion::Xl.repo(), "stabilityai/stable-diffusion-xl-base-1.0");
    assert_eq!(StableDiffusionVersion::Turbo.repo(), "stabilityai/sdxl-turbo");
    assert_eq!(v.unet_file(true), "unet/diffusion_pytorch_model.fp16.safetensors");
    assert_eq!(v.unet_file(false), "unet/diffusion_pytorch_model.safetensors");
    assert_eq!(v.vae_file(true), "vae/diffusion_pytorch_model.fp16.safetensors");
    assert_eq!(v.vae_file(false), "vae/diffusion_pytorch_model.safetensors");
    assert_eq!(v.clip_file(true), "text_encoder/model.fp16.safetensors");
    assert_eq!(v.clip_file(false), "text_encoder/model.safetensors");
    assert_eq!(v.clip2_file(true), "text_encoder_2/model.fp16.safetensors");
    assert_eq!(v.clip2_file(false), "text_encoder_2/model.safetensors");
}

#[test]
fn model_type_default_is_text() {
    assert_eq!(cake_core::ModelType::default(), cake_core::ModelType::TextModel);
}
