use cake_core::cache::ShardCache;
use cake_core::SDArgs;
use cake_core::node::{NodePhase, NodeRole, NodeState};
use cake_core::driver::{DenoiseState, GenerationState};
use cake_core::envelope::unpack;
use cake_core::error::SessionError;
use cake_core::pipeline::{parse_hop, Pipeline, RunState, StepAction};
use cake_core::tensor::{Dtype, TensorData};
use cake_core::topology::{ShardAssignment, TopologyPlan};
use cake_core::vae::{vae_decode_request, vae_encode_request, vae_route, VaeOp};

fn shard(first: u64, last: u64, addr: &str) -> ShardAssignment {
    ShardAssignment {
        first_layer: first,
        last_layer: last,
        address: addr.to_string(),
        device_hint: None,
    }
}

fn input_tensor() -> TensorData {
    TensorData { dtype: Dtype::U8, shape: vec![4], data: vec![10, 20, 30, 40] }
}

/// The stub collaborator: one layer adds its index into every byte, so
/// the result depends only on which layers ran, in which order.
fn stub_layers(first: u64, last: u64, mut t: TensorData) -> TensorData {
    for layer in first..=last {
        for b in t.data.iter_mut() {
            *b = b.wrapping_add(layer as u8);
        }
    }
    t
}

/// Runs one full pipeline traversal with the stub collaborator,
/// answering remote hops by parsing the wire message like a worker.
fn run_once(pipeline: &Pipeline, input: TensorData, position: u64) -> (TensorData, usize) {
    let mut run = RunState::begin(input, position);
    let mut stages = 0usize;
    while !run.is_done(pipeline) {
        let action = run.next_action(pipeline).unwrap();
        let output = match action {
            StepAction::ComputeLocal { shard_index: _, range } => {
                stages += 1;
                stub_layers(range.first_layer, range.last_layer, run.current.clone())
            }
            StepAction::SendRemote { shard_index, address: _, message } => {
                stages += 1;
                let hop = parse_hop(&message).unwrap();
                assert_eq!(hop.position, position);
                assert_eq!(hop.shard_index, shard_index as u64);
                let range = &pipeline.entries[shard_index];
                let (first, last) = match range {
                    cake_core::pipeline::LayerEntry::Remote { range, .. } => {
                        (range.first_layer, range.last_layer)
                    }
                    cake_core::pipeline::LayerEntry::Local { range, .. } => {
                        (range.first_layer, range.last_layer)
                    }
                };
                stub_layers(first, last, hop.payload)
            }
        };
        run.supply(output);
    }
    (run.into_output(), stages)
}

#[test]
fn cache_accepts_only_successor_positions() {
    let mut cache = ShardCache::new();
    assert!(cache.advance(0, 0, vec![1]).is_ok());
    assert!(cache.advance(0, 1, vec![2]).is_ok());
    // A gap is rejected and the entry is untouched.
    let err = cache.advance(0, 3, vec![9]).unwrap_err();
    assert_eq!(err.presented, 3);
    assert_eq!(err.expected, 2);
    assert_eq!(cache.entries[0].last_index, Some(1));
    assert_eq!(cache.entries[0].data, vec![2]);
    // A rewind is rejected too.
    let err = cache.advance(0, 0, vec![9]).unwrap_err();
    assert_eq!(err.presented, 0);
    assert_eq!(err.expected, 2);
    assert_eq!(cache.entries[0].data, vec![2]);
    // A re-read of the current step is allowed.
    assert!(cache.advance(0, 1, vec![3]).is_ok());
    assert_eq!(cache.entries[0].data, vec![3]);
    // A fresh entry starts at position 0 only.
    let err = cache.advance(5, 2, vec![1]).unwrap_err();
    assert_eq!(err.expected, 0);
    assert!(cache.advance(5, 0, vec![1]).is_ok());
    // Entries are independent.
    assert_eq!(cache.entries[0].last_index, Some(1));
}

#[test]
fn reset_is_idempotent() {
    let mut cache = ShardCache::new();
    cache.advance(0, 0, vec![1]).unwrap();
    cache.advance(1, 0, vec![2]).unwrap();
    cache.reset();
    let once = cache.clone();
    cache.reset();
    assert_eq!(cache, once);
    assert!(cache.entries.is_empty());
    // After a reset, every shard is fresh again.
    assert!(cache.advance(0, 0, vec![7]).is_ok());
}

#[test]
fn three_shard_five_token_generation() {
    let plan = TopologyPlan::load(
        vec![shard(0, 3, "node-a"), shard(4, 7, "node-b"), shard(8, 11, "node-c")],
        12,
    )
    .unwrap();
    let pipeline = Pipeline::build(&plan, &"node-a".to_string());
    assert_eq!(pipeline.entries.len(), 3);

    let mut gen = GenerationState::begin(5);
    let mut cache = ShardCache::new();
    let mut runs = 0u64;
    let mut last_position: Option<u64> = None;
    while let Some(position) = gen.next_step() {
        // Each step is one full traversal, at a position exactly one
        // past the previous step's.
        match last_position {
            None => assert_eq!(position, 0),
            Some(p) => assert_eq!(position, p + 1),
        }
        last_position = Some(position);
        let (_, stages) = run_once(&pipeline, input_tensor(), position);
        assert_eq!(stages, 3);
        for shard_id in 0..3usize {
            cache.advance(shard_id, position, vec![position as u8]).unwrap();
        }
        runs += 1;
        gen.commit_token(100 + position, false);
    }
    assert_eq!(runs, 5);
    assert_eq!(gen.tokens, vec![100, 101, 102, 103, 104]);
    assert!(gen.done);
    assert_eq!(gen.failed, None);
}

#[test]
fn killed_node_aborts_session_with_partial_output() {
    let plan = TopologyPlan::load(
        vec![shard(0, 3, "node-a"), shard(4, 7, "node-b"), shard(8, 11, "node-c")],
        12,
    )
    .unwrap();
    let pipeline = Pipeline::build(&plan, &"node-a".to_string());
    let mut gen = GenerationState::begin(5);
    let mut runs = 0u64;
    while let Some(position) = gen.next_step() {
        if position == 2 {
            // The middle node dies before call 3: the hop fails and the
            // session is aborted at the step boundary.
            gen.fail(SessionError::Transport);
            continue;
        }
        let (_, stages) = run_once(&pipeline, input_tensor(), position);
        assert_eq!(stages, 3);
        runs += 1;
        gen.commit_token(200 + position, false);
    }
    // Calls 4 and 5 never executed; tokens 1 and 2 stay as the partial
    // output.
    assert_eq!(runs, 2);
    assert_eq!(gen.tokens, vec![200, 201]);
    assert_eq!(gen.failed, Some(SessionError::Transport));
    assert_eq!(gen.next_step(), None);
}

#[test]
fn stop_token_ends_generation_early() {
    let mut gen = GenerationState::begin(10);
    gen.commit_token(1, false);
    gen.commit_token(2, true);
    assert!(gen.done);
    assert_eq!(gen.next_step(), None);
    assert_eq!(gen.tokens, vec![1, 2]);
}

#[test]
fn single_node_and_split_pipelines_agree() {
    // The same layer range run as one local shard, as two local shards,
    // and as a chain with a remote middle hop: identical outputs.
    let merged = TopologyPlan::load(vec![shard(0, 11, "solo")], 12).unwrap();
    let split = TopologyPlan::load(vec![shard(0, 5, "solo"), shard(6, 11, "solo")], 12).unwrap();
    let remote = TopologyPlan::load(
        vec![shard(0, 5, "solo"), shard(6, 9, "other"), shard(10, 11, "third")],
        12,
    )
    .unwrap();
    let p_merged = Pipeline::build(&merged, &"solo".to_string());
    let p_split = Pipeline::build(&split, &"solo".to_string());
    let p_remote = Pipeline::build(&remote, &"solo".to_string());

    let (out_merged, stages_merged) = run_once(&p_merged, input_tensor(), 0);
    let (out_split, stages_split) = run_once(&p_split, input_tensor(), 0);
    let (out_remote, stages_remote) = run_once(&p_remote, input_tensor(), 0);
    assert_eq!(stages_merged, 1);
    assert_eq!(stages_split, 2);
    assert_eq!(stages_remote, 3);
    assert_eq!(out_merged, out_split);
    assert_eq!(out_merged, out_remote);
}

#[test]
fn denoise_driver_runs_steps_in_order() {
    let mut state = DenoiseState::begin(3);
    let mut seen = Vec::new();
    while let Some(step) = state.next_step() {
        seen.push(step);
        state.commit_step();
    }
    assert_eq!(seen, vec![0, 1, 2]);
    let mut failing = DenoiseState::begin(3);
    failing.commit_step();
    failing.fail();
    assert_eq!(failing.next_step(), None);
}

#[test]
fn vae_direction_round_trip_is_identity() {
    // A diffusion topology with a UNet shard and a separate VAE shard.
    let plan = TopologyPlan::load(vec![shard(0, 0, "unet-node"), shard(1, 1, "vae-node")], 2).unwrap();
    assert_eq!(plan.shards.len(), 2);

    let image = TensorData { dtype: Dtype::F16, shape: vec![1, 2], data: vec![9, 8, 7, 6] };

    // Encode request: direction flag 1, routed to the encoder.
    let request = vae_encode_request(&image);
    let env = unpack(&request).unwrap();
    assert_eq!(env.control, vec![1]);
    assert_eq!(vae_route(&env), Ok(VaeOp::Encode));
    // The stub autoencoder: encode and decode are mutual inverses; here
    // the identity stands in for the pair.
    let latent = env.payload;
    assert_eq!(latent.data, image.data);

    // Decode request on the resulting latent: direction flag 0.
    let request = vae_decode_request(&latent);
    let env = unpack(&request).unwrap();
    assert_eq!(env.control, vec![0]);
    assert_eq!(vae_route(&env), Ok(VaeOp::Decode));
    let restored = env.payload;

    // Encode then decode is the identity on the tensor the envelopes
    // carried: nothing was lost or reordered on the way.
    assert_eq!(restored, image);
}

#[test]
fn node_role_is_fixed_through_lifecycle() {
    let mut node = NodeState::start(NodeRole::Worker);
    assert_eq!(node.phase, NodePhase::Starting);
    node.serve();
    assert_eq!(node.phase, NodePhase::Serving);
    assert_eq!(node.role, NodeRole::Worker);
    node.stop();
    assert_eq!(node.phase, NodePhase::Stopped);
    assert_eq!(node.role, NodeRole::Worker);
    let primary = NodeState::start(NodeRole::Primary);
    assert_eq!(primary.role, NodeRole::Primary);
}

#[test]
fn worker_guard_matches_cache_rule() {
    let mut cache = ShardCache::new();
    assert!(cache.position_acceptable(0, 0));
    assert!(!cache.position_acceptable(0, 1));
    cache.advance(0, 0, vec![1]).unwrap();
    assert!(cache.position_acceptable(0, 1));
    assert!(cache.position_acceptable(0, 0));
    assert!(!cache.position_acceptable(0, 2));
}

#[test]
fn worker_computes_only_owned_shards() {
    let plan = TopologyPlan::load(
        vec![shard(0, 3, "node-a"), shard(4, 7, "node-b"), shard(8, 11, "node-c")],
        12,
    )
    .unwrap();
    let local = "node-b".to_string();
    assert_eq!(cake_core::pipeline::worker_lookup(&plan, &local, 0), None);
    let owned = cake_core::pipeline::worker_lookup(&plan, &local, 1).unwrap();
    assert_eq!(owned.first_layer, 4);
    assert_eq!(owned.last_layer, 7);
    assert_eq!(cake_core::pipeline::worker_lookup(&plan, &local, 2), None);
    assert_eq!(cake_core::pipeline::worker_lookup(&plan, &local, 3), None);
}

#[test]
fn vae_load_decisions_follow_configuration() {
    let mut args = SDArgs::default();
    args.use_f16 = true;
    assert_eq!(cake_core::vae::sd_dtype(&args), Dtype::F16);
    assert_eq!(
        cake_core::vae::vae_weight_file(&args),
        "vae/diffusion_pytorch_model.fp16.safetensors"
    );
    args.use_f16 = false;
    assert_eq!(cake_core::vae::sd_dtype(&args), Dtype::F32);
    assert_eq!(
        cake_core::vae::vae_weight_file(&args),
        "vae/diffusion_pytorch_model.safetensors"
    );
    args.vae = Some("weights/custom-vae.safetensors".to_string());
    assert_eq!(cake_core::vae::vae_weight_file(&args), "weights/custom-vae.safetensors");
}

#[test]
fn vae_route_rejects_missing_direction() {
    let env = cake_core::envelope::Envelope {
        control: vec![],
        payload: input_tensor(),
    };
    assert!(vae_route(&env).is_err());
    assert_eq!(cake_core::vae::vae_layer_name(), "vae");
}
