//! The pipeline (chain): one entry per shard of the plan, in topology
//! order, each entry either a local block or a remote proxy towards the
//! shard's owning node. A run threads one tensor through every entry in
//! order; the run state machine below fixes that order, hands each hop
//! its packed envelope, and forbids skipping or reordering entries.
use vstd::prelude::*;

use crate::envelope::encode_env;
use crate::envelope::pack_parts;
use crate::error::ProtocolError;
use crate::tensor::TensorData;
use crate::topology::LayerRange;
use crate::topology::ShardAssignment;
use crate::topology::TopologyPlan;
use crate::topology::all_layers;
use crate::topology::contiguous_from_zero;
use crate::topology::layers_of;
use crate::topology::lemma_plan_covers;

verus! {

/// One pipeline entry: the shard it stands for, and whether the work
/// happens in-process or behind a remote proxy.
#[derive(Debug, Clone, PartialEq, Eq)]
pub enum LayerEntry {
    /// The shard's layers are computed in this process.
    Local { shard_index: usize, range: LayerRange },
    /// The shard's layers live on another node; a forward packs the
    /// input into an envelope and sends it to `address`.
    Remote { shard_index: usize, range: LayerRange, address: String },
}

/// Entry `i` stands for shard `i` of the plan: same range, local
/// exactly when the shard's address is this node's own.
pub open spec fn matches_shard(
    e: LayerEntry,
    s: ShardAssignment,
    i: int,
    local: Seq<char>,
) -> bool {
    match e {
        LayerEntry::Local { shard_index, range } => {
            &&& s.address@ == local
            &&& shard_index == i
            &&& range.first_layer == s.first_layer
            &&& range.last_layer == s.last_layer
        },
        LayerEntry::Remote { shard_index, range, address } => {
            &&& s.address@ != local
            &&& address@ == s.address@
            &&& shard_index == i
            &&& range.first_layer == s.first_layer
            &&& range.last_layer == s.last_layer
        },
    }
}

/// The entries mirror the plan: one per shard, in plan order.
pub open spec fn entries_match(
    entries: Seq<LayerEntry>,
    shards: Seq<ShardAssignment>,
    local: Seq<char>,
) -> bool {
    &&& entries.len() == shards.len()
    &&& forall|i: int|
        0 <= i < shards.len() ==> matches_shard(#[trigger] entries[i], shards[i], i, local)
}

/// The ordered chain of layer entries a node runs a forward through.
#[derive(Debug, Clone, PartialEq, Eq)]
pub struct Pipeline {
    pub entries: Vec<LayerEntry>,
    pub n_layers: u64,
}

impl Pipeline {
    /// Builds the chain from a plan, once at startup: exactly one entry
    /// per shard, in plan order, local for the shards `local` owns and
    /// a remote proxy for every other shard.
    pub fn build(plan: &TopologyPlan, local: &String) -> (p: Pipeline)
        ensures
            entries_match(p.entries@, plan.shards@, local@),
            p.n_layers == plan.n_layers,
    {
        let mut entries: Vec<LayerEntry> = Vec::new();
        let mut i: usize = 0;
        while i < plan.shards.len()
            invariant
                i <= plan.shards@.len(),
                entries@.len() == i,
                forall|t: int|
                    0 <= t < i ==> matches_shard(
                        #[trigger] entries@[t],
                        plan.shards@[t],
                        t,
                        local@,
                    ),
            decreases plan.shards@.len() - i,
        {
            let range = LayerRange {
                first_layer: plan.shards[i].first_layer,
                last_layer: plan.shards[i].last_layer,
            };
            if plan.shards[i].address == *local {
                entries.push(LayerEntry::Local { shard_index: i, range });
            } else {
                entries.push(
                    LayerEntry::Remote {
                        shard_index: i,
                        range,
                        address: plan.shards[i].address.clone(),
                    },
                );
            }
            i += 1;
        }
        Pipeline { entries, n_layers: plan.n_layers }
    }
}

/// What the node driving a run must do next for one entry.
pub enum StepAction {
    /// Compute the shard's layers in-process on the current tensor.
    ComputeLocal { shard_index: usize, range: LayerRange },
    /// Send `message` (the packed envelope of the current tensor with
    /// its position and shard index) to `address` and await the reply.
    SendRemote { shard_index: usize, address: String, message: Vec<u8> },
}

/// One run of the pipeline: the current stage, the step's position
/// index, and the tensor about to enter the current stage. The stage
/// only ever advances by one, when the stage's output is supplied, so
/// no entry can be skipped or reordered and every stage of the run sees
/// the same position index.
#[derive(Debug, Clone, PartialEq, Eq)]
pub struct RunState {
    pub stage: usize,
    pub position: u64,
    pub current: TensorData,
}

impl RunState {
    /// Starts a run at entry 0 with the step's input tensor.
    pub fn begin(input: TensorData, position: u64) -> (s: RunState)
        ensures
            s.stage == 0,
            s.position == position,
            s.current == input,
    {
        RunState { stage: 0, position, current: input }
    }

    /// The run is complete when every entry has been passed.
    pub fn is_done(&self, pipeline: &Pipeline) -> (r: bool)
        ensures
            r == (self.stage >= pipeline.entries@.len()),
    {
        self.stage >= pipeline.entries.len()
    }

    /// What to do for the current entry: compute locally, or send the
    /// packed envelope of `(position, shard index, current tensor)` to
    /// the shard's owner. `None` once the run is complete.
    pub fn next_action(&self, pipeline: &Pipeline) -> (a: Option<StepAction>)
        ensures
            match a {
                None => self.stage >= pipeline.entries@.len(),
                Some(act) => {
                    &&& self.stage < pipeline.entries@.len()
                    &&& match act {
                        StepAction::ComputeLocal { shard_index, range } => pipeline.entries@[self.stage as int]
                            == (LayerEntry::Local { shard_index, range }),
                        StepAction::SendRemote { shard_index, address, message } => {
                            &&& pipeline.entries@[self.stage as int] matches LayerEntry::Remote {
                                shard_index: si,
                                range: _,
                                address: ad,
                            } && si == shard_index && ad@ == address@
                            &&& message@ == encode_env(
                                seq![self.position, shard_index as u64],
                                self.current.dtype,
                                self.current.shape@,
                                self.current.data@,
                            )
                        },
                    }
                },
            },
    {
        if self.stage >= pipeline.entries.len() {
            return None;
        }
        match &pipeline.entries[self.stage] {
            LayerEntry::Local { shard_index, range } => Some(
                StepAction::ComputeLocal { shard_index: *shard_index, range: *range },
            ),
            LayerEntry::Remote { shard_index, range: _, address } => {
                let message = hop_request(self.position, *shard_index as u64, &self.current);
                Some(
                    StepAction::SendRemote {
                        shard_index: *shard_index,
                        address: address.clone(),
                        message,
                    },
                )
            },
        }
    }

    /// Hands the current entry's output tensor to the run: the run
    /// moves to the next entry, at the same position index, and the
    /// output becomes the next entry's input.
    pub fn supply(&mut self, output: TensorData)
        requires
            old(self).stage < usize::MAX,
        ensures
            final(self).stage == old(self).stage + 1,
            final(self).position == old(self).position,
            final(self).current == output,
    {
        self.stage = self.stage + 1;
        self.current = output;
    }

    /// The run's result: the tensor that came out of the last entry.
    pub fn into_output(self) -> (r: TensorData)
        ensures
            r == self.current,
    {
        self.current
    }
}

/// The request envelope of one pipeline hop: the position index, the
/// shard index, and the input tensor, framed for the wire.
pub fn hop_request(position: u64, shard_index: u64, payload: &TensorData) -> (out: Vec<u8>)
    ensures
        out@ == encode_env(
            seq![position, shard_index],
            payload.dtype,
            payload.shape@,
            payload.data@,
        ),
{
    let mut control: Vec<u64> = Vec::new();
    control.push(position);
    control.push(shard_index);
    proof {
        assert(control@ =~= seq![position, shard_index]);
    }
    pack_parts(&control, payload)
}

/// The response envelope of one pipeline hop: the computed tensor with
/// no further control values.
pub fn hop_response(payload: &TensorData) -> (out: Vec<u8>)
    ensures
        out@ == encode_env(Seq::empty(), payload.dtype, payload.shape@, payload.data@),
{
    let control: Vec<u64> = Vec::new();
    proof {
        assert(control@ =~= Seq::<u64>::empty());
    }
    pack_parts(&control, payload)
}

/// What a worker reads out of one incoming hop request.
pub struct HopRequest {
    pub position: u64,
    pub shard_index: u64,
    pub payload: TensorData,
}

/// Parses an incoming hop request: an envelope whose first two control
/// values are the position index and the shard index. Rejects an
/// envelope with fewer than two control values.
pub fn parse_hop(bytes: &Vec<u8>) -> (r: Result<HopRequest, ProtocolError>)
    ensures
        forall|c: Seq<u64>, d: crate::tensor::Dtype, sh: Seq<u64>, da: Seq<u8>|
            #[trigger] crate::envelope::is_image(bytes@, c, d, sh, da) && c.len() == 2 ==> (
            r matches Ok(h) && h.position == c[0] && h.shard_index == c[1] && h.payload.dtype == d
                && h.payload.shape@ == sh && h.payload.data@ == da),
{
    let env = match crate::envelope::unpack(bytes) {
        Ok(e) => e,
        Err(e) => {
            return Err(e);
        },
    };
    if env.control.len() != 2 {
        return Err(ProtocolError::Truncated);
    }
    let position = env.control[0];
    let shard_index = env.control[1];
    Ok(HopRequest { position, shard_index, payload: env.payload })
}

/// A worker's lookup for one incoming hop: the layer range of the named
/// shard, if this worker owns it. `None` exactly when the shard index
/// is out of range or the shard belongs to another address, so a worker
/// never computes layers it does not own.
pub fn worker_lookup(plan: &TopologyPlan, local: &String, shard_index: u64) -> (r: Option<
    LayerRange,
>)
    ensures
        match r {
            Some(range) => {
                &&& shard_index < plan.shards@.len()
                &&& plan.shards@[shard_index as int].address@ == local@
                &&& range.first_layer == plan.shards@[shard_index as int].first_layer
                &&& range.last_layer == plan.shards@[shard_index as int].last_layer
            },
            None => shard_index >= plan.shards@.len() || plan.shards@[shard_index as int].address@
                != local@,
        },
{
    if shard_index >= plan.shards.len() as u64 {
        return None;
    }
    let i = shard_index as usize;
    if plan.shards[i].address == *local {
        Some(
            LayerRange {
                first_layer: plan.shards[i].first_layer,
                last_layer: plan.shards[i].last_layer,
            },
        )
    } else {
        None
    }
}

/// Remote transparency at the layer level: two valid plans over the
/// same layer count run the input through exactly the same layers in
/// the same order, however their shards are split among addresses and
/// whether an entry is local or a remote proxy. With each layer's
/// computation a function of the layer and its input, two such chains
/// take an input through the same sequence of transformations.
pub proof fn lemma_pipeline_transparent(
    s1: Seq<ShardAssignment>,
    s2: Seq<ShardAssignment>,
    n_layers: u64,
)
    requires
        contiguous_from_zero(s1, n_layers),
        contiguous_from_zero(s2, n_layers),
    ensures
        layers_of(s1) == layers_of(s2),
        layers_of(s1) == all_layers(n_layers),
{
    lemma_plan_covers(s1, n_layers);
    lemma_plan_covers(s2, n_layers);
}

/// The tensor that comes out of running `layers` in order through the
/// per-layer transformation `f`, starting from `x`.
pub open spec fn fold_layers(
    f: spec_fn(u64, Seq<u8>) -> Seq<u8>,
    layers: Seq<u64>,
    x: Seq<u8>,
) -> Seq<u8>
    decreases layers.len(),
{
    if layers.len() == 0 {
        x
    } else {
        fold_layers(f, layers.drop_first(), f(layers.first(), x))
    }
}

/// Folding over concatenated layer sequences is folding over the first,
/// then the second.
proof fn lemma_fold_append(
    f: spec_fn(u64, Seq<u8>) -> Seq<u8>,
    a: Seq<u64>,
    b: Seq<u64>,
    x: Seq<u8>,
)
    ensures
        fold_layers(f, a + b, x) == fold_layers(f, b, fold_layers(f, a, x)),
    decreases a.len(),
{
    if a.len() == 0 {
        assert(a + b =~= b);
    } else {
        assert((a + b).drop_first() =~= a.drop_first() + b);
        assert((a + b).first() == a.first());
        lemma_fold_append(f, a.drop_first(), b, f(a.first(), x));
    }
}

/// A run whose stages each compute their shard's layers: if stage `i`
/// turns its input into the fold of `f` over shard `i`'s layers, then
/// the run's final output is the fold of `f` over the whole plan's
/// layers, however those layers are split into shards.
pub proof fn lemma_run_semantics(
    f: spec_fn(u64, Seq<u8>) -> Seq<u8>,
    shards: Seq<ShardAssignment>,
    outs: Seq<Seq<u8>>,
)
    requires
        outs.len() == shards.len() + 1,
        forall|i: int|
            0 <= i < shards.len() ==> outs[i + 1] == fold_layers(
                f,
                crate::topology::range_layers(#[trigger] shards[i]),
                outs[i],
            ),
    ensures
        outs.last() == fold_layers(f, layers_of(shards), outs.first()),
    decreases shards.len(),
{
    if shards.len() == 0 {
    } else {
        let dl = shards.drop_last();
        let douts = outs.drop_last();
        assert forall|i: int| 0 <= i < dl.len() implies douts[i + 1] == fold_layers(
            f,
            crate::topology::range_layers(#[trigger] dl[i]),
            douts[i],
        ) by {
            assert(dl[i] == shards[i]);
            assert(douts[i + 1] == outs[i + 1]);
            assert(douts[i] == outs[i]);
        }
        lemma_run_semantics(f, dl, douts);
        assert(douts.last() == outs[shards.len() - 1]);
        assert(douts.first() == outs.first());
        assert(outs.last() == fold_layers(
            f,
            crate::topology::range_layers(shards.last()),
            outs[shards.len() - 1],
        ));
        lemma_fold_append(
            f,
            layers_of(dl),
            crate::topology::range_layers(shards.last()),
            outs.first(),
        );
    }
}

/// Remote transparency, end to end: two pipelines over the same model,
/// started on the same input, whose stages each compute their shard's
/// layers by the same per-layer transformation, finish with identical
/// outputs — a single local shard, a split into several shards, and a
/// chain with remote proxies all behave the same.
pub proof fn lemma_pipeline_outputs_identical(
    f: spec_fn(u64, Seq<u8>) -> Seq<u8>,
    s1: Seq<ShardAssignment>,
    s2: Seq<ShardAssignment>,
    n_layers: u64,
    outs1: Seq<Seq<u8>>,
    outs2: Seq<Seq<u8>>,
)
    requires
        contiguous_from_zero(s1, n_layers),
        contiguous_from_zero(s2, n_layers),
        outs1.len() == s1.len() + 1,
        outs2.len() == s2.len() + 1,
        forall|i: int|
            0 <= i < s1.len() ==> outs1[i + 1] == fold_layers(
                f,
                crate::topology::range_layers(#[trigger] s1[i]),
                outs1[i],
            ),
        forall|i: int|
            0 <= i < s2.len() ==> outs2[i + 1] == fold_layers(
                f,
                crate::topology::range_layers(#[trigger] s2[i]),
                outs2[i],
            ),
        outs1.first() == outs2.first(),
    ensures
        outs1.last() == outs2.last(),
{
    lemma_run_semantics(f, s1, outs1);
    lemma_run_semantics(f, s2, outs2);
    lemma_pipeline_transparent(s1, s2, n_layers);
}

} // verus!
