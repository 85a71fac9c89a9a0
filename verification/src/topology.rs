//! The topology model: an ordered plan assigning contiguous,
//! non-overlapping layer ranges to node addresses, covering the model's
//! layers exactly once. Built once at startup from a declarative
//! description and immutable thereafter; every node parses the same
//! description and derives the same plan.
use vstd::prelude::*;

use crate::error::ConfigError;

verus! {

/// One shard: a contiguous inclusive range of layers, the address of
/// the node that owns it, and an optional device index on that node.
#[derive(Debug, Clone, PartialEq, Eq)]
pub struct ShardAssignment {
    pub first_layer: u64,
    pub last_layer: u64,
    pub address: String,
    pub device_hint: Option<u64>,
}

/// A contiguous inclusive layer range, as a worker resolves it.
#[derive(Debug, Clone, Copy, PartialEq, Eq, Structural)]
pub struct LayerRange {
    pub first_layer: u64,
    pub last_layer: u64,
}

/// The address of shard `i`, as a character sequence.
pub open spec fn addr_at(shards: Seq<ShardAssignment>, i: int) -> Seq<char> {
    shards[i].address@
}

/// The ranges start at layer zero, each shard begins right after the
/// one before it, every range is non-empty, and the last ends at the
/// model's last layer: together they cover every layer exactly once.
pub open spec fn contiguous_from_zero(shards: Seq<ShardAssignment>, n_layers: u64) -> bool {
    &&& shards.len() > 0
    &&& shards[0].first_layer == 0
    &&& forall|i: int|
        0 <= i < shards.len() ==> (#[trigger] shards[i]).first_layer <= shards[i].last_layer
    &&& forall|i: int|
        0 < i < shards.len() ==> (#[trigger] shards[i]).first_layer == shards[i - 1].last_layer + 1
    &&& shards[shards.len() - 1].last_layer + 1 == n_layers
}

/// Shards with the same address stand next to each other: no address
/// owns two ranges with another owner's layers in between, which would
/// make ownership ambiguous.
pub open spec fn ownership_unambiguous(shards: Seq<ShardAssignment>) -> bool {
    forall|i: int, j: int|
        0 <= j && j + 1 < i && i < shards.len() && #[trigger] addr_at(shards, j) == #[trigger] addr_at(
            shards,
            i,
        ) ==> addr_at(shards, i - 1) == addr_at(shards, i)
}

/// A description the engine accepts as a plan.
pub open spec fn valid_plan(shards: Seq<ShardAssignment>, n_layers: u64) -> bool {
    contiguous_from_zero(shards, n_layers) && ownership_unambiguous(shards)
}

/// The ordered plan of a cluster, fixed for the process lifetime.
#[derive(Debug, Clone, PartialEq, Eq)]
pub struct TopologyPlan {
    pub shards: Vec<ShardAssignment>,
    pub n_layers: u64,
}

impl TopologyPlan {
    pub open spec fn wf(self) -> bool {
        valid_plan(self.shards@, self.n_layers)
    }

    /// Validates a description into a plan. Succeeds if and only if the
    /// description is a valid plan; the error names the first check
    /// that failed, in the order the checks run.
    pub fn load(entries: Vec<ShardAssignment>, n_layers: u64) -> (r: Result<
        TopologyPlan,
        ConfigError,
    >)
        ensures
            r is Ok <==> valid_plan(entries@, n_layers),
            r matches Ok(p) ==> p.shards@ == entries@ && p.n_layers == n_layers && p.wf(),
            r == Err::<TopologyPlan, ConfigError>(ConfigError::EmptyPlan) <==> entries@.len() == 0,
            r == Err::<TopologyPlan, ConfigError>(ConfigError::BadRange) ==> exists|i: int|
                0 <= i < entries@.len() && (#[trigger] entries@[i]).first_layer
                    > entries@[i].last_layer,
            r == Err::<TopologyPlan, ConfigError>(ConfigError::NotContiguous)
                ==> !contiguous_from_zero(entries@, n_layers),
            r == Err::<TopologyPlan, ConfigError>(ConfigError::WrongLayerCount) ==> entries@.len()
                > 0 && entries@[entries@.len() - 1].last_layer + 1 != n_layers,
            r == Err::<TopologyPlan, ConfigError>(ConfigError::AmbiguousOwnership)
                ==> !ownership_unambiguous(entries@),
    {
        let n = entries.len();
        if n == 0 {
            return Err(ConfigError::EmptyPlan);
        }
        let mut i: usize = 0;
        while i < n
            invariant
                n == entries@.len(),
                i <= n,
                forall|t: int|
                    0 <= t < i ==> (#[trigger] entries@[t]).first_layer <= entries@[t].last_layer,
            decreases n - i,
        {
            if entries[i].first_layer > entries[i].last_layer {
                return Err(ConfigError::BadRange);
            }
            i += 1;
        }
        if entries[0].first_layer != 0 {
            return Err(ConfigError::NotContiguous);
        }
        let mut i: usize = 1;
        while i < n
            invariant
                n == entries@.len(),
                1 <= i <= n,
                forall|t: int|
                    0 < t < i ==> (#[trigger] entries@[t]).first_layer == entries@[t
                        - 1].last_layer + 1,
            decreases n - i,
        {
            if !(entries[i].first_layer > 0 && entries[i - 1].last_layer == entries[i].first_layer
                - 1) {
                return Err(ConfigError::NotContiguous);
            }
            i += 1;
        }
        if !(n_layers > 0 && entries[n - 1].last_layer == n_layers - 1) {
            return Err(ConfigError::WrongLayerCount);
        }
        let mut i: usize = 2;
        while i < n
            invariant
                n == entries@.len(),
                2 <= i <= n || (n < 2 && i == 2),
                forall|a: int, b: int|
                    0 <= b && b + 1 < a && a < i && #[trigger] addr_at(entries@, b)
                        == #[trigger] addr_at(entries@, a) ==> addr_at(entries@, a - 1) == addr_at(
                        entries@,
                        a,
                    ),
            decreases n - i,
        {
            let mut j: usize = 0;
            while j + 1 < i
                invariant
                    n == entries@.len(),
                    2 <= i < n,
                    j < i,
                    forall|a: int, b: int|
                        0 <= b && b + 1 < a && a < i && #[trigger] addr_at(entries@, b)
                            == #[trigger] addr_at(entries@, a) ==> addr_at(entries@, a - 1)
                            == addr_at(entries@, a),
                    forall|b: int|
                        0 <= b < j && #[trigger] addr_at(entries@, b) == addr_at(entries@, i as int)
                            ==> addr_at(entries@, i - 1) == addr_at(entries@, i as int),
                decreases i - j,
            {
                if entries[j].address == entries[i].address && !(entries[i - 1].address
                    == entries[i].address) {
                    proof {
                        assert(!ownership_unambiguous(entries@)) by {
                            if ownership_unambiguous(entries@) {
                                assert(addr_at(entries@, j as int) == addr_at(entries@, i as int)
                                    ==> addr_at(entries@, i - 1) == addr_at(entries@, i as int));
                            }
                        }
                    }
                    return Err(ConfigError::AmbiguousOwnership);
                }
                j += 1;
            }
            i += 1;
        }
        Ok(TopologyPlan { shards: entries, n_layers })
    }

    /// The shard ranges a worker at `local` owns, in plan order: one
    /// entry per shard whose address equals `local`.
    pub fn resolve(&self, local: &String) -> (r: Vec<LayerRange>)
        ensures
            r@ == owned_ranges(self.shards@, local@),
    {
        let mut out: Vec<LayerRange> = Vec::new();
        let mut i: usize = 0;
        while i < self.shards.len()
            invariant
                i <= self.shards@.len(),
                out@ == owned_ranges(self.shards@.take(i as int), local@),
            decreases self.shards@.len() - i,
        {
            proof {
                assert(self.shards@.take(i + 1).drop_last() =~= self.shards@.take(i as int));
                assert(self.shards@.take(i + 1).last() == self.shards@[i as int]);
            }
            if self.shards[i].address == *local {
                out.push(
                    LayerRange {
                        first_layer: self.shards[i].first_layer,
                        last_layer: self.shards[i].last_layer,
                    },
                );
            }
            i += 1;
        }
        proof {
            assert(self.shards@.take(self.shards@.len() as int) =~= self.shards@);
        }
        out
    }
}

/// The ranges owned by `addr`, in plan order.
pub open spec fn owned_ranges(shards: Seq<ShardAssignment>, addr: Seq<char>) -> Seq<LayerRange>
    decreases shards.len(),
{
    if shards.len() == 0 {
        Seq::empty()
    } else {
        owned_ranges(shards.drop_last(), addr) + (if shards.last().address@ == addr {
            seq![
                LayerRange {
                    first_layer: shards.last().first_layer,
                    last_layer: shards.last().last_layer,
                },
            ]
        } else {
            Seq::empty()
        })
    }
}

/// The layers of one shard's range, in increasing order.
pub open spec fn range_layers(s: ShardAssignment) -> Seq<u64> {
    Seq::new((s.last_layer - s.first_layer + 1) as nat, |k: int| (s.first_layer + k) as u64)
}

/// The layers of a plan, shard by shard, each range written out in
/// increasing order.
pub open spec fn layers_of(shards: Seq<ShardAssignment>) -> Seq<u64>
    decreases shards.len(),
{
    if shards.len() == 0 {
        Seq::empty()
    } else {
        layers_of(shards.drop_last()) + range_layers(shards.last())
    }
}

/// The identity layer sequence of a model with `n` layers.
pub open spec fn all_layers(n: u64) -> Seq<u64> {
    Seq::new(n as nat, |k: int| k as u64)
}

/// Contiguous coverage: the layers of a contiguous plan, written shard
/// by shard, are every layer of the model exactly once, in increasing
/// order.
pub proof fn lemma_plan_covers(shards: Seq<ShardAssignment>, n_layers: u64)
    requires
        contiguous_from_zero(shards, n_layers),
    ensures
        layers_of(shards) == all_layers(n_layers),
    decreases shards.len(),
{
    let last = shards.last();
    if shards.len() == 1 {
        assert(layers_of(shards.drop_last()) =~= Seq::<u64>::empty());
        assert(layers_of(shards) =~= all_layers(n_layers));
    } else {
        let dl = shards.drop_last();
        let m = dl[dl.len() - 1].last_layer + 1;
        assert(contiguous_from_zero(dl, m as u64)) by {
            assert(forall|i: int|
                0 <= i < dl.len() ==> (#[trigger] dl[i]).first_layer <= dl[i].last_layer);
            assert(forall|i: int|
                0 < i < dl.len() ==> (#[trigger] dl[i]).first_layer == dl[i - 1].last_layer + 1);
        }
        lemma_plan_covers(dl, m as u64);
        assert(last.first_layer == m);
        assert(layers_of(shards) =~= all_layers(n_layers));
    }
}

/// Shard ranges strictly increase along the plan: an earlier shard's
/// layers all lie before a later shard's layers.
pub proof fn lemma_ranges_increase(shards: Seq<ShardAssignment>, n_layers: u64, i: int, j: int)
    requires
        contiguous_from_zero(shards, n_layers),
        0 <= i < j < shards.len(),
    ensures
        shards[i].last_layer < shards[j].first_layer,
    decreases j - i,
{
    if j == i + 1 {
    } else {
        lemma_ranges_increase(shards, n_layers, i, j - 1);
    }
}

} // verus!
