//! The distributed cache's node-local slice: per-shard generation state
//! keyed by shard index, guarded by a monotonic position index. An entry
//! is mutated only through `advance`, which accepts exactly the
//! successor of the last recorded step (or a re-read of that step) and
//! rejects gaps and rewinds without touching the entry.
use vstd::prelude::*;

use crate::error::CacheConsistencyError;

verus! {

/// One shard's cache entry: the last position index recorded for it and
/// the state bytes written at that step.
#[derive(Debug, Clone, PartialEq, Eq)]
pub struct CacheEntry {
    pub last_index: Option<u64>,
    pub data: Vec<u8>,
}

/// The position index an entry accepts as its next step: 0 for a fresh
/// entry, the successor of the last recorded index otherwise.
pub open spec fn next_index(last: Option<u64>) -> int {
    match last {
        None => 0,
        Some(k) => k as int + 1,
    }
}

/// Whether an entry whose last recorded index is `last` accepts a call
/// at `position`: only the next step, or a pure re-read of the last.
pub open spec fn accepts(last: Option<u64>, position: u64) -> bool {
    position == next_index(last) || last == Some(position)
}

/// The node-local cache slice for the shards this node owns.
#[derive(Debug, Clone, PartialEq, Eq)]
pub struct ShardCache {
    pub entries: Vec<CacheEntry>,
}

/// The last recorded index of shard `id`'s entry; a shard without an
/// explicit entry is fresh.
pub open spec fn entry_last(c: ShardCache, id: int) -> Option<u64> {
    if 0 <= id < c.entries@.len() {
        c.entries@[id].last_index
    } else {
        None
    }
}

/// The state bytes of shard `id`'s entry; empty for a fresh shard.
pub open spec fn entry_data(c: ShardCache, id: int) -> Seq<u8> {
    if 0 <= id < c.entries@.len() {
        c.entries@[id].data@
    } else {
        Seq::empty()
    }
}

/// Every entry of the cache is in the fresh, empty state.
pub open spec fn is_empty_state(c: ShardCache) -> bool {
    forall|id: int| entry_last(c, id) == Option::<u64>::None && entry_data(c, id) == Seq::<
        u8,
    >::empty()
}

impl ShardCache {
    /// A cache with no entries: the state a new session starts from.
    pub fn new() -> (c: ShardCache)
        ensures
            is_empty_state(c),
    {
        ShardCache { entries: Vec::new() }
    }

    /// Makes sure shard `id` has an entry, creating a fresh one (and
    /// fresh ones for any shards before it) if needed; no recorded
    /// state changes.
    pub fn get_or_create(&mut self, id: usize)
        requires
            id < usize::MAX,
        ensures
            id < final(self).entries@.len(),
            forall|k: int| entry_last(*final(self), k) == entry_last(*old(self), k),
            forall|k: int| entry_data(*final(self), k) == entry_data(*old(self), k),
    {
        while self.entries.len() <= id
            invariant
                id < usize::MAX,
                old(self).entries@.len() <= self.entries@.len(),
                forall|k: int|
                    0 <= k < old(self).entries@.len() ==> self.entries@[k] == old(self).entries@[k],
                forall|k: int|
                    old(self).entries@.len() <= k < self.entries@.len() ==> self.entries@[k]
                        == (CacheEntry { last_index: None, data: self.entries@[k].data })
                        && self.entries@[k].data@ == Seq::<u8>::empty(),
            decreases id + 1 - self.entries@.len(),
        {
            self.entries.push(CacheEntry { last_index: None, data: Vec::new() });
        }
    }

    /// Records shard `id`'s state for step `position`. Accepts exactly
    /// the successor of the entry's last recorded index, or a re-read
    /// at that same index; on any other position the call fails with
    /// the consistency error and the whole cache is left untouched.
    pub fn advance(&mut self, id: usize, position: u64, data: Vec<u8>) -> (r: Result<
        (),
        CacheConsistencyError,
    >)
        requires
            id < usize::MAX,
        ensures
            r is Ok <==> accepts(entry_last(*old(self), id as int), position),
            r is Ok ==> {
                &&& entry_last(*final(self), id as int) == Some(position)
                &&& entry_data(*final(self), id as int) == data@
                &&& forall|k: int|
                    k != id ==> entry_last(*final(self), k) == entry_last(*old(self), k)
                &&& forall|k: int|
                    k != id ==> entry_data(*final(self), k) == entry_data(*old(self), k)
            },
            r matches Err(e) ==> {
                &&& *final(self) == *old(self)
                &&& e.presented == position
                &&& e.expected as int == if next_index(entry_last(*old(self), id as int))
                    <= u64::MAX {
                    next_index(entry_last(*old(self), id as int))
                } else {
                    u64::MAX as int
                }
            },
    {
        let old_last: Option<u64> = if id < self.entries.len() {
            self.entries[id].last_index
        } else {
            None
        };
        let ok = match old_last {
            None => position == 0,
            Some(k) => (k < u64::MAX && position == k + 1) || position == k,
        };
        if !ok {
            let expected = match old_last {
                None => 0,
                Some(k) => if k < u64::MAX {
                    k + 1
                } else {
                    u64::MAX
                },
            };
            return Err(CacheConsistencyError { presented: position, expected });
        }
        self.get_or_create(id);
        self.entries[id] = CacheEntry { last_index: Some(position), data };
        Ok(())
    }

    /// Whether a request at `position` may touch shard `id`'s entry:
    /// the worker's guard before it spends any compute on a hop whose
    /// position the cache would reject afterwards.
    pub fn position_acceptable(&self, id: usize, position: u64) -> (r: bool)
        ensures
            r == accepts(entry_last(*self, id as int), position),
    {
        let last: Option<u64> = if id < self.entries.len() {
            self.entries[id].last_index
        } else {
            None
        };
        match last {
            None => position == 0,
            Some(k) => (k < u64::MAX && position == k + 1) || position == k,
        }
    }

    /// Ends the session: discards every entry. The only deletion path.
    pub fn reset(&mut self)
        ensures
            is_empty_state(*final(self)),
    {
        self.entries.clear();
    }
}

/// Resetting is idempotent: any two caches in the empty state agree on
/// every entry, so a second `reset` right after a first leaves the
/// cache exactly as the first did.
pub proof fn lemma_reset_idempotent(a: ShardCache, b: ShardCache)
    requires
        is_empty_state(a),
        is_empty_state(b),
    ensures
        forall|id: int| entry_last(a, id) == entry_last(b, id),
        forall|id: int| entry_data(a, id) == entry_data(b, id),
{
}

/// Positions accepted for mutation are strictly increasing by one: if
/// an entry last recorded step `last_pos`, the only new step it
/// accepts is `last_pos + 1`.
pub proof fn lemma_steps_increase_by_one(last_pos: u64, new_pos: u64)
    requires
        accepts(Some(last_pos), new_pos),
        new_pos != last_pos,
    ensures
        new_pos == last_pos + 1,
{
}

/// Over a whole session: the mutating steps a fresh entry accepts, in
/// the order it accepts them, carry the position indices 0, 1, 2, ...
/// exactly — the cache's successor rule forces every session to step
/// through its generation in order, with no gap and no rewind.
#[verifier::rlimit(60)]
pub proof fn lemma_session_positions(positions: Seq<u64>)
    requires
        forall|i: int|
            0 <= i < positions.len() ==> accepts(
                if i == 0 {
                    None
                } else {
                    Some(positions[i - 1])
                },
                #[trigger] positions[i],
            ),
        forall|i: int| 0 < i < positions.len() ==> #[trigger] positions[i] != positions[i - 1],
    ensures
        forall|i: int| 0 <= i < positions.len() ==> #[trigger] positions[i] == i,
    decreases positions.len(),
{
    if positions.len() > 0 {
        let dl = positions.drop_last();
        assert forall|i: int| 0 <= i < dl.len() implies accepts(
            if i == 0 {
                None
            } else {
                Some(dl[i - 1])
            },
            #[trigger] dl[i],
        ) by {
            assert(dl[i] == positions[i]);
            if i > 0 {
                assert(dl[i - 1] == positions[i - 1]);
            }
        }
        assert forall|i: int| 0 < i < dl.len() implies #[trigger] dl[i] != dl[i - 1] by {
            assert(dl[i] == positions[i]);
            assert(dl[i - 1] == positions[i - 1]);
        }
        lemma_session_positions(dl);
        let n = positions.len() - 1;
        if n > 0 {
            assert(dl[n - 1] == positions[n - 1]);
            assert(positions[n - 1] == n - 1);
            lemma_steps_increase_by_one(positions[n - 1], positions[n]);
        }
        assert forall|i: int| 0 <= i < positions.len() implies #[trigger] positions[i] == i by {
            if i < n {
                assert(dl[i] == positions[i]);
            }
        }
    }
}

} // verus!
