//! The live tier's cache: a ring of slots addressed by `version mod n`, with a
//! byte budget that evicts from the oldest end.

use vstd::prelude::*;
use crate::ring::{
    latest_below, lemma_latest_below_agree, lemma_latest_below_range, lemma_latest_below_step,
    lemma_latest_below_unique,
};
use crate::transaction::{batch_size, lemma_batch_size_prefix, views, Transaction, TransactionView};

verus! {

/// Bytes that one slot accounts for.
pub open spec fn slot_size(slot: Option<Transaction>) -> nat {
    match slot {
        Some(t) => t.size(),
        None => 0,
    }
}

/// Bytes that all slots account for together.
pub open spec fn slots_size(slots: Seq<Option<Transaction>>) -> nat
    decreases slots.len(),
{
    if slots.len() == 0 {
        0
    } else {
        slots_size(slots.drop_last()) + slot_size(slots.last())
    }
}

/// Replacing one slot changes the total by the difference of the two sizes.
pub proof fn lemma_slots_size_update(
    slots: Seq<Option<Transaction>>,
    j: int,
    slot: Option<Transaction>,
)
    requires
        0 <= j < slots.len(),
    ensures
        slots_size(slots.update(j, slot)) + slot_size(slots[j]) == slots_size(slots) + slot_size(
            slot,
        ),
    decreases slots.len(),
{
    let updated = slots.update(j, slot);
    if j == slots.len() - 1 {
        assert(updated.drop_last() =~= slots.drop_last());
    } else {
        assert(updated.drop_last() =~= slots.drop_last().update(j, slot));
        lemma_slots_size_update(slots.drop_last(), j, slot);
    }
}

/// A ring with bytes in it has an occupied slot.
pub proof fn lemma_slots_size_positive(slots: Seq<Option<Transaction>>) -> (j: int)
    requires
        slots_size(slots) > 0,
    ensures
        0 <= j < slots.len(),
        slots[j] is Some,
    decreases slots.len(),
{
    if slot_size(slots.last()) > 0 {
        slots.len() - 1
    } else {
        lemma_slots_size_positive(slots.drop_last())
    }
}

/// A ring of empty slots holds no bytes.
pub proof fn lemma_slots_size_empty(slots: Seq<Option<Transaction>>)
    requires
        forall|j: int| 0 <= j < slots.len() ==> slots[j] is None,
    ensures
        slots_size(slots) == 0,
    decreases slots.len(),
{
    if slots.len() > 0 {
        lemma_slots_size_empty(slots.drop_last());
    }
}

/// The cache as a mathematical value: the window `[start_version,
/// end_version)`, the ring of slots, and the two byte marks.
pub struct LiveCacheState {
    pub start_version: int,
    pub end_version: int,
    pub slots: Seq<Option<Transaction>>,
    pub soft_limit: int,
    pub eviction_target: int,
}

impl LiveCacheState {
    pub open spec fn num_slots(self) -> int {
        self.slots.len() as int
    }

    /// Bytes held, all slots together.
    pub open spec fn total_size(self) -> nat {
        slots_size(self.slots)
    }

    /// What the cache holds for version `v`.
    pub open spec fn entry(self, v: int) -> Option<Transaction> {
        self.slots[v % self.num_slots()]
    }

    /// The version that slot `slot` stands for: the latest one below
    /// `end_version` that maps to it.
    pub open spec fn latest_at(self, slot: int) -> int {
        latest_below(self.end_version, slot, self.num_slots())
    }

    /// The window spans at most one turn of the ring, and a slot outside the
    /// window is empty.
    pub open spec fn valid(self) -> bool {
        &&& 0 < self.num_slots() <= usize::MAX
        &&& 0 <= self.start_version <= self.end_version <= u64::MAX
        &&& self.end_version - self.start_version <= self.num_slots()
        &&& 0 < self.eviction_target <= self.soft_limit <= usize::MAX
        &&& self.total_size() <= usize::MAX
        &&& forall|j: int|
            0 <= j < self.num_slots() && (#[trigger] self.slots[j]) is Some
                ==> self.start_version <= self.latest_at(j)
    }

    /// Every transaction sits at the version that it carries.
    pub open spec fn aligned(self) -> bool {
        forall|v: int|
            self.start_version <= v < self.end_version && (#[trigger] self.entry(v)) is Some
                ==> self.entry(v)->0.version == v
    }

    /// The cache after a batch that begins at `start` was written, before
    /// any eviction. Items older than the window are skipped; each remaining
    /// one goes to the slot of its version; the window grows to the end of
    /// the batch and slides so that it spans at most one turn of the ring.
    pub open spec fn install(self, start: int, txs: Seq<Transaction>) -> LiveCacheState {
        let n = self.num_slots();
        let batch_end = start + txs.len();
        let first = if start < self.start_version {
            self.start_version
        } else {
            start
        };
        let end_version = if batch_end > self.end_version {
            batch_end
        } else {
            self.end_version
        };
        let start_version = if self.start_version + n < end_version {
            end_version - n
        } else {
            self.start_version
        };
        LiveCacheState {
            start_version,
            end_version,
            slots: Seq::new(
                n as nat,
                |j: int|
                    {
                        let v = latest_below(end_version, j, n);
                        if first <= v < batch_end {
                            Some(txs[v - start])
                        } else {
                            self.slots[j]
                        }
                    },
            ),
            soft_limit: self.soft_limit,
            eviction_target: self.eviction_target,
        }
    }

    /// The cache with its oldest version given up.
    pub open spec fn evict_one(self) -> LiveCacheState {
        LiveCacheState {
            start_version: self.start_version + 1,
            end_version: self.end_version,
            slots: self.slots.update(self.start_version % self.num_slots(), None),
            soft_limit: self.soft_limit,
            eviction_target: self.eviction_target,
        }
    }

    /// The cache after versions were given up, oldest first, until fewer
    /// bytes than the eviction target are left.
    pub open spec fn evict(self) -> LiveCacheState
        decreases self.end_version - self.start_version,
    {
        if self.total_size() >= self.eviction_target && self.start_version < self.end_version {
            self.evict_one().evict()
        } else {
            self
        }
    }

    /// The cache after `update_data(start, txs)`: a batch that begins beyond
    /// the head, or that ends at or before the oldest version, is dropped;
    /// any other is installed, and eviction runs once the soft limit is
    /// reached.
    pub open spec fn ingest(self, start: int, txs: Seq<Transaction>) -> LiveCacheState {
        if start > self.end_version || start + txs.len() <= self.start_version {
            self
        } else {
            let installed = self.install(start, txs);
            if installed.total_size() >= installed.soft_limit {
                installed.evict()
            } else {
                installed
            }
        }
    }

    /// The batch that a read at `v` returns: consecutive versions from `v`
    /// while the version is below `end`, the budgets `max_txs` and
    /// `max_bytes` are not used up, and the slot is occupied. The
    /// transaction that uses up the byte budget is still part of the batch.
    pub open spec fn collect(self, v: int, end: int, max_txs: int, max_bytes: int) -> Seq<
        Transaction,
    >
        decreases end - v,
    {
        if v < end && 0 < max_txs && 0 < max_bytes && self.entry(v) is Some {
            let t = self.entry(v)->0;
            seq![t] + self.collect(v + 1, end, max_txs - 1, max_bytes - t.size())
        } else {
            Seq::empty()
        }
    }

    /// What `get_data` answers.
    pub open spec fn read(self, start: int, end: int, max_txs: int, max_bytes: int) -> ReadView {
        if start >= self.end_version {
            ReadView::AtHead
        } else if start < self.start_version {
            ReadView::TooOld
        } else if self.entry(start) is None {
            ReadView::Missing
        } else {
            let end = if end < self.end_version {
                end
            } else {
                self.end_version
            };
            ReadView::Data(views(self.collect(start, end, max_txs, max_bytes)))
        }
    }
}

/// After a batch is installed, a version inside the window holds the batch's
/// item for that version if the batch covers it, and what it held before
/// otherwise.
pub proof fn lemma_install_entry(state: LiveCacheState, start: int, txs: Seq<Transaction>, v: int)
    requires
        state.valid(),
        0 <= start <= state.end_version,
        state.start_version < start + txs.len(),
        state.install(start, txs).start_version <= v < state.install(start, txs).end_version,
    ensures
        state.install(start, txs).entry(v) == if start <= v < start + txs.len() && state.start_version
            <= v {
            Some(txs[v - start])
        } else {
            state.entry(v)
        },
        !(start <= v < start + txs.len()) ==> state.start_version <= v < state.end_version
            || state.entry(v) is None,
{
    let n = state.num_slots();
    let installed = state.install(start, txs);
    lemma_latest_below_unique(installed.end_version, v, n);
    let j = v % n;
    if !(start <= v < start + txs.len()) && state.slots[j] is Some {
        let u = latest_below(state.end_version, j, n);
        lemma_latest_below_range(state.end_version, j, n);
        if installed.end_version - n <= u {
            lemma_latest_below_agree(state.end_version, installed.end_version, j, n);
        } else {
            lemma_mod_distance(v, u, n);
        }
    }
}

/// Two different versions in the same slot lie at least one turn apart.
pub proof fn lemma_mod_distance(v: int, u: int, n: int)
    requires
        0 < n,
        u < v,
        v % n == u % n,
    ensures
        u + n <= v,
{
    if v < u + n {
        lemma_latest_below_unique(u + n, v, n);
        lemma_latest_below_unique(u + n, u, n);
    }
}

/// Installing a batch keeps the cache valid, as long as the versions and the
/// bytes stay within what the machine can count.
pub proof fn lemma_install_valid(state: LiveCacheState, start: int, txs: Seq<Transaction>)
    requires
        state.valid(),
        0 <= start <= state.end_version,
        state.start_version < start + txs.len() <= u64::MAX,
        state.install(start, txs).total_size() <= usize::MAX,
    ensures
        state.install(start, txs).valid(),
{
    let n = state.num_slots();
    let installed = state.install(start, txs);
    assert forall|j: int| 0 <= j < n && (#[trigger] installed.slots[j]) is Some implies
        installed.start_version <= installed.latest_at(j) by {
        let v = installed.latest_at(j);
        lemma_latest_below_range(installed.end_version, j, n);
        if installed.start_version == state.start_version && !(state.start_version <= v && start
            <= v < start + txs.len()) {
            lemma_latest_below_range(state.end_version, j, n);
            lemma_latest_below_agree(state.end_version, installed.end_version, j, n);
        }
    }
}

/// Giving up the oldest version keeps the cache valid and leaves every other
/// version of the window as it was.
pub proof fn lemma_evict_one(state: LiveCacheState)
    requires
        state.valid(),
        state.start_version < state.end_version,
    ensures
        state.evict_one().valid(),
        state.evict_one().total_size() + slot_size(state.entry(state.start_version))
            == state.total_size(),
        forall|v: int|
            state.start_version < v < state.end_version ==> #[trigger] state.evict_one().entry(v)
                == state.entry(v),
{
    let n = state.num_slots();
    let next = state.evict_one();
    lemma_latest_below_unique(state.end_version, state.start_version, n);
    lemma_slots_size_update(state.slots, state.start_version % n, None);
    assert forall|j: int| 0 <= j < n && (#[trigger] next.slots[j]) is Some implies
        next.start_version <= next.latest_at(j) by {
        lemma_latest_below_range(state.end_version, j, n);
        assert(state.slots[j] is Some);
    }
    assert forall|v: int| state.start_version < v < state.end_version implies #[trigger] next.entry(
        v,
    ) == state.entry(v) by {
        lemma_latest_below_unique(state.end_version, v, n);
    }
}

/// Eviction stops with fewer bytes than the eviction target. It only moves
/// the oldest version up, and every version that stays in the window keeps
/// what it held.
pub proof fn lemma_evict(state: LiveCacheState)
    requires
        state.valid(),
    ensures
        state.evict().valid(),
        state.evict().total_size() < state.eviction_target,
        state.evict().end_version == state.end_version,
        state.start_version <= state.evict().start_version,
        state.total_size() < state.eviction_target ==> state.evict() == state,
        forall|v: int|
            state.evict().start_version <= v < state.end_version ==> #[trigger] state.evict().entry(
                v,
            ) == state.entry(v),
    decreases state.end_version - state.start_version,
{
    if state.total_size() >= state.eviction_target {
        let j = lemma_slots_size_positive(state.slots);
        lemma_latest_below_range(state.end_version, j, state.num_slots());
        lemma_evict_one(state);
        lemma_evict(state.evict_one());
    }
}

/// Installing a batch adds no more bytes to the cache than the batch holds.
pub proof fn lemma_install_size(state: LiveCacheState, start: int, txs: Seq<Transaction>)
    requires
        state.valid(),
        0 <= start <= state.end_version,
    ensures
        state.install(start, txs).total_size() <= state.total_size() + batch_size(txs),
    decreases txs.len(),
{
    let n = state.num_slots();
    let first = if start < state.start_version {
        state.start_version
    } else {
        start
    };
    let after = state.install(start, txs);
    if txs.len() == 0 {
        assert(after.slots =~= state.slots);
    } else {
        let head = txs.drop_last();
        let last = txs.last();
        let end = start + txs.len();
        let before = state.install(start, head);
        lemma_install_size(state, start, head);
        if end - 1 < first {
            assert(after.slots =~= state.slots);
            assert(before.slots =~= state.slots);
        } else {
            lemma_latest_below_unique(end, end - 1, n);
            let slot = (end - 1) % n;
            assert forall|j: int| 0 <= j < n implies #[trigger] after.slots[j]
                == before.slots.update(slot, Some(last))[j] by {
                lemma_latest_below_range(after.end_version, j, n);
                lemma_latest_below_range(before.end_version, j, n);
                if end <= state.end_version {
                    if j == slot {
                        lemma_latest_below_unique(state.end_version, end - 1, n);
                    }
                } else {
                    lemma_latest_below_step(end - 1, j, n);
                }
            }
            assert(after.slots =~= before.slots.update(slot, Some(last)));
            lemma_slots_size_update(before.slots, slot, Some(last));
        }
    }
}

/// What `update_data` leaves behind is a valid cache again.
pub proof fn lemma_ingest_valid(state: LiveCacheState, start: int, txs: Seq<Transaction>)
    requires
        state.valid(),
        0 <= start,
        start + txs.len() <= u64::MAX,
        state.total_size() + batch_size(txs) <= usize::MAX,
    ensures
        state.ingest(start, txs).valid(),
{
    if !(start > state.end_version || start + txs.len() <= state.start_version) {
        lemma_install_size(state, start, txs);
        lemma_install_valid(state, start, txs);
        lemma_evict(state.install(start, txs));
    }
}

/// Contiguity of the cache: if every transaction sat at the version that it
/// carries, and the batch carries consecutive versions from `start` on, then
/// after `update_data(start, txs)` every version of the window is either
/// empty or holds the transaction of that very version.
pub proof fn lemma_ingest_aligned(state: LiveCacheState, start: int, txs: Seq<Transaction>)
    requires
        state.valid(),
        state.aligned(),
        0 <= start,
        start + txs.len() <= u64::MAX,
        state.total_size() + batch_size(txs) <= usize::MAX,
        crate::transaction::contiguous_from(txs, start),
    ensures
        state.ingest(start, txs).aligned(),
{
    if !(start > state.end_version || start + txs.len() <= state.start_version) {
        let installed = state.install(start, txs);
        lemma_install_size(state, start, txs);
        lemma_install_valid(state, start, txs);
        assert forall|v: int|
            installed.start_version <= v < installed.end_version && (#[trigger] installed.entry(
                v,
            )) is Some implies installed.entry(v)->0.version == v by {
            lemma_install_entry(state, start, txs, v);
        }
        lemma_evict(installed);
        let evicted = installed.evict();
        assert forall|v: int|
            evicted.start_version <= v < evicted.end_version && (#[trigger] evicted.entry(
                v,
            )) is Some implies evicted.entry(v)->0.version == v by {
            assert(evicted.entry(v) == installed.entry(v));
        }
    }
}

/// A read that returns data returns the transactions of consecutive versions
/// from the requested one on, as the cache holds them, within both budgets.
pub proof fn lemma_collect(state: LiveCacheState, v: int, end: int, max_txs: int, max_bytes: int)
    requires
        state.valid(),
    ensures
        state.collect(v, end, max_txs, max_bytes).len() <= if max_txs > 0 {
            max_txs
        } else {
            0
        },
        state.collect(v, end, max_txs, max_bytes).len() <= if end > v {
            end - v
        } else {
            0
        },
        forall|i: int|
            0 <= i < state.collect(v, end, max_txs, max_bytes).len() ==> state.entry(v + i)
                == Some(#[trigger] state.collect(v, end, max_txs, max_bytes)[i]),
        v < end && 0 < max_txs && 0 < max_bytes && state.entry(v) is Some ==> state.collect(
            v,
            end,
            max_txs,
            max_bytes,
        ).len() >= 1,
    decreases end - v,
{
    if v < end && 0 < max_txs && 0 < max_bytes && state.entry(v) is Some {
        let t = state.entry(v)->0;
        let rest = state.collect(v + 1, end, max_txs - 1, max_bytes - t.size());
        lemma_collect(state, v + 1, end, max_txs - 1, max_bytes - t.size());
        let all = state.collect(v, end, max_txs, max_bytes);
        assert(all == seq![t] + rest);
        assert forall|i: int| 0 <= i < all.len() implies state.entry(v + i) == Some(
            #[trigger] all[i],
        ) by {
            if i > 0 {
                assert(all[i] == rest[i - 1]);
                assert(state.entry(v + 1 + (i - 1)) == Some(rest[i - 1]));
            }
        }
    }
}

/// Strict ordering of what a read returns: out of an aligned cache, the
/// `i`-th transaction of a batch read at `v` carries version `v + i`.
pub proof fn lemma_collect_contiguous(
    state: LiveCacheState,
    v: int,
    end: int,
    max_txs: int,
    max_bytes: int,
)
    requires
        state.valid(),
        state.aligned(),
        state.start_version <= v,
        end <= state.end_version,
    ensures
        crate::transaction::contiguous_from(state.collect(v, end, max_txs, max_bytes), v),
{
    lemma_collect(state, v, end, max_txs, max_bytes);
    let all = state.collect(v, end, max_txs, max_bytes);
    assert forall|i: int| 0 <= i < all.len() implies (#[trigger] all[i]).version == v + i by {
        assert(state.entry(v + i) == Some(all[i]));
    }
}

/// Strict ordering of a read: out of a valid cache in which every transaction
/// sits at the version that it carries, a read at `start` that returns data
/// returns the versions `start`, `start + 1`, and so on, without gap or
/// repetition.
pub proof fn lemma_read_contiguous(
    state: LiveCacheState,
    start: int,
    end: int,
    max_txs: int,
    max_bytes: int,
)
    requires
        state.valid(),
        state.aligned(),
    ensures
        state.read(start, end, max_txs, max_bytes) matches ReadView::Data(batch) ==> forall|i: int|
            0 <= i < batch.len() ==> (#[trigger] batch[i]).version == start + i,
{
    if state.start_version <= start < state.end_version && state.entry(start) is Some {
        let upto = if end < state.end_version {
            end
        } else {
            state.end_version
        };
        lemma_collect_contiguous(state, start, upto, max_txs, max_bytes);
        let found = state.collect(start, upto, max_txs, max_bytes);
        assert forall|i: int| 0 <= i < views(found).len() implies (#[trigger] views(
            found,
        )[i]).version == start + i by {
            assert(found[i].version == start + i);
        }
    }
}

/// A read inside the window, at an occupied slot and below the end asked
/// for, with budgets of at least one, returns at least one transaction and
/// no more than the budget of transactions.
pub proof fn lemma_read_nonempty(
    state: LiveCacheState,
    start: int,
    end: int,
    max_txs: int,
    max_bytes: int,
)
    requires
        state.valid(),
        state.start_version <= start < state.end_version,
        start < end,
        state.entry(start) is Some,
        1 <= max_txs,
        1 <= max_bytes,
    ensures
        state.read(start, end, max_txs, max_bytes) matches ReadView::Data(batch) && 1
            <= batch.len() <= max_txs,
{
    let upto = if end < state.end_version {
        end
    } else {
        state.end_version
    };
    lemma_collect(state, start, upto, max_txs, max_bytes);
}

/// A reader at the head is unblocked by new data: a read at the head waits;
/// once a batch that is not empty has been taken in at the head, and the
/// version asked for has not been given up again, the same read returns
/// data, at least one transaction and no more than the budget, and what it
/// returns is the beginning of that batch.
pub proof fn lemma_head_read_after_ingest(
    state: LiveCacheState,
    txs: Seq<Transaction>,
    end: int,
    max_txs: int,
    max_bytes: int,
)
    requires
        state.valid(),
        txs.len() > 0,
        state.end_version + txs.len() <= u64::MAX,
        state.total_size() + batch_size(txs) <= usize::MAX,
        state.ingest(state.end_version, txs).start_version <= state.end_version,
        state.end_version < end,
        1 <= max_txs,
        1 <= max_bytes,
    ensures
        state.read(state.end_version, end, max_txs, max_bytes) == ReadView::AtHead,
        state.ingest(state.end_version, txs).read(state.end_version, end, max_txs, max_bytes)
            matches ReadView::Data(batch) && 1 <= batch.len() <= max_txs && batch.len()
            <= txs.len() && forall|i: int|
            0 <= i < batch.len() ==> #[trigger] batch[i] == txs[i]@,
{
    let start = state.end_version;
    let installed = state.install(start, txs);
    let after = state.ingest(start, txs);
    lemma_install_size(state, start, txs);
    lemma_install_valid(state, start, txs);
    lemma_evict(installed);
    assert(after.end_version == start + txs.len());
    assert forall|v: int| start <= v < after.end_version implies #[trigger] after.entry(v)
        == Some(txs[v - start]) by {
        lemma_install_entry(state, start, txs, v);
        assert(installed.entry(v) == Some(txs[v - start]));
        if after != installed {
            assert(after.entry(v) == installed.entry(v));
        }
    }
    let upto = if end < after.end_version {
        end
    } else {
        after.end_version
    };
    lemma_read_nonempty(after, start, end, max_txs, max_bytes);
    lemma_collect(after, start, upto, max_txs, max_bytes);
    let found = after.collect(start, upto, max_txs, max_bytes);
    assert forall|i: int| 0 <= i < views(found).len() implies #[trigger] views(found)[i]
        == txs[i]@ by {
        assert(after.entry(start + i) == Some(found[i]));
    }
}

/// The answer to a read of the cache.
pub enum CacheRead {
    /// The requested version is at or beyond the head: wait for the tail
    /// fetch and ask again.
    AtHead,
    /// The requested version is older than the window.
    TooOld,
    /// The version is inside the window but its slot is empty: fetch it from
    /// the manager and ask again.
    Missing,
    /// Copies of the transactions from the requested version on.
    Data(Vec<Transaction>),
}

/// `CacheRead` as a mathematical value.
pub enum ReadView {
    AtHead,
    TooOld,
    Missing,
    Data(Seq<TransactionView>),
}

impl View for CacheRead {
    type V = ReadView;

    open spec fn view(&self) -> ReadView {
        match self {
            CacheRead::AtHead => ReadView::AtHead,
            CacheRead::TooOld => ReadView::TooOld,
            CacheRead::Missing => ReadView::Missing,
            CacheRead::Data(txs) => ReadView::Data(views(txs@)),
        }
    }
}

/// The ring-buffer cache of the live tier.
pub struct DataManager {
    start_version: u64,
    end_version: u64,
    data: Vec<Option<Transaction>>,
    soft_limit_for_eviction: usize,
    eviction_target: usize,
    total_size: usize,
    num_slots: usize,
}

impl View for DataManager {
    type V = LiveCacheState;

    closed spec fn view(&self) -> LiveCacheState {
        LiveCacheState {
            start_version: self.start_version as int,
            end_version: self.end_version as int,
            slots: self.data@,
            soft_limit: self.soft_limit_for_eviction as int,
            eviction_target: self.eviction_target as int,
        }
    }
}

impl DataManager {
    /// The representation is sound: the cache is valid, and the byte counter
    /// agrees with the slots.
    pub closed spec fn wf(&self) -> bool {
        &&& self@.valid()
        &&& self.num_slots == self.data@.len()
        &&& self.total_size == slots_size(self.data@)
    }

    /// A well-formed cache is a valid one.
    pub proof fn lemma_wf_valid(&self)
        requires
            self.wf(),
        ensures
            self@.valid(),
    {
    }

    /// An empty cache whose head is `end_version`, with both byte marks at
    /// `size_limit_bytes`.
    pub fn new(end_version: u64, num_slots: usize, size_limit_bytes: usize) -> (cache: DataManager)
        requires
            0 < num_slots,
            0 < size_limit_bytes,
        ensures
            cache.wf(),
            cache@.end_version == end_version,
            cache@.start_version == if end_version >= num_slots {
                end_version - num_slots
            } else {
                0
            },
            cache@.slots == Seq::new(num_slots as nat, |j: int| None::<Transaction>),
            cache@.soft_limit == size_limit_bytes,
            cache@.eviction_target == size_limit_bytes,
            cache@.aligned(),
    {
        DataManager::with_eviction_target(
            end_version,
            num_slots,
            size_limit_bytes,
            size_limit_bytes,
        )
    }

    /// An empty cache whose head is `end_version`: eviction starts once
    /// `soft_limit` bytes are held and goes on until fewer than
    /// `eviction_target` are left.
    pub fn with_eviction_target(
        end_version: u64,
        num_slots: usize,
        soft_limit: usize,
        eviction_target: usize,
    ) -> (cache: DataManager)
        requires
            0 < num_slots,
            0 < eviction_target <= soft_limit,
        ensures
            cache.wf(),
            cache@.end_version == end_version,
            cache@.start_version == if end_version >= num_slots {
                end_version - num_slots
            } else {
                0
            },
            cache@.slots == Seq::new(num_slots as nat, |j: int| None::<Transaction>),
            cache@.soft_limit == soft_limit,
            cache@.eviction_target == eviction_target,
            cache@.aligned(),
    {
        let mut data: Vec<Option<Transaction>> = Vec::new();
        let mut i: usize = 0;
        while i < num_slots
            invariant
                i <= num_slots,
                data@ =~= Seq::new(i as nat, |j: int| None::<Transaction>),
            decreases num_slots - i,
        {
            data.push(None);
            i += 1;
        }
        let slots = num_slots as u64;
        let start_version = if end_version >= slots {
            end_version - slots
        } else {
            0
        };
        proof {
            lemma_slots_size_empty(data@);
            let empty = LiveCacheState {
                start_version: start_version as int,
                end_version: end_version as int,
                slots: data@,
                soft_limit: soft_limit as int,
                eviction_target: eviction_target as int,
            };
            assert forall|v: int|
                empty.start_version <= v < empty.end_version && (#[trigger] empty.entry(
                    v,
                )) is Some implies empty.entry(v)->0.version == v by {
                lemma_latest_below_unique(v + 1, v, num_slots as int);
            }
        }
        DataManager {
            start_version,
            end_version,
            data,
            soft_limit_for_eviction: soft_limit,
            eviction_target,
            total_size: 0,
            num_slots,
        }
    }

    /// Takes in a batch whose first item is version `start_version`.
    ///
    /// A batch that begins beyond the head, or that lies wholly before the
    /// window, is dropped. Of any other batch the items older than the window
    /// are skipped and each remaining one replaces what its slot held. The
    /// head moves to the end of the batch if that is further, and the oldest
    /// version follows where the window would span more than the ring. Once
    /// the soft limit is reached, versions are given up oldest first until
    /// fewer bytes than the eviction target are held.
    pub fn update_data(&mut self, start_version: u64, transactions: Vec<Transaction>)
        requires
            old(self).wf(),
            start_version + transactions@.len() <= u64::MAX,
            old(self)@.total_size() + batch_size(transactions@) <= usize::MAX,
        ensures
            final(self).wf(),
            final(self)@ == old(self)@.ingest(start_version as int, transactions@),
            old(self)@.aligned() && crate::transaction::contiguous_from(
                transactions@,
                start_version as int,
            ) ==> final(self)@.aligned(),
    {
        let len = transactions.len();
        let batch_end = start_version + len as u64;
        if start_version > self.end_version {
            return ;
        }
        if batch_end <= self.start_version {
            return ;
        }
        let first = if start_version < self.start_version {
            self.start_version
        } else {
            start_version
        };
        let ghost pre = self@;
        let ghost txs = transactions@;
        let ghost n = self.num_slots as int;
        let slots = self.num_slots as u64;
        let mut version = start_version;
        proof {
            assert forall|j: int| 0 <= j < n implies latest_below(version as int, j, n)
                < first by {
                lemma_latest_below_range(version as int, j, n);
            }
            assert(txs.take(0) =~= Seq::<Transaction>::empty());
        }
        for tx in it: transactions
            invariant
                it.seq() == txs,
                version == start_version + it.index(),
                n == self.num_slots,
                slots == n,
                0 < n,
                txs.len() == len,
                batch_end == start_version + len,
                batch_end <= u64::MAX,
                start_version <= first,
                self.data@.len() == n,
                self.total_size == slots_size(self.data@),
                self.total_size <= pre.total_size() + batch_size(txs.take(it.index())),
                pre.total_size() + batch_size(txs) <= usize::MAX,
                self.start_version == pre.start_version,
                self.end_version == pre.end_version,
                self.soft_limit_for_eviction == pre.soft_limit,
                self.eviction_target == pre.eviction_target,
                pre.slots.len() == n,
                forall|j: int|
                    0 <= j < n ==> #[trigger] self.data@[j] == if first <= latest_below(
                        version as int,
                        j,
                        n,
                    ) {
                        Some(txs[latest_below(version as int, j, n) - start_version])
                    } else {
                        pre.slots[j]
                    },
        {
            let ghost i = it.index();
            let ghost before = self.data@;
            proof {
                lemma_batch_size_prefix(txs, i);
                assert forall|j: int| 0 <= j < n implies latest_below(version + 1, j, n) == if j
                    == version as int % n {
                    version as int
                } else {
                    latest_below(version as int, j, n)
                } by {
                    lemma_latest_below_step(version as int, j, n);
                }
                assert forall|j: int| 0 <= j < n implies latest_below(version as int, j, n)
                    < version by {
                    lemma_latest_below_range(version as int, j, n);
                }
            }
            if version >= first {
                let slot = (version % slots) as usize;
                let size = tx.encoded_len();
                let old_size = match &self.data[slot] {
                    Some(t) => t.encoded_len(),
                    None => 0,
                };
                proof {
                    lemma_slots_size_update(self.data@, slot as int, Some(tx));
                    lemma_slots_size_update(self.data@, slot as int, None);
                }
                self.total_size = self.total_size - old_size + size;
                self.data.set(slot, Some(tx));
            }
            version = version + 1;
            proof {
                assert forall|j: int| 0 <= j < n implies #[trigger] self.data@[j] == if first
                    <= latest_below(version as int, j, n) {
                    Some(txs[latest_below(version as int, j, n) - start_version])
                } else {
                    pre.slots[j]
                } by {
                    assert(before[j] == if first <= latest_below(version - 1, j, n) {
                        Some(txs[latest_below(version - 1, j, n) - start_version])
                    } else {
                        pre.slots[j]
                    });
                }
            }
        }
        assert(version == batch_end);
        if batch_end > self.end_version {
            self.end_version = batch_end;
            if batch_end - self.start_version > slots {
                self.start_version = batch_end - slots;
            }
        }
        proof {
            let installed = pre.install(start_version as int, txs);
            assert(txs.take(len as int) =~= txs);
            assert forall|j: int| 0 <= j < n implies self.data@[j] == installed.slots[j] by {
                let u = latest_below(batch_end as int, j, n);
                let v = latest_below(self.end_version as int, j, n);
                lemma_latest_below_range(batch_end as int, j, n);
                lemma_latest_below_range(self.end_version as int, j, n);
                if batch_end < self.end_version {
                    if first <= u {
                        lemma_latest_below_agree(batch_end as int, self.end_version as int, j, n);
                    }
                    if first <= v < batch_end {
                        lemma_latest_below_agree(self.end_version as int, batch_end as int, j, n);
                    }
                }
            }
            assert(self.data@ =~= installed.slots);
            assert(self@ == installed);
            assert forall|j: int| 0 <= j < n && (#[trigger] self.data@[j]) is Some implies
                self.start_version <= latest_below(self.end_version as int, j, n) by {
                let v = latest_below(self.end_version as int, j, n);
                lemma_latest_below_range(self.end_version as int, j, n);
                if self.start_version == pre.start_version && !(first <= v < batch_end) {
                    assert(pre.slots[j] is Some);
                    lemma_latest_below_range(pre.end_version, j, n);
                    lemma_latest_below_agree(pre.end_version, self.end_version as int, j, n);
                }
            }
        }
        if self.total_size >= self.soft_limit_for_eviction {
            let ghost installed = self@;
            while self.total_size >= self.eviction_target
                invariant
                    self.wf(),
                    self@.evict() == installed.evict(),
                decreases self.end_version - self.start_version,
            {
                let ghost m = self.num_slots as int;
                proof {
                    let j = lemma_slots_size_positive(self.data@);
                    lemma_latest_below_range(self.end_version as int, j, m);
                }
                let ghost current = self@;
                let slot = (self.start_version % (self.num_slots as u64)) as usize;
                let size = match &self.data[slot] {
                    Some(t) => t.encoded_len(),
                    None => 0,
                };
                proof {
                    lemma_slots_size_update(self.data@, slot as int, None);
                }
                self.data.set(slot, None);
                self.total_size = self.total_size - size;
                self.start_version = self.start_version + 1;
                proof {
                    assert(self@ == current.evict_one());
                    assert forall|j: int| 0 <= j < m && (#[trigger] self.data@[j]) is Some implies
                        self.start_version <= latest_below(self.end_version as int, j, m) by {
                        lemma_latest_below_range(self.end_version as int, j, m);
                        assert(current.slots[j] is Some);
                    }
                }
            }
        }
        proof {
            if pre.aligned() && crate::transaction::contiguous_from(txs, start_version as int) {
                lemma_ingest_aligned(pre, start_version as int, txs);
            }
        }
    }

    /// Reads a batch that begins at `starting_version`.
    ///
    /// At or beyond the head the caller has to wait for new data; below the
    /// window the data is gone; on an empty slot inside the window the data
    /// has to be fetched again. Otherwise the answer holds copies of the
    /// transactions from `starting_version` on, up to the first of:
    /// `ending_version`, the head, an empty slot, `max_num_transactions`
    /// items, or the item with which the byte count reaches `max_bytes`.
    pub fn get_data(
        &self,
        starting_version: u64,
        ending_version: u64,
        max_num_transactions: usize,
        max_bytes: usize,
    ) -> (r: CacheRead)
        requires
            self.wf(),
        ensures
            r@ == self@.read(
                starting_version as int,
                ending_version as int,
                max_num_transactions as int,
                max_bytes as int,
            ),
    {
        if starting_version >= self.end_version {
            return CacheRead::AtHead;
        }
        if starting_version < self.start_version {
            return CacheRead::TooOld;
        }
        let slots = self.num_slots as u64;
        let start_index = (starting_version % slots) as usize;
        if self.data[start_index].is_none() {
            return CacheRead::Missing;
        }
        let end = if ending_version < self.end_version {
            ending_version
        } else {
            self.end_version
        };
        let ghost state = self@;
        let ghost whole = state.collect(
            starting_version as int,
            end as int,
            max_num_transactions as int,
            max_bytes as int,
        );
        let mut result: Vec<Transaction> = Vec::new();
        let mut version = starting_version;
        let mut bytes_left = max_bytes;
        let mut stop = false;
        let ghost mut budget: int = max_bytes as int;
        proof {
            assert(views(result@) =~= Seq::<TransactionView>::empty());
        }
        while !stop && version < end && bytes_left > 0 && result.len() < max_num_transactions
            invariant
                self.wf(),
                state == self@,
                slots == self.num_slots,
                end <= self.end_version,
                result@.len() <= max_num_transactions,
                bytes_left == if budget > 0 {
                    budget
                } else {
                    0
                },
                views(whole) == views(result@) + views(
                    if stop {
                        Seq::<Transaction>::empty()
                    } else {
                        state.collect(
                            version as int,
                            end as int,
                            max_num_transactions - result@.len(),
                            budget,
                        )
                    },
                ),
            decreases
                    end - version + if stop {
                        0int
                    } else {
                        1int
                    },
        {
            let ghost rest = state.collect(
                version as int,
                end as int,
                max_num_transactions - result@.len(),
                budget,
            );
            let ghost before = result@;
            let index = (version % slots) as usize;
            match &self.data[index] {
                Some(transaction) => {
                    let size = transaction.encoded_len();
                    let copy = transaction.duplicate();
                    result.push(copy);
                    bytes_left = if size >= bytes_left {
                        0
                    } else {
                        bytes_left - size
                    };
                    version = version + 1;
                    proof {
                        budget = budget - size;
                        let tail = state.collect(
                            version as int,
                            end as int,
                            max_num_transactions - result@.len(),
                            budget,
                        );
                        assert(rest == seq![*transaction] + tail);
                        assert(views(rest) =~= seq![transaction@] + views(tail));
                        assert(views(result@) =~= views(before) + seq![transaction@]);
                        assert(views(whole) =~= views(result@) + views(tail));
                    }
                },
                None => {
                    stop = true;
                    proof {
                        assert(rest =~= Seq::<Transaction>::empty());
                        assert(views(whole) =~= views(result@) + views(
                            Seq::<Transaction>::empty(),
                        ));
                    }
                },
            }
        }
        proof {
            let rest = if stop {
                Seq::<Transaction>::empty()
            } else {
                state.collect(
                    version as int,
                    end as int,
                    max_num_transactions - result@.len(),
                    budget,
                )
            };
            assert(rest =~= Seq::<Transaction>::empty());
            assert(views(whole) =~= views(result@));
        }
        CacheRead::Data(result)
    }

    /// The oldest version that the cache may still hold.
    pub fn start_version(&self) -> (v: u64)
        ensures
            v == self@.start_version,
    {
        self.start_version
    }

    /// The head: the version after the newest one held.
    pub fn end_version(&self) -> (v: u64)
        ensures
            v == self@.end_version,
    {
        self.end_version
    }

    /// Bytes held.
    pub fn total_size(&self) -> (n: usize)
        requires
            self.wf(),
        ensures
            n == self@.total_size(),
    {
        self.total_size
    }

    /// Number of slots of the ring.
    pub fn num_slots(&self) -> (n: usize)
        requires
            self.wf(),
        ensures
            n == self@.num_slots(),
    {
        self.num_slots
    }
}

} // verus!
