//! The manager tier's cache: a first-in first-out window of transactions that
//! grows at the head as the upstream delivers and shrinks at the tail once
//! the file store has taken what is there.

use std::collections::VecDeque;
use vstd::prelude::*;
use crate::transaction::{
    batch_size, contiguous_from, lemma_batch_size_concat, lemma_batch_size_first, views,
    Transaction, TransactionView,
};

verus! {

/// Above this many bytes the cache has to evict: 10 GiB.
pub const MAX_CACHE_SIZE: u64 = 10_737_418_240;

/// Eviction goes on until this many bytes or fewer are left: 8 GiB.
pub const TARGET_CACHE_SIZE: u64 = 8_589_934_592;

/// The transactions of `txs`, in order, up to and including the first one
/// with which the byte count exceeds `budget`.
pub open spec fn take_through(txs: Seq<Transaction>, budget: int) -> Seq<Transaction>
    decreases txs.len(),
{
    if txs.len() == 0 {
        Seq::empty()
    } else if txs[0].size() > budget {
        seq![txs[0]]
    } else {
        seq![txs[0]] + take_through(txs.drop_first(), budget - txs[0].size())
    }
}

/// The manager cache as a mathematical value: the transactions held, the
/// version of the first of them, and the uploader's cursor.
pub struct ManagerCacheState {
    pub start_version: int,
    pub file_store_version: int,
    pub transactions: Seq<Transaction>,
    pub max_size: int,
    pub target_size: int,
}

impl ManagerCacheState {
    /// Bytes held.
    pub open spec fn cache_size(self) -> nat {
        batch_size(self.transactions)
    }

    /// The version after the newest one held.
    pub open spec fn end_version(self) -> int {
        self.start_version + self.transactions.len()
    }

    /// The oldest version held is never beyond the uploader's cursor, and
    /// every count fits its machine type.
    pub open spec fn valid(self) -> bool {
        &&& 0 <= self.start_version <= self.file_store_version <= u64::MAX
        &&& self.end_version() <= u64::MAX
        &&& self.cache_size() <= usize::MAX
        &&& 0 <= self.max_size <= u64::MAX
        &&& 0 <= self.target_size <= u64::MAX
    }

    /// The uploader's cursor has not run ahead of what the cache holds.
    pub open spec fn cursor_in_window(self) -> bool {
        self.file_store_version <= self.end_version()
    }

    /// The `i`-th transaction held carries version `start_version + i`.
    pub open spec fn contiguous(self) -> bool {
        contiguous_from(self.transactions, self.start_version)
    }

    /// The cache without its oldest transaction.
    pub open spec fn evict_one(self) -> ManagerCacheState {
        ManagerCacheState {
            start_version: self.start_version + 1,
            transactions: self.transactions.drop_first(),
            ..self
        }
    }

    /// The cache after transactions were given up, oldest first, while the
    /// oldest is below the uploader's cursor and more bytes than the target
    /// are held.
    pub open spec fn evict(self) -> ManagerCacheState
        decreases self.transactions.len(),
    {
        if self.start_version < self.file_store_version && self.cache_size() > self.target_size
            && self.transactions.len() > 0 {
            self.evict_one().evict()
        } else {
            self
        }
    }

    /// The cache after `maybe_evict`: untouched while it holds no more than
    /// the maximum, evicted otherwise.
    pub open spec fn maybe_evict(self) -> ManagerCacheState {
        if self.cache_size() <= self.max_size {
            self
        } else {
            self.evict()
        }
    }

    /// The cache with `txs` appended.
    pub open spec fn put(self, txs: Seq<Transaction>) -> ManagerCacheState {
        ManagerCacheState { transactions: self.transactions + txs, ..self }
    }

    /// What a read at `start_version` with a budget of `max_size_bytes`
    /// returns: nothing below the oldest version or beyond the newest;
    /// otherwise the transactions from `start_version` on, through the one
    /// with which the byte count exceeds the budget.
    pub open spec fn select(self, start_version: int, max_size_bytes: int) -> Seq<Transaction> {
        if start_version < self.start_version || start_version >= self.end_version() {
            Seq::empty()
        } else {
            take_through(
                self.transactions.skip(start_version - self.start_version),
                max_size_bytes,
            )
        }
    }

    /// The cache with the uploader's cursor moved on by `count` versions.
    pub open spec fn advance(self, count: int) -> ManagerCacheState {
        ManagerCacheState { file_store_version: self.file_store_version + count, ..self }
    }
}

/// A read never returns more than the cache holds from the requested version
/// on, and returns at least one transaction when there is one.
pub proof fn lemma_take_through(txs: Seq<Transaction>, budget: int)
    ensures
        take_through(txs, budget).len() <= txs.len(),
        txs.len() > 0 ==> take_through(txs, budget).len() >= 1,
        forall|i: int|
            0 <= i < take_through(txs, budget).len() ==> #[trigger] take_through(txs, budget)[i]
                == txs[i],
    decreases txs.len(),
{
    if txs.len() > 0 && txs[0].size() <= budget {
        lemma_take_through(txs.drop_first(), budget - txs[0].size());
    }
}

/// The eviction floor: eviction never moves the oldest version beyond the
/// uploader's cursor. It gives up a prefix of what is held and nothing else:
/// the head stays, and so does every transaction from the new oldest version
/// on.
pub proof fn lemma_evict_floor(state: ManagerCacheState)
    requires
        state.valid(),
    ensures
        state.evict().valid(),
        state.start_version <= state.evict().start_version <= state.file_store_version,
        state.evict().file_store_version == state.file_store_version,
        state.evict().end_version() == state.end_version(),
        state.evict().transactions == state.transactions.skip(
            state.evict().start_version - state.start_version,
        ),
        state.evict().cache_size() <= state.cache_size(),
        state.evict().cache_size() <= state.target_size || state.evict().start_version
            == state.file_store_version || state.evict().transactions.len() == 0,
        state.contiguous() ==> state.evict().contiguous(),
    decreases state.transactions.len(),
{
    if state.start_version < state.file_store_version && state.cache_size() > state.target_size
        && state.transactions.len() > 0 {
        let next = state.evict_one();
        lemma_batch_size_first(state.transactions);
        lemma_evict_floor(next);
        let k = next.evict().start_version - next.start_version;
        assert(state.transactions.drop_first().skip(k) =~= state.transactions.skip(k + 1));
        if state.contiguous() {
            assert forall|i: int| 0 <= i < next.transactions.len() implies (
            #[trigger] next.transactions[i]).version == next.start_version + i by {
                assert(next.transactions[i] == state.transactions[i + 1]);
            }
        }
    } else {
        assert(state.transactions.skip(0) =~= state.transactions);
    }
}

/// The eviction floor, for `maybe_evict` as a whole: whatever it does, the
/// oldest version stays at or below the uploader's cursor.
pub proof fn lemma_maybe_evict_floor(state: ManagerCacheState)
    requires
        state.valid(),
    ensures
        state.maybe_evict().valid(),
        state.start_version <= state.maybe_evict().start_version <= state.file_store_version,
        state.maybe_evict().file_store_version == state.file_store_version,
        state.maybe_evict().end_version() == state.end_version(),
        state.cursor_in_window() ==> state.maybe_evict().cursor_in_window(),
        state.contiguous() ==> state.maybe_evict().contiguous(),
{
    lemma_evict_floor(state);
}

/// Appending a batch that carries on where the cache ends keeps the cache
/// contiguous.
pub proof fn lemma_put_contiguous(state: ManagerCacheState, txs: Seq<Transaction>)
    requires
        state.contiguous(),
        contiguous_from(txs, state.end_version()),
    ensures
        state.put(txs).contiguous(),
{
    let after = state.put(txs);
    assert forall|i: int| 0 <= i < after.transactions.len() implies (
    #[trigger] after.transactions[i]).version == after.start_version + i by {
        if i >= state.transactions.len() {
            assert(after.transactions[i] == txs[i - state.transactions.len()]);
        } else {
            assert(after.transactions[i] == state.transactions[i]);
        }
    }
}

/// A reader that asks from the uploader's cursor on, or from beyond it, and
/// moves the cursor by what it got, leaves the cursor inside the window. What
/// it got carries consecutive versions if the cache is contiguous.
pub proof fn lemma_select_cursor(state: ManagerCacheState, start_version: int, max_size_bytes: int)
    requires
        state.valid(),
        state.cursor_in_window(),
        state.file_store_version <= start_version,
    ensures
        state.advance(
            state.select(start_version, max_size_bytes).len() as int,
        ).cursor_in_window(),
        state.advance(state.select(start_version, max_size_bytes).len() as int).valid(),
        state.contiguous() ==> contiguous_from(
            state.select(start_version, max_size_bytes),
            start_version,
        ),
{
    let got = state.select(start_version, max_size_bytes);
    if start_version < state.end_version() {
        let from = state.transactions.skip(start_version - state.start_version);
        lemma_take_through(from, max_size_bytes);
        if state.contiguous() {
            assert forall|i: int| 0 <= i < got.len() implies (#[trigger] got[i]).version
                == start_version + i by {
                assert(got[i] == from[i]);
                assert(from[i] == state.transactions[start_version - state.start_version + i]);
            }
        }
    }
}

/// The manager tier's in-memory window.
pub struct Cache {
    start_version: u64,
    file_store_version: u64,
    transactions: VecDeque<Transaction>,
    cache_size: usize,
    max_cache_size: u64,
    target_cache_size: u64,
}

impl View for Cache {
    type V = ManagerCacheState;

    closed spec fn view(&self) -> ManagerCacheState {
        ManagerCacheState {
            start_version: self.start_version as int,
            file_store_version: self.file_store_version as int,
            transactions: self.transactions@,
            max_size: self.max_cache_size as int,
            target_size: self.target_cache_size as int,
        }
    }
}

impl Cache {
    /// The representation is sound: the cache is valid, and the byte counter
    /// agrees with the transactions held.
    pub closed spec fn wf(&self) -> bool {
        &&& self@.valid()
        &&& self.cache_size == batch_size(self.transactions@)
    }

    /// A well-formed cache is a valid one.
    pub proof fn lemma_wf_valid(&self)
        requires
            self.wf(),
        ensures
            self@.valid(),
    {
    }

    /// The empty cache that begins at `file_store_version`, with the default
    /// watermarks.
    pub open spec fn new_state(file_store_version: u64) -> ManagerCacheState {
        ManagerCacheState {
            start_version: file_store_version as int,
            file_store_version: file_store_version as int,
            transactions: Seq::empty(),
            max_size: MAX_CACHE_SIZE as int,
            target_size: TARGET_CACHE_SIZE as int,
        }
    }

    /// An empty cache that begins at the uploader's cursor, with the default
    /// watermarks.
    pub fn new(file_store_version: u64) -> (cache: Cache)
        ensures
            cache.wf(),
            cache@ == Cache::new_state(file_store_version),
    {
        Cache::with_watermarks(file_store_version, MAX_CACHE_SIZE, TARGET_CACHE_SIZE)
    }

    /// An empty cache that begins at the uploader's cursor and evicts above
    /// `max_cache_size` bytes, down to `target_cache_size`.
    pub fn with_watermarks(
        file_store_version: u64,
        max_cache_size: u64,
        target_cache_size: u64,
    ) -> (cache: Cache)
        ensures
            cache.wf(),
            cache@ == (ManagerCacheState {
                start_version: file_store_version as int,
                file_store_version: file_store_version as int,
                transactions: Seq::empty(),
                max_size: max_cache_size as int,
                target_size: target_cache_size as int,
            }),
    {
        Cache {
            start_version: file_store_version,
            file_store_version,
            transactions: VecDeque::new(),
            cache_size: 0,
            max_cache_size,
            target_cache_size,
        }
    }

    /// The oldest version held.
    pub fn start_version(&self) -> (v: u64)
        ensures
            v == self@.start_version,
    {
        self.start_version
    }

    /// The version after the newest one held.
    pub fn end_version(&self) -> (v: u64)
        requires
            self.wf(),
        ensures
            v == self@.end_version(),
    {
        self.start_version + self.transactions.len() as u64
    }

    /// The lowest version that the file store has not taken yet.
    pub fn file_store_version(&self) -> (v: u64)
        ensures
            v == self@.file_store_version,
    {
        self.file_store_version
    }

    /// Bytes held.
    pub fn cache_size(&self) -> (n: usize)
        requires
            self.wf(),
        ensures
            n == self@.cache_size(),
    {
        self.cache_size
    }

    /// Makes room if the cache holds more than the maximum: gives up
    /// transactions, oldest first, while the oldest is below the uploader's
    /// cursor and more bytes than the target are held. Answers whether the
    /// cache now holds no more than the maximum; if not, the uploader is
    /// behind and the caller has to wait.
    pub fn maybe_evict(&mut self) -> (ok: bool)
        requires
            old(self).wf(),
        ensures
            final(self).wf(),
            final(self)@ == old(self)@.maybe_evict(),
            ok == (final(self)@.cache_size() <= final(self)@.max_size),
    {
        if self.cache_size as u64 <= self.max_cache_size {
            return true;
        }
        let ghost pre = self@;
        while self.start_version < self.file_store_version && self.cache_size as u64
            > self.target_cache_size
            invariant
                self.wf(),
                self@.evict() == pre.evict(),
            decreases self.transactions@.len(),
        {
            let ghost current = self@;
            proof {
                if self.transactions@.len() > 0 {
                    lemma_batch_size_first(self.transactions@);
                }
            }
            match self.transactions.pop_front() {
                Some(transaction) => {
                    self.cache_size = self.cache_size - transaction.encoded_len();
                    self.start_version = self.start_version + 1;
                    proof {
                        assert(self.transactions@ =~= current.transactions.drop_first());
                        assert(self@ == current.evict_one());
                    }
                },
                None => {
                    assert(false);
                },
            }
        }
        self.cache_size as u64 <= self.max_cache_size
    }

    /// Appends a batch as it came from upstream. The versions that the
    /// transactions carry are not looked at.
    pub fn put_transactions(&mut self, transactions: Vec<Transaction>)
        requires
            old(self).wf(),
            old(self)@.end_version() + transactions@.len() <= u64::MAX,
            old(self)@.cache_size() + batch_size(transactions@) <= usize::MAX,
        ensures
            final(self).wf(),
            final(self)@ == old(self)@.put(transactions@),
    {
        let ghost pre = self@;
        let ghost txs = transactions@;
        proof {
            assert(txs.take(0) =~= Seq::<Transaction>::empty());
            assert(pre.transactions + txs.take(0) =~= pre.transactions);
        }
        for transaction in it: transactions
            invariant
                it.seq() == txs,
                self.start_version == pre.start_version,
                self.file_store_version == pre.file_store_version,
                self.max_cache_size == pre.max_size,
                self.target_cache_size == pre.target_size,
                pre.valid(),
                pre.end_version() + txs.len() <= u64::MAX,
                pre.cache_size() + batch_size(txs) <= usize::MAX,
                self.transactions@ == pre.transactions + txs.take(it.index()),
                self.cache_size == pre.cache_size() + batch_size(txs.take(it.index())),
        {
            let ghost i = it.index();
            proof {
                crate::transaction::lemma_batch_size_prefix(txs, i);
                assert(txs.take(i + 1) =~= txs.take(i).push(txs[i]));
                assert(pre.transactions + txs.take(i + 1) =~= (pre.transactions + txs.take(
                    i,
                )).push(txs[i]));
            }
            self.cache_size = self.cache_size + transaction.encoded_len();
            self.transactions.push_back(transaction);
        }
        proof {
            assert(txs.take(txs.len() as int) =~= txs);
            lemma_batch_size_concat(pre.transactions, txs);
        }
    }

    /// Reads from `start_version` on: copies of the transactions held from
    /// there, through the one with which the byte count exceeds
    /// `max_size_bytes`. Nothing is returned for a version below the oldest
    /// or beyond the newest. With `update_file_store_version` the uploader's
    /// cursor moves on by the number of transactions returned.
    pub fn get_transactions(
        &mut self,
        start_version: u64,
        max_size_bytes: usize,
        update_file_store_version: bool,
    ) -> (r: Vec<Transaction>)
        requires
            old(self).wf(),
            update_file_store_version ==> old(self)@.file_store_version + old(self)@.select(
                start_version as int,
                max_size_bytes as int,
            ).len() <= u64::MAX,
        ensures
            final(self).wf(),
            views(r@) == views(old(self)@.select(start_version as int, max_size_bytes as int)),
            final(self)@ == old(self)@.advance(
                if update_file_store_version {
                    r@.len() as int
                } else {
                    0
                },
            ),
    {
        let mut result: Vec<Transaction> = Vec::new();
        let ghost pre = self@;
        let ghost whole = pre.select(start_version as int, max_size_bytes as int);
        proof {
            assert(views(result@) =~= Seq::<TransactionView>::empty());
        }
        if start_version < self.start_version {
            assert(views(whole) =~= views(result@));
            return result;
        }
        let len = self.transactions.len();
        let offset = start_version - self.start_version;
        if offset >= len as u64 {
            assert(views(whole) =~= views(result@));
            return result;
        }
        let mut i = offset as usize;
        let mut budget = max_size_bytes;
        let mut stop = false;
        proof {
            assert(views(whole) =~= views(result@) + views(whole));
        }
        while i < len && !stop
            invariant
                self@ == pre,
                self.wf(),
                len == self.transactions@.len(),
                offset <= i <= len,
                result@.len() == i - offset,
                views(whole) == views(result@) + views(
                    if stop {
                        Seq::<Transaction>::empty()
                    } else {
                        take_through(pre.transactions.skip(i as int), budget as int)
                    },
                ),
            decreases len - i,
        {
            let ghost rest = take_through(pre.transactions.skip(i as int), budget as int);
            let ghost before = result@;
            let transaction = &self.transactions[i];
            let size = transaction.encoded_len();
            result.push(transaction.duplicate());
            proof {
                assert(pre.transactions.skip(i as int)[0] == *transaction);
                assert(pre.transactions.skip(i as int).drop_first() =~= pre.transactions.skip(
                    i + 1,
                ));
                assert(views(result@) =~= views(before) + seq![transaction@]);
            }
            if size > budget {
                stop = true;
                proof {
                    assert(rest =~= seq![*transaction]);
                    assert(views(rest) =~= seq![transaction@]);
                    assert(views(whole) =~= views(result@) + views(Seq::<Transaction>::empty()));
                }
            } else {
                budget = budget - size;
                proof {
                    let tail = take_through(pre.transactions.skip(i + 1), budget as int);
                    assert(rest =~= seq![*transaction] + tail);
                    assert(views(rest) =~= seq![transaction@] + views(tail));
                    assert(views(whole) =~= views(result@) + views(tail));
                }
            }
            i = i + 1;
        }
        proof {
            if !stop {
                assert(take_through(pre.transactions.skip(i as int), budget as int)
                    =~= Seq::<Transaction>::empty());
            }
            assert(views(whole) =~= views(result@));
            assert(views(whole).len() == whole.len());
        }
        if update_file_store_version {
            self.file_store_version = self.file_store_version + result.len() as u64;
        }
        result
    }
}

} // verus!
