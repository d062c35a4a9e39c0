//! The manager tier's data service: takes in what the upstream full node
//! streams, and decides for each read where its data comes from.

use vstd::prelude::*;
use crate::manager_cache::{Cache, ManagerCacheState};
use crate::status::{Status, StatusCode, FILE_STORE_FAILURE};
use crate::transaction::{batch_size, views, Transaction};

verus! {

/// A response of the manager holds at most this many bytes, but for its last
/// transaction: 5 MiB.
pub const MAX_BATCH_SIZE: usize = 5_242_880;

/// The cache counts as lagging when the latest known version is more than
/// this many versions beyond its head.
pub const LAGGING_VERSIONS: u64 = 20000;

/// Transactions asked of the full node to serve a read beyond the head.
pub const CATCH_UP_COUNT: u64 = 5000;

/// Transactions asked of the full node per stream that fills the cache.
pub const INGRESS_COUNT: u64 = 100000;

/// Attempts to read a file again when a read below the cache goes to the
/// file store.
pub const FILE_STORE_RETRIES: u8 = 3;

/// Pause before the upstream is asked again, or before room is looked for
/// again, in milliseconds.
pub const BACKOFF_MS: u64 = 100;

/// What the full node's stream delivers.
pub enum FullnodeItem {
    /// A chunk of transactions.
    Data(Vec<Transaction>),
    /// A status message.
    Status,
    /// A message that holds neither.
    Nothing,
    /// The stream failed.
    Failed,
}

impl FullnodeItem {
    /// With this item the read of one chunk ends: it holds the chunk, or
    /// the stream has failed.
    pub open spec fn ends_chunk(self) -> bool {
        self is Data || self is Failed
    }

    /// Whether the read of one chunk ends with this item, so that no further
    /// item of the stream need be taken.
    pub fn is_last(&self) -> (b: bool)
        ensures
            b == self.ends_chunk(),
    {
        match self {
            FullnodeItem::Data(_) => true,
            FullnodeItem::Failed => true,
            _ => false,
        }
    }
}

/// A request to the full node: a stream of `transactions_count`
/// transactions from `starting_version` on.
#[derive(Clone, Copy, Debug, PartialEq, Eq, Structural)]
pub struct FullnodeRequest {
    pub starting_version: u64,
    pub transactions_count: u64,
}

/// Where the data of a read comes from.
#[derive(Clone, Copy, Debug, PartialEq, Eq, Structural)]
pub enum Source {
    /// The version is in the cache.
    Cache,
    /// The version is beyond the head and the cache lags: ask the full node
    /// for one chunk from the head on.
    Fullnode(FullnodeRequest),
    /// The version is beyond the head, and the cache keeps up: there is
    /// nothing to return yet.
    Nothing,
    /// The version is below the cache: read the one file that holds it.
    FileStore { version: u64, retries: u8, max_files: usize },
}

/// Whether the cache is far behind the latest known version.
pub open spec fn is_lagging(cache_next_version: u64, known_latest_version: u64) -> bool {
    cache_next_version + LAGGING_VERSIONS < known_latest_version
}

/// Where a read at `start_version` goes, for a cache that holds
/// `[cache_start_version, cache_next_version)`.
pub open spec fn source_of(
    cache_start_version: u64,
    cache_next_version: u64,
    start_version: u64,
    known_latest_version: u64,
) -> Source {
    if start_version >= cache_start_version {
        if start_version < cache_next_version {
            Source::Cache
        } else if is_lagging(cache_next_version, known_latest_version) {
            Source::Fullnode(
                FullnodeRequest {
                    starting_version: cache_next_version,
                    transactions_count: CATCH_UP_COUNT,
                },
            )
        } else {
            Source::Nothing
        }
    } else {
        Source::FileStore { version: start_version, retries: FILE_STORE_RETRIES, max_files: 1 }
    }
}

/// Whether the cache is far behind the latest known version.
pub fn lagging(cache_next_version: u64, known_latest_version: u64) -> (b: bool)
    ensures
        b == is_lagging(cache_next_version, known_latest_version),
{
    known_latest_version > cache_next_version && known_latest_version - cache_next_version
        > LAGGING_VERSIONS
}

/// What a read of the manager yields at once, or what has to be asked
/// elsewhere.
pub enum ManagerRead {
    /// Copies out of the cache.
    Transactions(Vec<Transaction>),
    /// Ask the full node, and return the first chunk of data it streams.
    AskFullnode(FullnodeRequest),
    /// Ask the file store for the file that holds `version`.
    AskFileStore { version: u64, retries: u8, max_files: usize },
}

/// What became of an item of the full node's stream.
#[derive(Clone, Copy, Debug, PartialEq, Eq, Structural)]
pub enum Ingested {
    /// Its transactions are in the cache.
    Stored,
    /// It held no transactions: go on with the next item.
    Skipped,
    /// The stream is of no use any more: open a new one.
    Reconnect,
}

/// The first chunk that a one-shot stream of the full node yields: the
/// transactions of its first data item. A stream that fails or ends before
/// that yields nothing.
pub open spec fn first_chunk(items: Seq<FullnodeItem>) -> Seq<Transaction>
    decreases items.len(),
{
    if items.len() == 0 {
        Seq::empty()
    } else {
        match items[0] {
            FullnodeItem::Data(txs) => txs@,
            FullnodeItem::Failed => Seq::empty(),
            _ => first_chunk(items.drop_first()),
        }
    }
}

/// The first chunk is decided by the items up to the first that ends the
/// read: whatever the stream holds after that item changes nothing.
pub proof fn lemma_first_chunk_prefix(items: Seq<FullnodeItem>, k: int)
    requires
        0 <= k < items.len(),
        items[k].ends_chunk(),
        forall|i: int| 0 <= i < k ==> !(#[trigger] items[i]).ends_chunk(),
    ensures
        first_chunk(items) == first_chunk(items.take(k + 1)),
        first_chunk(items) == match items[k] {
            FullnodeItem::Data(txs) => txs@,
            _ => Seq::empty(),
        },
    decreases k,
{
    let head = items.take(k + 1);
    assert(head[0] == items[0]);
    if k > 0 {
        let rest = items.drop_first();
        assert forall|i: int| 0 <= i < k - 1 implies !(#[trigger] rest[i]).ends_chunk() by {
            assert(rest[i] == items[i + 1]);
        }
        lemma_first_chunk_prefix(rest, k - 1);
        assert(rest.take(k) =~= head.drop_first());
    }
}

/// What a read beyond the head returns, given the items that the full node
/// streamed, in order.
pub fn first_fullnode_chunk(items: Vec<FullnodeItem>) -> (r: Vec<Transaction>)
    ensures
        r@ == first_chunk(items@),
{
    let ghost all = items@;
    proof {
        assert(all.skip(0) =~= all);
    }
    for item in it: items
        invariant
            it.seq() == all,
            first_chunk(all) == first_chunk(all.skip(it.index())),
    {
        let ghost i = it.index();
        proof {
            assert(all.skip(i)[0] == all[i]);
            assert(all.skip(i).drop_first() =~= all.skip(i + 1));
        }
        match item {
            FullnodeItem::Data(transactions) => {
                return transactions;
            },
            FullnodeItem::Failed => {
                return Vec::new();
            },
            _ => {},
        }
    }
    Vec::new()
}

/// What a read below the cache returns, given the first chunk that the file
/// store delivered, if it delivered any.
pub fn first_file_store_chunk(chunk: Option<Vec<Transaction>>) -> (r: Result<
    Vec<Transaction>,
    Status,
>)
    ensures
        match chunk {
            Some(txs) => r == Ok::<Vec<Transaction>, Status>(txs),
            None => r matches Err(status) && status.code == StatusCode::Internal
                && status.message@ == FILE_STORE_FAILURE@,
        },
{
    match chunk {
        Some(transactions) => Ok(transactions),
        None => Err(Status::file_store_failure()),
    }
}

/// The manager's store of recent transactions and its rules.
pub struct DataManager {
    cache: Cache,
}

impl View for DataManager {
    type V = ManagerCacheState;

    closed spec fn view(&self) -> ManagerCacheState {
        self.cache@
    }
}

impl DataManager {
    pub closed spec fn wf(&self) -> bool {
        self.cache.wf()
    }

    /// A well-formed manager holds a valid cache.
    pub proof fn lemma_wf_valid(&self)
        requires
            self.wf(),
        ensures
            self@.valid(),
    {
        self.cache.lemma_wf_valid();
    }

    /// A manager whose cache is empty and begins at `file_store_version`,
    /// the version up to which the file store is filled.
    pub fn new(file_store_version: u64) -> (m: DataManager)
        ensures
            m.wf(),
            m@ == Cache::new_state(file_store_version),
    {
        DataManager { cache: Cache::new(file_store_version) }
    }

    /// A manager around a given cache.
    pub fn with_cache(cache: Cache) -> (m: DataManager)
        requires
            cache.wf(),
        ensures
            m.wf(),
            m@ == cache@,
    {
        DataManager { cache }
    }

    /// The oldest version held.
    pub fn start_version(&self) -> (v: u64)
        ensures
            v == self@.start_version,
    {
        self.cache.start_version()
    }

    /// The version after the newest one held.
    pub fn end_version(&self) -> (v: u64)
        requires
            self.wf(),
        ensures
            v == self@.end_version(),
    {
        self.cache.end_version()
    }

    /// The lowest version that the file store has not taken yet.
    pub fn file_store_version(&self) -> (v: u64)
        ensures
            v == self@.file_store_version,
    {
        self.cache.file_store_version()
    }

    /// Bytes held.
    pub fn cache_size(&self) -> (n: usize)
        requires
            self.wf(),
        ensures
            n == self@.cache_size(),
    {
        self.cache.cache_size()
    }

    /// The request that opens the stream which fills the cache: from the
    /// head on.
    pub fn ingress_request(&self) -> (r: FullnodeRequest)
        requires
            self.wf(),
        ensures
            r == (FullnodeRequest {
                starting_version: self@.end_version() as u64,
                transactions_count: INGRESS_COUNT,
            }),
    {
        FullnodeRequest {
            starting_version: self.cache.end_version(),
            transactions_count: INGRESS_COUNT,
        }
    }

    /// Makes room before the next item is taken in. While the answer is
    /// `false` the file store is behind: wait `BACKOFF_MS` and ask again.
    pub fn make_room(&mut self) -> (ok: bool)
        requires
            old(self).wf(),
        ensures
            final(self).wf(),
            final(self)@ == old(self)@.maybe_evict(),
            ok == (final(self)@.cache_size() <= final(self)@.max_size),
    {
        self.cache.maybe_evict()
    }

    /// Takes in one item of the full node's stream: stores its transactions,
    /// skips a status message, and asks for a new stream after an item that
    /// holds nothing or a failure.
    pub fn ingest(&mut self, item: FullnodeItem) -> (r: Ingested)
        requires
            old(self).wf(),
            item matches FullnodeItem::Data(txs) ==> {
                &&& old(self)@.end_version() + txs@.len() <= u64::MAX
                &&& old(self)@.cache_size() + batch_size(txs@) <= usize::MAX
            },
        ensures
            final(self).wf(),
            match item {
                FullnodeItem::Data(txs) => r == Ingested::Stored && final(self)@ == old(self)@.put(
                    txs@,
                ),
                FullnodeItem::Status => r == Ingested::Skipped && final(self)@ == old(self)@,
                _ => r == Ingested::Reconnect && final(self)@ == old(self)@,
            },
    {
        match item {
            FullnodeItem::Data(transactions) => {
                self.cache.put_transactions(transactions);
                Ingested::Stored
            },
            FullnodeItem::Status => Ingested::Skipped,
            _ => Ingested::Reconnect,
        }
    }

    /// Reads from the cache as the uploader does: the cursor of the file
    /// store moves on by what is returned.
    pub fn get_transactions_from_cache(
        &mut self,
        start_version: u64,
        max_size: usize,
        update_file_store_version: bool,
    ) -> (r: Vec<Transaction>)
        requires
            old(self).wf(),
            update_file_store_version ==> old(self)@.file_store_version + old(self)@.select(
                start_version as int,
                max_size as int,
            ).len() <= u64::MAX,
        ensures
            final(self).wf(),
            views(r@) == views(old(self)@.select(start_version as int, max_size as int)),
            final(self)@ == old(self)@.advance(
                if update_file_store_version {
                    r@.len() as int
                } else {
                    0
                },
            ),
    {
        self.cache.get_transactions(start_version, max_size, update_file_store_version)
    }

    /// Serves a read at `start_version`: out of the cache where the cache
    /// holds the version; by the full node where the version is beyond the
    /// head and the cache lags; with nothing where it is beyond the head and
    /// the cache keeps up; and by the file store where it is below the cache.
    pub fn get_transactions(
        &mut self,
        start_version: u64,
        max_size: usize,
        known_latest_version: u64,
    ) -> (r: ManagerRead)
        requires
            old(self).wf(),
        ensures
            final(self).wf(),
            final(self)@ == old(self)@,
            match source_of(
                old(self)@.start_version as u64,
                old(self)@.end_version() as u64,
                start_version,
                known_latest_version,
            ) {
                Source::Cache => r matches ManagerRead::Transactions(txs) && views(txs@) == views(
                    old(self)@.select(start_version as int, max_size as int),
                ),
                Source::Fullnode(request) => r matches ManagerRead::AskFullnode(q) && q == request,
                Source::Nothing => r matches ManagerRead::Transactions(txs) && txs@.len() == 0,
                Source::FileStore { version, retries, max_files } => r
                    matches ManagerRead::AskFileStore { version: v, retries: n, max_files: m }
                    && v == version && n == retries && m == max_files,
            },
    {
        proof {
            self.cache.lemma_wf_valid();
        }
        let cache_start_version = self.cache.start_version();
        let cache_next_version = self.cache.end_version();
        if start_version >= cache_start_version {
            if start_version >= cache_next_version {
                if lagging(cache_next_version, known_latest_version) {
                    return ManagerRead::AskFullnode(
                        FullnodeRequest {
                            starting_version: cache_next_version,
                            transactions_count: CATCH_UP_COUNT,
                        },
                    );
                }
                return ManagerRead::Transactions(Vec::new());
            }
            let transactions = self.cache.get_transactions(start_version, max_size, false);
            return ManagerRead::Transactions(transactions);
        }
        ManagerRead::AskFileStore {
            version: start_version,
            retries: FILE_STORE_RETRIES,
            max_files: 1,
        }
    }
}

} // verus!
