//! The live data service: the cache with its shared fetch of the head, and
//! the bookkeeping of the streams it serves.

use vstd::prelude::*;
use crate::connection_manager::{
    is_report, progressed, reported, without, ConnectionManager, ConnectionView, StreamRecordView,
};
use crate::service_info::{
    ActiveStream, PingDataServiceRequest, PingDataServiceResponse, Timestamp,
};
use crate::live_cache::{CacheRead, DataManager, LiveCacheState};
use crate::status::{Status, StatusCode, FAR_FUTURE_VERSION};
use crate::streamer::{
    far_future, plan_of, plan_stream, GetTransactionsRequest, LiveStream, StreamPlan, StreamStep,
    StreamView,
};
use crate::transaction::{batch_size, contiguous_from, Transaction};

verus! {

/// Pause before the manager is asked again for the head when it had nothing
/// new, in milliseconds.
pub const HEAD_FETCH_RETRY_MS: u64 = 200;

/// The request that asks the manager for transactions from
/// `starting_version` on.
pub fn fetch_request(starting_version: u64) -> (request: GetTransactionsRequest)
    ensures
        request == (GetTransactionsRequest {
            starting_version: Some(starting_version),
            transactions_count: None,
            batch_size: None,
        }),
{
    GetTransactionsRequest {
        starting_version: Some(starting_version),
        transactions_count: None,
        batch_size: None,
    }
}

/// One more than `n`, as far as the machine counts.
pub open spec fn one_more(n: usize) -> usize {
    if n < usize::MAX {
        (n + 1) as usize
    } else {
        n
    }
}

/// What follows an answer of the manager to the fetch of the head.
#[derive(Clone, Copy, Debug, PartialEq, Eq, Structural)]
pub enum Fetched {
    /// Nothing new came: ask again from `version` after `backoff_ms`.
    Retry { version: u64, backoff_ms: u64 },
    /// New data came: the `waiters` readers that waited go on, and the next
    /// fetch is under way.
    Done { waiters: usize },
}

/// The one fetch of the head that all readers at the head share. A fetch is
/// under way at all times: when one has brought data the next is installed
/// at once. Readers wait for it and never start one.
pub struct FetchManager {
    version: u64,
    waiters: usize,
}

/// `FetchManager` as a mathematical value.
pub struct FetchView {
    /// The version from which the fetch under way asks: the head as it was
    /// when the fetch was installed.
    pub version: u64,
    /// The readers that wait for the fetch under way.
    pub waiters: usize,
}

impl View for FetchManager {
    type V = FetchView;

    closed spec fn view(&self) -> FetchView {
        FetchView { version: self.version, waiters: self.waiters }
    }
}

impl FetchManager {
    /// The first fetch, from the head `end_version`; nobody waits yet.
    pub fn new(end_version: u64) -> (m: FetchManager)
        ensures
            m@ == (FetchView { version: end_version, waiters: 0 }),
    {
        FetchManager { version: end_version, waiters: 0 }
    }

    /// The version from which the fetch under way asks the manager.
    pub fn version(&self) -> (v: u64)
        ensures
            v == self@.version,
    {
        self.version
    }

    /// A reader has reached the head: it joins those who wait for the fetch
    /// under way, whose version it is told. No fetch is started.
    pub fn wait_for_head(&mut self) -> (version: u64)
        ensures
            version == old(self)@.version,
            final(self)@ == (FetchView {
                version: old(self)@.version,
                waiters: one_more(old(self)@.waiters),
            }),
    {
        if self.waiters < usize::MAX {
            self.waiters = self.waiters + 1;
        }
        self.version
    }

    /// The manager has answered the fetch under way with `num_transactions`
    /// transactions, and the head now stands at `end_version`. With none,
    /// the same fetch goes on after a pause. With some, all who waited go
    /// on, and the next fetch is installed, from the head as it now stands.
    pub fn fetched(&mut self, num_transactions: usize, end_version: u64) -> (r: Fetched)
        ensures
            r == if num_transactions == 0 {
                Fetched::Retry { version: old(self)@.version, backoff_ms: HEAD_FETCH_RETRY_MS }
            } else {
                Fetched::Done { waiters: old(self)@.waiters }
            },
            final(self)@ == if num_transactions == 0 {
                old(self)@
            } else {
                FetchView { version: end_version, waiters: 0 }
            },
    {
        if num_transactions == 0 {
            Fetched::Retry { version: self.version, backoff_ms: HEAD_FETCH_RETRY_MS }
        } else {
            let waiters = self.waiters;
            self.version = end_version;
            self.waiters = 0;
            Fetched::Done { waiters }
        }
    }
}

/// The cache of the live tier together with the fetch of its head.
pub struct InMemoryCache {
    data_manager: DataManager,
    fetch_manager: FetchManager,
}

impl InMemoryCache {
    pub closed spec fn wf(&self) -> bool {
        self.data_manager.wf()
    }

    /// What the cache holds.
    pub closed spec fn data(&self) -> LiveCacheState {
        self.data_manager@
    }

    /// The state of the shared fetch.
    pub closed spec fn fetch(&self) -> FetchView {
        self.fetch_manager@
    }

    /// A well-formed cache is a valid one.
    pub proof fn lemma_wf_valid(&self)
        requires
            self.wf(),
        ensures
            self.data().valid(),
    {
        self.data_manager.lemma_wf_valid();
    }

    /// An empty cache whose head is the version after the latest known one.
    pub fn new(known_latest_version: u64, num_slots: usize, size_limit_bytes: usize) -> (cache:
        InMemoryCache)
        requires
            known_latest_version < u64::MAX,
            0 < num_slots,
            0 < size_limit_bytes,
        ensures
            cache.wf(),
            cache.data().end_version == known_latest_version + 1,
            cache.data().start_version == if known_latest_version + 1 >= num_slots {
                known_latest_version + 1 - num_slots
            } else {
                0
            },
            cache.data().slots == Seq::new(num_slots as nat, |j: int| None::<Transaction>),
            cache.data().soft_limit == size_limit_bytes,
            cache.data().eviction_target == size_limit_bytes,
            cache.data().aligned(),
            cache.fetch() == (FetchView {
                version: (known_latest_version + 1) as u64,
                waiters: 0,
            }),
    {
        InMemoryCache {
            data_manager: DataManager::new(known_latest_version + 1, num_slots, size_limit_bytes),
            fetch_manager: FetchManager::new(known_latest_version + 1),
        }
    }

    /// The head of the cache.
    pub fn end_version(&self) -> (v: u64)
        ensures
            v == self.data().end_version,
    {
        self.data_manager.end_version()
    }

    /// Bytes held.
    pub fn total_size(&self) -> (n: usize)
        requires
            self.wf(),
        ensures
            n == self.data().total_size(),
    {
        self.data_manager.total_size()
    }

    /// Reads a batch; see `DataManager::get_data`. On `AtHead` the reader
    /// waits for the fetch of the head, on `Missing` it fetches the version
    /// it asked for, and then it reads again.
    pub fn get_data(
        &self,
        starting_version: u64,
        ending_version: u64,
        max_num_transactions_per_batch: usize,
        max_bytes_per_batch: usize,
    ) -> (r: CacheRead)
        requires
            self.wf(),
        ensures
            r@ == self.data().read(
                starting_version as int,
                ending_version as int,
                max_num_transactions_per_batch as int,
                max_bytes_per_batch as int,
            ),
    {
        self.data_manager.get_data(
            starting_version,
            ending_version,
            max_num_transactions_per_batch,
            max_bytes_per_batch,
        )
    }

    /// Takes in what the manager returned for `version`: anything but an
    /// empty answer goes into the cache. Answers with the number of
    /// transactions that came.
    pub fn fetch_and_update_cache(&mut self, version: u64, transactions: Vec<Transaction>) -> (len:
        usize)
        requires
            old(self).wf(),
            version + transactions@.len() <= u64::MAX,
            old(self).data().total_size() + batch_size(transactions@) <= usize::MAX,
        ensures
            final(self).wf(),
            len == transactions@.len(),
            final(self).fetch() == old(self).fetch(),
            final(self).data() == if len > 0 {
                old(self).data().ingest(version as int, transactions@)
            } else {
                old(self).data()
            },
            old(self).data().aligned() && contiguous_from(transactions@, version as int)
                ==> final(self).data().aligned(),
    {
        let len = transactions.len();
        if len > 0 {
            self.data_manager.update_data(version, transactions);
        }
        len
    }

    /// The version from which the fetch of the head that is under way asks
    /// the manager. The fetching never ends: each fetch that has brought
    /// data is followed by the next.
    pub fn continuously_fetch_latest_data(&self) -> (version: u64)
        ensures
            version == self.fetch().version,
    {
        self.fetch_manager.version()
    }

    /// A reader has reached the head; see `FetchManager::wait_for_head`.
    pub fn wait_for_head(&mut self) -> (version: u64)
        ensures
            final(self).wf() == old(self).wf(),
            final(self).data() == old(self).data(),
            version == old(self).fetch().version,
            final(self).fetch() == (FetchView {
                version: old(self).fetch().version,
                waiters: one_more(old(self).fetch().waiters),
            }),
    {
        self.fetch_manager.wait_for_head()
    }

    /// The manager has answered the fetch of the head with `transactions`:
    /// they go into the cache at the version that the fetch asked from. If
    /// any came, those who waited go on and the next fetch is installed, from
    /// the head as it stands then; if none came the same fetch goes on.
    pub fn fetch_latest_data(&mut self, transactions: Vec<Transaction>) -> (r: Fetched)
        requires
            old(self).wf(),
            old(self).fetch().version + transactions@.len() <= u64::MAX,
            old(self).data().total_size() + batch_size(transactions@) <= usize::MAX,
        ensures
            final(self).wf(),
            r == if transactions@.len() == 0 {
                Fetched::Retry {
                    version: old(self).fetch().version,
                    backoff_ms: HEAD_FETCH_RETRY_MS,
                }
            } else {
                Fetched::Done { waiters: old(self).fetch().waiters }
            },
            final(self).data() == if transactions@.len() > 0 {
                old(self).data().ingest(old(self).fetch().version as int, transactions@)
            } else {
                old(self).data()
            },
            final(self).fetch() == if transactions@.len() == 0 {
                old(self).fetch()
            } else {
                FetchView { version: final(self).data().end_version as u64, waiters: 0 }
            },
            old(self).data().aligned() && contiguous_from(
                transactions@,
                old(self).fetch().version as int,
            ) ==> final(self).data().aligned(),
    {
        let version = self.fetch_manager.version();
        let len = self.fetch_and_update_cache(version, transactions);
        let end_version = self.data_manager.end_version();
        self.fetch_manager.fetched(len, end_version)
    }
}

/// How large the cache of a live data service is.
#[derive(Clone, Copy, Debug, PartialEq, Eq, Structural)]
pub struct LiveDataServiceConfig {
    pub num_slots: usize,
    pub size_limit_bytes: usize,
}

/// Calls `Uuid::new_v4` and writes the result out with `to_string`: a new
/// random name, in the hyphenated form of 36 characters.
#[verifier::external_body]
fn new_stream_id() -> (id: String)
    ensures
        id@.len() == 36,
{
    uuid::Uuid::new_v4().to_string()
}

/// The live data service.
pub struct LiveDataService {
    chain_id: u64,
    in_memory_cache: InMemoryCache,
    connection_manager: ConnectionManager,
}

impl LiveDataService {
    pub closed spec fn wf(&self) -> bool {
        self.in_memory_cache.wf()
    }

    pub closed spec fn chain(&self) -> u64 {
        self.chain_id
    }

    /// What the cache holds.
    pub closed spec fn data(&self) -> LiveCacheState {
        self.in_memory_cache.data()
    }

    /// The latest known version and the streams served.
    pub closed spec fn connections(&self) -> ConnectionView {
        self.connection_manager@
    }

    /// The state of the shared fetch of the head.
    pub closed spec fn fetch(&self) -> FetchView {
        self.in_memory_cache.fetch()
    }

    /// A well-formed service holds a valid cache.
    pub proof fn lemma_wf_valid(&self)
        requires
            self.wf(),
        ensures
            self.data().valid(),
    {
        self.in_memory_cache.lemma_wf_valid();
    }

    /// A service for chain `chain_id` with an empty cache whose head is the
    /// version after the latest one that `connection_manager` knows of. The
    /// first fetch of the head asks from that head on.
    pub fn new(
        chain_id: u64,
        config: LiveDataServiceConfig,
        connection_manager: ConnectionManager,
    ) -> (service: LiveDataService)
        requires
            connection_manager@.known_latest_version < u64::MAX,
            0 < config.num_slots,
            0 < config.size_limit_bytes,
        ensures
            service.wf(),
            service.chain() == chain_id,
            service.connections() == connection_manager@,
            service.data().end_version == connection_manager@.known_latest_version + 1,
            service.data().num_slots() == config.num_slots,
            service.data().total_size() == 0,
            service.data().aligned(),
            service.fetch() == (FetchView {
                version: (connection_manager@.known_latest_version + 1) as u64,
                waiters: 0,
            }),
    {
        let known_latest_version = connection_manager.known_latest_version();
        let in_memory_cache = InMemoryCache::new(
            known_latest_version,
            config.num_slots,
            config.size_limit_bytes,
        );
        proof {
            crate::live_cache::lemma_slots_size_empty(in_memory_cache.data().slots);
        }
        LiveDataService { chain_id, in_memory_cache, connection_manager }
    }

    /// The latest version that the service has heard of.
    pub fn get_known_latest_version(&self) -> (v: u64)
        ensures
            v == self.connections().known_latest_version,
    {
        self.connection_manager.known_latest_version()
    }

    /// Reads a batch from the cache; see `InMemoryCache::get_data`.
    pub fn get_data(
        &self,
        starting_version: u64,
        ending_version: u64,
        max_num_transactions_per_batch: usize,
        max_bytes_per_batch: usize,
    ) -> (r: CacheRead)
        requires
            self.wf(),
        ensures
            r@ == self.data().read(
                starting_version as int,
                ending_version as int,
                max_num_transactions_per_batch as int,
                max_bytes_per_batch as int,
            ),
    {
        self.in_memory_cache.get_data(
            starting_version,
            ending_version,
            max_num_transactions_per_batch,
            max_bytes_per_batch,
        )
    }

    /// Takes in what the manager returned for a version that a reader found
    /// missing; see `InMemoryCache::fetch_and_update_cache`.
    pub fn fetch_past_data(&mut self, version: u64, transactions: Vec<Transaction>) -> (len: usize)
        requires
            old(self).wf(),
            version + transactions@.len() <= u64::MAX,
            old(self).data().total_size() + batch_size(transactions@) <= usize::MAX,
        ensures
            final(self).wf(),
            len == transactions@.len(),
            final(self).chain() == old(self).chain(),
            final(self).connections() == old(self).connections(),
            final(self).fetch() == old(self).fetch(),
            final(self).data() == if len > 0 {
                old(self).data().ingest(version as int, transactions@)
            } else {
                old(self).data()
            },
            old(self).data().aligned() && contiguous_from(transactions@, version as int)
                ==> final(self).data().aligned(),
    {
        self.in_memory_cache.fetch_and_update_cache(version, transactions)
    }

    /// The version from which the fetch of the head that is under way asks
    /// the manager; see `InMemoryCache::continuously_fetch_latest_data`.
    pub fn continuously_fetch_latest_data(&self) -> (version: u64)
        ensures
            version == self.fetch().version,
    {
        self.in_memory_cache.continuously_fetch_latest_data()
    }

    /// A reader has reached the head; see `FetchManager::wait_for_head`.
    pub fn wait_for_head(&mut self) -> (version: u64)
        ensures
            final(self).wf() == old(self).wf(),
            final(self).data() == old(self).data(),
            final(self).chain() == old(self).chain(),
            final(self).connections() == old(self).connections(),
            version == old(self).fetch().version,
            final(self).fetch() == (FetchView {
                version: old(self).fetch().version,
                waiters: one_more(old(self).fetch().waiters),
            }),
    {
        self.in_memory_cache.wait_for_head()
    }

    /// The manager has answered the fetch of the head; see
    /// `InMemoryCache::fetch_latest_data`.
    pub fn fetch_latest_data(&mut self, transactions: Vec<Transaction>) -> (r: Fetched)
        requires
            old(self).wf(),
            old(self).fetch().version + transactions@.len() <= u64::MAX,
            old(self).data().total_size() + batch_size(transactions@) <= usize::MAX,
        ensures
            final(self).wf(),
            final(self).chain() == old(self).chain(),
            final(self).connections() == old(self).connections(),
            r == if transactions@.len() == 0 {
                Fetched::Retry {
                    version: old(self).fetch().version,
                    backoff_ms: HEAD_FETCH_RETRY_MS,
                }
            } else {
                Fetched::Done { waiters: old(self).fetch().waiters }
            },
            final(self).data() == if transactions@.len() > 0 {
                old(self).data().ingest(old(self).fetch().version as int, transactions@)
            } else {
                old(self).data()
            },
            final(self).fetch() == if transactions@.len() == 0 {
                old(self).fetch()
            } else {
                FetchView { version: final(self).data().end_version as u64, waiters: 0 }
            },
            old(self).data().aligned() && contiguous_from(
                transactions@,
                old(self).fetch().version as int,
            ) ==> final(self).data().aligned(),
    {
        self.in_memory_cache.fetch_latest_data(transactions)
    }

    /// Bytes held by the cache.
    pub fn total_size(&self) -> (n: usize)
        requires
            self.wf(),
        ensures
            n == self.data().total_size(),
    {
        self.in_memory_cache.total_size()
    }

    /// The streams on the register, as the service reports them.
    pub fn get_active_streams(&self) -> (r: Vec<ActiveStream>)
        ensures
            r@.len() == self.connections().active_streams.len(),
            forall|i: int|
                0 <= i < r@.len() ==> reported(
                    self.connections().active_streams[i],
                    #[trigger] r@[i],
                ),
    {
        self.connection_manager.get_active_streams()
    }

    /// Takes note of a version that someone has heard of; see
    /// `ConnectionManager::update_known_latest_version`.
    pub fn update_known_latest_version(&mut self, version: u64)
        ensures
            final(self).wf() == old(self).wf(),
            final(self).data() == old(self).data(),
            final(self).chain() == old(self).chain(),
            final(self).fetch() == old(self).fetch(),
            final(self).connections() == (ConnectionView {
                known_latest_version: if version > old(self).connections().known_latest_version {
                    version
                } else {
                    old(self).connections().known_latest_version
                },
                ..old(self).connections()
            }),
    {
        self.connection_manager.update_known_latest_version(version);
    }

    /// Takes the stream named `id` off the register, as after its client
    /// has gone.
    pub fn remove_active_stream(&mut self, id: &String)
        ensures
            final(self).wf() == old(self).wf(),
            final(self).data() == old(self).data(),
            final(self).chain() == old(self).chain(),
            final(self).fetch() == old(self).fetch(),
            final(self).connections() == (ConnectionView {
                active_streams: without(old(self).connections().active_streams, id@),
                ..old(self).connections()
            }),
    {
        self.connection_manager.remove_active_stream(id);
    }

    /// Answers a ping; see `ConnectionManager::ping`.
    pub fn ping(&mut self, request: PingDataServiceRequest, timestamp: Timestamp) -> (response:
        PingDataServiceResponse)
        ensures
            final(self).wf() == old(self).wf(),
            final(self).data() == old(self).data(),
            final(self).chain() == old(self).chain(),
            final(self).fetch() == old(self).fetch(),
            final(self).connections() == (ConnectionView {
                known_latest_version: match request.known_latest_version {
                    Some(v) if v > old(self).connections().known_latest_version => v,
                    _ => old(self).connections().known_latest_version,
                },
                ..old(self).connections()
            }),
            response.info matches Some(info) && is_report(
                final(self).connections(),
                timestamp,
                info,
            ),
    {
        self.connection_manager.ping(request, timestamp)
    }

    /// Takes in a request under a new random name of 36 characters: see
    /// `start_streaming`. The name comes back with the stream.
    pub fn run(&mut self, request: GetTransactionsRequest) -> (r: Result<(String, LiveStream), Status>)
        ensures
            final(self).wf() == old(self).wf(),
            final(self).data() == old(self).data(),
            final(self).chain() == old(self).chain(),
            match r {
                Ok((id, stream)) => {
                    &&& id@.len() == 36
                    &&& !far_future(request, old(self).connections().known_latest_version)
                    &&& stream@ == started(
                        old(self).chain(),
                        plan_of(request, old(self).connections().known_latest_version),
                    )
                    &&& final(self).connections() == enrolled(
                        old(self).connections(),
                        id@,
                        plan_of(request, old(self).connections().known_latest_version),
                    )
                },
                Err(status) => {
                    &&& far_future(request, old(self).connections().known_latest_version)
                    &&& status.code == StatusCode::FailedPrecondition
                    &&& status.message@ == FAR_FUTURE_VERSION@
                    &&& final(self).connections() == old(self).connections()
                },
            },
    {
        let id = new_stream_id();
        match self.start_streaming(&id, request) {
            Ok(stream) => Ok((id, stream)),
            Err(status) => Err(status),
        }
    }

    /// Takes in a request under the name `id`: a request that begins too far
    /// in the future is refused; for any other the stream is put on the
    /// register and begins at its first version.
    pub fn start_streaming(&mut self, id: &String, request: GetTransactionsRequest) -> (r: Result<
        LiveStream,
        Status,
    >)
        ensures
            final(self).wf() == old(self).wf(),
            final(self).data() == old(self).data(),
            final(self).chain() == old(self).chain(),
            match r {
                Ok(stream) => {
                    &&& !far_future(request, old(self).connections().known_latest_version)
                    &&& stream@ == started(
                        old(self).chain(),
                        plan_of(request, old(self).connections().known_latest_version),
                    )
                    &&& final(self).connections() == enrolled(
                        old(self).connections(),
                        id@,
                        plan_of(request, old(self).connections().known_latest_version),
                    )
                },
                Err(status) => {
                    &&& far_future(request, old(self).connections().known_latest_version)
                    &&& status.code == StatusCode::FailedPrecondition
                    &&& status.message@ == FAR_FUTURE_VERSION@
                    &&& final(self).connections() == old(self).connections()
                },
            },
    {
        let known_latest_version = self.connection_manager.known_latest_version();
        match plan_stream(&request, known_latest_version) {
            Ok(plan) => {
                self.connection_manager.insert_active_stream(
                    id,
                    plan.starting_version,
                    plan.ending_version,
                );
                Ok(LiveStream::new(self.chain_id, plan))
            },
            Err(status) => Err(status),
        }
    }

    /// One turn of the stream named `id`: a stream that has sent all it was
    /// asked for is taken off the register and ends; any other has its
    /// progress noted, and waits if it is ahead of the latest known version
    /// or reads its next batch.
    pub fn poll(&mut self, id: &String, stream: &mut LiveStream) -> (step: StreamStep)
        requires
            old(stream)@.active,
        ensures
            final(self).wf() == old(self).wf(),
            final(self).data() == old(self).data(),
            final(self).chain() == old(self).chain(),
            step == old(stream)@.step(old(self).connections().known_latest_version),
            final(stream)@ == (StreamView { active: step != StreamStep::Finish, ..old(stream)@ }),
            final(self).connections() == (ConnectionView {
                active_streams: if step == StreamStep::Finish {
                    without(old(self).connections().active_streams, id@)
                } else {
                    progressed(
                        old(self).connections().active_streams,
                        id@,
                        old(stream)@.next_version,
                    )
                },
                ..old(self).connections()
            }),
    {
        let known_latest_version = self.connection_manager.known_latest_version();
        let next_version = stream.next_version();
        let step = stream.next_step(known_latest_version);
        match step {
            StreamStep::Finish => {
                self.connection_manager.remove_active_stream(id);
            },
            _ => {
                self.connection_manager.update_stream_progress(id, next_version);
            },
        }
        step
    }

    /// Takes note of how the last send to the client of the stream named
    /// `id` went. A stream whose send failed has lost its client: it ends.
    /// A stream that has ended, by a failed send or by the error it was to
    /// send, is taken off the register.
    pub fn sent(&mut self, id: &String, stream: &mut LiveStream, delivered: bool)
        ensures
            final(self).wf() == old(self).wf(),
            final(self).data() == old(self).data(),
            final(self).chain() == old(self).chain(),
            final(self).fetch() == old(self).fetch(),
            final(stream)@ == (StreamView {
                active: old(stream)@.active && delivered,
                ..old(stream)@
            }),
            final(self).connections() == (ConnectionView {
                active_streams: if old(stream)@.active && delivered {
                    old(self).connections().active_streams
                } else {
                    without(old(self).connections().active_streams, id@)
                },
                ..old(self).connections()
            }),
    {
        stream.sent(delivered);
        if !stream.is_active() {
            self.connection_manager.remove_active_stream(id);
        }
    }
}

/// The stream of chain `chain_id` that begins with `plan`.
pub open spec fn started(chain_id: u64, plan: StreamPlan) -> StreamView {
    StreamView {
        chain_id,
        starting_version: plan.starting_version,
        next_version: plan.starting_version,
        ending_version: match plan.ending_version {
            Some(v) => v,
            None => u64::MAX,
        },
        max_num_transactions_per_batch: plan.max_num_transactions_per_batch,
        max_bytes_per_batch: plan.max_bytes_per_batch,
        active: true,
    }
}

/// A stream that begins at the latest known version, and is asked for at
/// least one transaction, does not wait: its first step is a read at that
/// version.
pub proof fn lemma_stream_at_latest_reads(
    chain_id: u64,
    request: GetTransactionsRequest,
    known_latest_version: u64,
)
    requires
        crate::streamer::effective_start(request, known_latest_version) == known_latest_version,
        known_latest_version < u64::MAX,
        request.transactions_count matches Some(count) ==> count > 0,
    ensures
        !far_future(request, known_latest_version),
        started(chain_id, plan_of(request, known_latest_version)).step(known_latest_version)
            matches StreamStep::Read { starting_version, .. } && starting_version
            == known_latest_version,
{
}

/// The register after the stream `id` with `plan` was put on it.
pub open spec fn enrolled(state: ConnectionView, id: Seq<char>, plan: StreamPlan) -> ConnectionView {
    ConnectionView {
        active_streams: without(state.active_streams, id).push(
            StreamRecordView {
                id,
                starting_version: plan.starting_version,
                current_version: plan.starting_version,
                end_version: plan.ending_version,
            },
        ),
        ..state
    }
}

} // verus!
