//! One client's stream: from the request to the batches sent, one decision
//! at a time.

use vstd::prelude::*;
use crate::status::{Status, StatusCode, DATA_TOO_OLD, FAR_FUTURE_VERSION};
use crate::transaction::{contiguous_from, Transaction};

verus! {

/// A response holds at most this many bytes, but for its last transaction:
/// 20 MiB.
pub const MAX_BYTES_PER_BATCH: usize = 20_971_520;

/// Transactions per response where the request names no batch size.
pub const DEFAULT_BATCH_SIZE: usize = 10000;

/// A stream may begin at most this many versions beyond the latest known
/// one.
pub const MAX_VERSIONS_AHEAD: u64 = 10000;

/// How long a stream waits when it is ahead of the latest known version, in
/// milliseconds.
pub const HEAD_WAIT_MS: u64 = 100;

/// What a client asks for.
#[derive(Clone, Copy, Debug, PartialEq, Eq, Structural)]
pub struct GetTransactionsRequest {
    pub starting_version: Option<u64>,
    pub transactions_count: Option<u64>,
    pub batch_size: Option<u64>,
}

/// What a client is sent: a batch, and the chain it belongs to.
pub struct TransactionsResponse {
    pub transactions: Vec<Transaction>,
    pub chain_id: Option<u64>,
}

/// A request, worked out: where the stream begins, where it ends if it
/// does, and the two budgets of a response.
#[derive(Clone, Copy, Debug, PartialEq, Eq, Structural)]
pub struct StreamPlan {
    pub starting_version: u64,
    pub ending_version: Option<u64>,
    pub max_num_transactions_per_batch: usize,
    pub max_bytes_per_batch: usize,
}

/// The version at which a stream begins: the one asked for, or the latest
/// known one.
pub open spec fn effective_start(request: GetTransactionsRequest, known_latest_version: u64) -> u64 {
    match request.starting_version {
        Some(v) => v,
        None => known_latest_version,
    }
}

/// A request is refused if it begins more than `MAX_VERSIONS_AHEAD` beyond
/// the latest known version.
pub open spec fn far_future(request: GetTransactionsRequest, known_latest_version: u64) -> bool {
    effective_start(request, known_latest_version) > known_latest_version + MAX_VERSIONS_AHEAD
}

/// The plan of an accepted request. A stream without a count never ends; one
/// whose end would lie beyond the last version ends there.
pub open spec fn plan_of(request: GetTransactionsRequest, known_latest_version: u64) -> StreamPlan {
    let start = effective_start(request, known_latest_version);
    StreamPlan {
        starting_version: start,
        ending_version: match request.transactions_count {
            Some(count) => Some(
                if start + count > u64::MAX {
                    u64::MAX
                } else {
                    (start + count) as u64
                },
            ),
            None => None,
        },
        max_num_transactions_per_batch: match request.batch_size {
            Some(n) => if n > usize::MAX {
                usize::MAX
            } else {
                n as usize
            },
            None => DEFAULT_BATCH_SIZE,
        },
        max_bytes_per_batch: MAX_BYTES_PER_BATCH,
    }
}

/// Works out a request against the latest known version: refuses one that
/// begins too far in the future, and plans any other.
pub fn plan_stream(request: &GetTransactionsRequest, known_latest_version: u64) -> (r: Result<
    StreamPlan,
    Status,
>)
    ensures
        match r {
            Ok(plan) => !far_future(*request, known_latest_version) && plan == plan_of(
                *request,
                known_latest_version,
            ),
            Err(status) => far_future(*request, known_latest_version) && status.code
                == StatusCode::FailedPrecondition && status.message@ == FAR_FUTURE_VERSION@,
        },
{
    let starting_version = match request.starting_version {
        Some(v) => v,
        None => known_latest_version,
    };
    if starting_version > known_latest_version && starting_version - known_latest_version
        > MAX_VERSIONS_AHEAD {
        return Err(Status::far_future_version());
    }
    let max_num_transactions_per_batch = match request.batch_size {
        Some(n) => if n > usize::MAX as u64 {
            usize::MAX
        } else {
            n as usize
        },
        None => DEFAULT_BATCH_SIZE,
    };
    let ending_version = match request.transactions_count {
        Some(count) => Some(
            if count > u64::MAX - starting_version {
                u64::MAX
            } else {
                starting_version + count
            },
        ),
        None => None,
    };
    Ok(
        StreamPlan {
            starting_version,
            ending_version,
            max_num_transactions_per_batch,
            max_bytes_per_batch: MAX_BYTES_PER_BATCH,
        },
    )
}

/// What a stream does next.
#[derive(Clone, Copy, Debug, PartialEq, Eq, Structural)]
pub enum StreamStep {
    /// Every version asked for was sent: take the stream off the register
    /// and end it.
    Finish,
    /// The stream is ahead of the latest known version: wait and ask again.
    Wait { millis: u64 },
    /// Read a batch from the cache.
    Read {
        starting_version: u64,
        ending_version: u64,
        max_num_transactions: usize,
        max_bytes: usize,
    },
}

/// What goes to the client after a read.
pub enum StreamOutput {
    /// A batch.
    Response(TransactionsResponse),
    /// The error that ends the stream.
    Error(Status),
}

/// A client's stream.
pub struct LiveStream {
    chain_id: u64,
    starting_version: u64,
    next_version: u64,
    ending_version: u64,
    max_num_transactions_per_batch: usize,
    max_bytes_per_batch: usize,
    active: bool,
}

/// `LiveStream` as a mathematical value.
pub struct StreamView {
    pub chain_id: u64,
    pub starting_version: u64,
    /// The version that the next batch begins with.
    pub next_version: u64,
    /// The version at which the stream ends; the last version of all where
    /// it never does.
    pub ending_version: u64,
    pub max_num_transactions_per_batch: usize,
    pub max_bytes_per_batch: usize,
    /// Whether the stream still runs.
    pub active: bool,
}

impl StreamView {
    /// The step of a running stream, given the latest known version.
    pub open spec fn step(self, known_latest_version: u64) -> StreamStep {
        if self.next_version >= self.ending_version {
            StreamStep::Finish
        } else if self.next_version > known_latest_version {
            StreamStep::Wait { millis: HEAD_WAIT_MS }
        } else {
            StreamStep::Read {
                starting_version: self.next_version,
                ending_version: self.ending_version,
                max_num_transactions: self.max_num_transactions_per_batch,
                max_bytes: self.max_bytes_per_batch,
            }
        }
    }
}

impl View for LiveStream {
    type V = StreamView;

    closed spec fn view(&self) -> StreamView {
        StreamView {
            chain_id: self.chain_id,
            starting_version: self.starting_version,
            next_version: self.next_version,
            ending_version: self.ending_version,
            max_num_transactions_per_batch: self.max_num_transactions_per_batch,
            max_bytes_per_batch: self.max_bytes_per_batch,
            active: self.active,
        }
    }
}

impl LiveStream {
    /// A running stream for `plan`, at its first version.
    pub fn new(chain_id: u64, plan: StreamPlan) -> (stream: LiveStream)
        ensures
            stream@ == (StreamView {
                chain_id,
                starting_version: plan.starting_version,
                next_version: plan.starting_version,
                ending_version: match plan.ending_version {
                    Some(v) => v,
                    None => u64::MAX,
                },
                max_num_transactions_per_batch: plan.max_num_transactions_per_batch,
                max_bytes_per_batch: plan.max_bytes_per_batch,
                active: true,
            }),
    {
        LiveStream {
            chain_id,
            starting_version: plan.starting_version,
            next_version: plan.starting_version,
            ending_version: match plan.ending_version {
                Some(v) => v,
                None => u64::MAX,
            },
            max_num_transactions_per_batch: plan.max_num_transactions_per_batch,
            max_bytes_per_batch: plan.max_bytes_per_batch,
            active: true,
        }
    }

    /// The version that the next batch begins with: the stream's progress.
    pub fn next_version(&self) -> (v: u64)
        ensures
            v == self@.next_version,
    {
        self.next_version
    }

    /// Whether the stream still runs.
    pub fn is_active(&self) -> (b: bool)
        ensures
            b == self@.active,
    {
        self.active
    }

    /// What the stream does next, given the latest known version. A stream
    /// that has sent all it was asked for ends here.
    pub fn next_step(&mut self, known_latest_version: u64) -> (step: StreamStep)
        requires
            old(self)@.active,
        ensures
            step == old(self)@.step(known_latest_version),
            final(self)@ == (StreamView { active: step != StreamStep::Finish, ..old(self)@ }),
    {
        if self.next_version >= self.ending_version {
            self.active = false;
            StreamStep::Finish
        } else if self.next_version > known_latest_version {
            StreamStep::Wait { millis: HEAD_WAIT_MS }
        } else {
            StreamStep::Read {
                starting_version: self.next_version,
                ending_version: self.ending_version,
                max_num_transactions: self.max_num_transactions_per_batch,
                max_bytes: self.max_bytes_per_batch,
            }
        }
    }

    /// Takes what the cache returned for the last read: a batch goes to the
    /// client and the stream moves on by its length; if the data is too old
    /// the client is told so and the stream ends.
    pub fn deliver(&mut self, data: Option<Vec<Transaction>>) -> (out: StreamOutput)
        requires
            old(self)@.active,
            data matches Some(txs) ==> old(self)@.next_version + txs@.len() <= u64::MAX,
        ensures
            match data {
                Some(txs) => {
                    &&& out matches StreamOutput::Response(response)
                    &&& response.transactions == txs
                    &&& response.chain_id == Some(old(self)@.chain_id)
                    &&& final(self)@ == (StreamView {
                        next_version: (old(self)@.next_version + txs@.len()) as u64,
                        ..old(self)@
                    })
                },
                None => {
                    &&& out matches StreamOutput::Error(status)
                    &&& status.code == StatusCode::NotFound
                    &&& status.message@ == DATA_TOO_OLD@
                    &&& final(self)@ == (StreamView { active: false, ..old(self)@ })
                },
            },
    {
        match data {
            Some(transactions) => {
                self.next_version = self.next_version + transactions.len() as u64;
                StreamOutput::Response(
                    TransactionsResponse { transactions, chain_id: Some(self.chain_id) },
                )
            },
            None => {
                self.active = false;
                StreamOutput::Error(Status::data_too_old())
            },
        }
    }

    /// Takes note of how the last send went: a send that failed means that
    /// the client is gone, and ends the stream.
    pub fn sent(&mut self, delivered: bool)
        ensures
            final(self)@ == (StreamView {
                active: old(self)@.active && delivered,
                ..old(self)@
            }),
    {
        if !delivered {
            self.active = false;
        }
    }
}

/// All transactions of a run of batches, in the order sent.
pub open spec fn concat(batches: Seq<Seq<Transaction>>) -> Seq<Transaction>
    decreases batches.len(),
{
    if batches.len() == 0 {
        Seq::empty()
    } else {
        concat(batches.drop_last()) + batches.last()
    }
}

/// Each batch carries consecutive versions and begins where the batches
/// before it ended, the first at `start`.
pub open spec fn chained(batches: Seq<Seq<Transaction>>, start: int) -> bool
    decreases batches.len(),
{
    if batches.len() == 0 {
        true
    } else {
        &&& chained(batches.drop_last(), start)
        &&& contiguous_from(batches.last(), start + concat(batches.drop_last()).len())
    }
}

/// Strict ordering of a stream: a stream reads each batch at the version at
/// which it stands and moves on by the batch's length. So if every batch
/// read carries consecutive versions from the version asked for, all
/// transactions sent, taken together, carry consecutive versions from the
/// stream's first version: strictly increasing, without gap or repetition.
pub proof fn lemma_stream_order(batches: Seq<Seq<Transaction>>, start: int)
    requires
        chained(batches, start),
    ensures
        contiguous_from(concat(batches), start),
        forall|i: int, j: int|
            0 <= i < j < concat(batches).len() ==> (#[trigger] concat(batches)[i]).version < (
            #[trigger] concat(batches)[j]).version,
    decreases batches.len(),
{
    if batches.len() > 0 {
        lemma_stream_order(batches.drop_last(), start);
        let head = concat(batches.drop_last());
        let all = concat(batches);
        assert forall|i: int| 0 <= i < all.len() implies (#[trigger] all[i]).version == start
            + i by {
            if i < head.len() {
                assert(all[i] == head[i]);
            } else {
                assert(all[i] == batches.last()[i - head.len()]);
            }
        }
    }
}

} // verus!
