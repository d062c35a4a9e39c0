//! The transaction record that every tier stores and forwards.

use vstd::prelude::*;

verus! {

/// A transaction as the service sees it: its position in the global order and
/// its serialized form. All size accounting goes by the serialized length.
pub struct Transaction {
    pub version: u64,
    pub payload: Vec<u8>,
}

/// What a transaction is, apart from where its bytes live.
pub struct TransactionView {
    pub version: u64,
    pub payload: Seq<u8>,
}

impl View for Transaction {
    type V = TransactionView;

    open spec fn view(&self) -> TransactionView {
        TransactionView { version: self.version, payload: self.payload@ }
    }
}

impl Transaction {
    /// The number of bytes that this transaction counts for.
    pub open spec fn size(&self) -> nat {
        self.payload@.len()
    }

    pub fn new(version: u64, payload: Vec<u8>) -> (t: Transaction)
        ensures
            t.version == version,
            t.payload == payload,
    {
        Transaction { version, payload }
    }

    /// Length of the serialized form.
    pub fn encoded_len(&self) -> (n: usize)
        ensures
            n == self.size(),
    {
        self.payload.len()
    }

    /// An independent copy with the same version and the same bytes.
    pub fn duplicate(&self) -> (t: Transaction)
        ensures
            t@ == self@,
    {
        let payload = self.payload.clone();
        assert(payload@ =~= self.payload@);
        Transaction { version: self.version, payload }
    }
}

/// The views of a run of transactions, in order.
pub open spec fn views(txs: Seq<Transaction>) -> Seq<TransactionView> {
    txs.map_values(|t: Transaction| t@)
}

/// Total serialized size of a run of transactions.
pub open spec fn batch_size(txs: Seq<Transaction>) -> nat
    decreases txs.len(),
{
    if txs.len() == 0 {
        0
    } else {
        batch_size(txs.drop_last()) + txs.last().size()
    }
}

/// The run carries consecutive versions, beginning with `start`.
pub open spec fn contiguous_from(txs: Seq<Transaction>, start: int) -> bool {
    forall|i: int| 0 <= i < txs.len() ==> (#[trigger] txs[i]).version == start + i
}

/// The size of a batch is the size of any prefix plus the size of the rest.
pub proof fn lemma_batch_size_prefix(txs: Seq<Transaction>, n: int)
    requires
        0 <= n < txs.len(),
    ensures
        batch_size(txs.take(n + 1)) == batch_size(txs.take(n)) + txs[n].size(),
        batch_size(txs.take(n + 1)) <= batch_size(txs),
    decreases txs.len() - n,
{
    assert(txs.take(n + 1).drop_last() =~= txs.take(n));
    if n + 1 == txs.len() {
        assert(txs.take(n + 1) =~= txs);
    } else {
        lemma_batch_size_prefix(txs, n + 1);
    }
}

/// The size of two runs put together is the sum of their sizes.
pub proof fn lemma_batch_size_concat(a: Seq<Transaction>, b: Seq<Transaction>)
    ensures
        batch_size(a + b) == batch_size(a) + batch_size(b),
    decreases b.len(),
{
    if b.len() == 0 {
        assert(a + b =~= a);
    } else {
        assert((a + b).drop_last() =~= a + b.drop_last());
        lemma_batch_size_concat(a, b.drop_last());
    }
}

/// The size of a run is the size of its first item plus the size of the rest.
pub proof fn lemma_batch_size_first(txs: Seq<Transaction>)
    requires
        txs.len() > 0,
    ensures
        batch_size(txs) == txs[0].size() + batch_size(txs.drop_first()),
{
    let head = seq![txs[0]];
    assert(head.drop_last() =~= Seq::<Transaction>::empty());
    assert(batch_size(head.drop_last()) == 0);
    assert(batch_size(head) == txs[0].size());
    assert(txs =~= head + txs.drop_first());
    lemma_batch_size_concat(head, txs.drop_first());
}

} // verus!
