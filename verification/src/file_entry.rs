//! A batch file: the record of its transactions, compressed as an LZ4
//! frame.

use lz4_flex::frame::{FrameDecoder, FrameEncoder};
use std::io::{Read, Write};
use vstd::prelude::*;
use crate::file_store::StorageFormat;
use crate::storage_format::{
    byte_views, decode_storage, encode_storage, lemma_storage_injective, storage_bytes,
};
use crate::transaction::{views, Transaction, TransactionView};

verus! {

/// The LZ4 frame that the encoder of `lz4_flex` writes for `data`.
pub uninterp spec fn lz4_frame(data: Seq<u8>) -> Seq<u8>;

/// What came back holds exactly `data`.
pub open spec fn holds(r: Option<Vec<u8>>, data: Seq<u8>) -> bool {
    match r {
        Some(v) => v@ == data,
        None => false,
    }
}

/// Writes `data` through `FrameEncoder::new`, `write_all` and `finish`, into
/// a vector: the result is the frame of `data`. Over a vector no write fails,
/// and the encoder sizes its own block buffer, so that it always succeeds.
#[verifier::external_body]
fn lz4_compress(data: &Vec<u8>) -> (r: Option<Vec<u8>>)
    ensures
        holds(r, lz4_frame(data@)),
{
    let mut encoder = FrameEncoder::new(Vec::new());
    match encoder.write_all(data) {
        Ok(()) => encoder.finish().ok(),
        Err(_) => None,
    }
}

/// Reads `data` through `FrameDecoder::new` and `read_to_end`: a frame that
/// the encoder wrote for some bytes gives those bytes back.
#[verifier::external_body]
fn lz4_decompress(data: &Vec<u8>) -> (r: Option<Vec<u8>>)
    ensures
        forall|x: Seq<u8>| #[trigger] lz4_frame(x) == data@ ==> holds(r, x),
{
    let mut out = Vec::new();
    match FrameDecoder::new(data.as_slice()).read_to_end(&mut out) {
        Ok(_) => Some(out),
        Err(_) => None,
    }
}

/// The serialized forms of a run of transactions.
pub open spec fn payloads(txs: Seq<TransactionView>) -> Seq<Seq<u8>> {
    txs.map_values(|t: TransactionView| t.payload)
}

/// The transactions that a record with these serialized forms and this
/// starting version stands for: the `i`-th carries version
/// `starting_version + i`.
pub open spec fn restored(forms: Seq<Seq<u8>>, starting_version: u64) -> Seq<TransactionView> {
    Seq::new(
        forms.len(),
        |i: int| TransactionView { version: (starting_version + i) as u64, payload: forms[i] },
    )
}

/// The record of a batch: its serialized forms, and the version of its first
/// transaction.
pub open spec fn record_of(txs: Seq<TransactionView>) -> Seq<u8> {
    storage_bytes(payloads(txs), txs[0].version)
}

/// `data` is a record whose transactions all have a version.
pub open spec fn readable(data: Seq<u8>) -> bool {
    exists|forms: Seq<Seq<u8>>, starting_version: u64|
        data == #[trigger] storage_bytes(forms, starting_version) && starting_version + forms.len()
            <= u64::MAX + 1
}

/// The content of a batch file in the form in which the store holds it.
pub struct TransactionsInStorage {
    pub transactions: Vec<Transaction>,
    pub starting_version: Option<u64>,
}

/// A batch file.
pub struct FileEntry {
    bytes: Vec<u8>,
}

impl View for FileEntry {
    type V = Seq<u8>;

    closed spec fn view(&self) -> Seq<u8> {
        self.bytes@
    }
}

/// File round-trip, for the record: a batch of consecutive versions is what
/// its record stands for, and no other transactions or starting version
/// have the same record.
pub proof fn lemma_record_round_trip(
    txs: Seq<TransactionView>,
    forms: Seq<Seq<u8>>,
    starting_version: u64,
)
    requires
        txs.len() > 0,
        forall|i: int| 0 <= i < txs.len() ==> (#[trigger] txs[i]).version == txs[0].version + i,
        record_of(txs) == storage_bytes(forms, starting_version),
    ensures
        forms == payloads(txs),
        starting_version == txs[0].version,
        restored(forms, starting_version) == txs,
        starting_version + forms.len() <= u64::MAX + 1,
{
    lemma_storage_injective(payloads(txs), txs[0].version, forms, starting_version);
    assert(txs[txs.len() - 1].version == txs[0].version + txs.len() - 1);
    assert(restored(forms, starting_version) =~= txs);
}

/// Reads the transactions out of a record, where there is one: the `i`-th
/// transaction gets the version `starting_version + i`. There is no answer
/// for bytes that are no record, or for a record whose versions do not fit.
pub fn transactions_from_record(record: Option<Vec<u8>>) -> (r: Option<TransactionsInStorage>)
    ensures
        match r {
            Some(storage) => {
                &&& record matches Some(data)
                &&& storage.starting_version matches Some(starting_version)
                &&& data@ == storage_bytes(payloads(views(storage.transactions@)), starting_version)
                &&& views(storage.transactions@) == restored(
                    payloads(views(storage.transactions@)),
                    starting_version,
                )
                &&& readable(data@)
            },
            None => record matches Some(data) ==> !readable(data@),
        },
{
    let data = match record {
        Some(data) => data,
        None => {
            return None;
        },
    };
    let (forms, starting_version) = match decode_storage(&data) {
        Some(found) => found,
        None => {
            return None;
        },
    };
    let ghost all = byte_views(forms@);
    if forms.len() > 0 && (forms.len() - 1) as u64 > u64::MAX - starting_version {
        proof {
            assert forall|other: Seq<Seq<u8>>, version: u64|
                data@ == #[trigger] storage_bytes(other, version) implies !(version + other.len()
                <= u64::MAX + 1) by {
                lemma_storage_injective(all, starting_version, other, version);
            }
        }
        return None;
    }
    let mut transactions: Vec<Transaction> = Vec::new();
    for payload in it: forms
        invariant
            it.seq() == forms@,
            all == byte_views(forms@),
            forms@.len() == 0 || starting_version + forms@.len() - 1 <= u64::MAX,
            transactions@.len() == it.index(),
            forall|k: int|
                0 <= k < it.index() ==> (#[trigger] transactions@[k])@ == (TransactionView {
                    version: (starting_version + k) as u64,
                    payload: all[k],
                }),
    {
        let version = starting_version + transactions.len() as u64;
        transactions.push(Transaction { version, payload });
    }
    proof {
        assert(payloads(views(transactions@)) =~= all);
        assert(views(transactions@) =~= restored(all, starting_version));
    }
    Some(TransactionsInStorage { transactions, starting_version: Some(starting_version) })
}

impl FileEntry {
    /// The file with the given content.
    pub fn new(bytes: Vec<u8>, format: StorageFormat) -> (entry: FileEntry)
        ensures
            entry@ == bytes@,
    {
        match format {
            StorageFormat::Lz4CompressedProto => FileEntry { bytes },
        }
    }

    /// The record of a batch, as it goes to the encoder: the serialized form
    /// of each transaction in order, then the version of the first.
    pub fn record_for(transactions: Vec<Transaction>) -> (record: Vec<u8>)
        requires
            transactions@.len() > 0,
        ensures
            record@ == record_of(views(transactions@)),
    {
        let starting_version = transactions[0].version;
        let ghost txs = views(transactions@);
        let mut forms: Vec<Vec<u8>> = Vec::new();
        for transaction in it: transactions
            invariant
                it.seq().len() == txs.len(),
                forall|k: int| 0 <= k < txs.len() ==> (#[trigger] it.seq()[k])@ == txs[k],
                forms@.len() == it.index(),
                forall|k: int| 0 <= k < it.index() ==> (#[trigger] forms@[k])@ == txs[k].payload,
        {
            forms.push(transaction.payload);
        }
        proof {
            assert(byte_views(forms@) =~= payloads(txs));
        }
        encode_storage(&forms, starting_version)
    }

    /// The file made of what the encoder returned: the file with exactly
    /// those bytes where the encoder returned any, and no file where it
    /// failed.
    pub fn from_compressed(compressed: Option<Vec<u8>>, format: StorageFormat) -> (r: Option<
        FileEntry,
    >)
        ensures
            match compressed {
                Some(bytes) => r matches Some(entry) && entry@ == bytes@,
                None => r is None,
            },
    {
        match compressed {
            Some(bytes) => Some(FileEntry::new(bytes, format)),
            None => None,
        }
    }

    /// The file that holds `transactions`: their record, compressed. Every
    /// batch that is not empty has its file.
    pub fn from_transactions(transactions: Vec<Transaction>, format: StorageFormat) -> (r: Option<
        FileEntry,
    >)
        requires
            transactions@.len() > 0,
        ensures
            r matches Some(entry) && entry@ == lz4_frame(record_of(views(transactions@))),
    {
        let record = FileEntry::record_for(transactions);
        let compressed = match format {
            StorageFormat::Lz4CompressedProto => lz4_compress(&record),
        };
        FileEntry::from_compressed(compressed, format)
    }

    /// The content of the file.
    pub fn into_inner(self) -> (bytes: Vec<u8>)
        ensures
            bytes@ == self@,
    {
        self.bytes
    }

    /// The transactions that the file holds, where it can be read. A file
    /// that was written for a batch of consecutive versions gives that batch
    /// back: the same versions and the same bytes, in the same order.
    pub fn into_transactions_in_storage(self) -> (r: Option<TransactionsInStorage>)
        ensures
            forall|txs: Seq<TransactionView>|
                txs.len() > 0 && (forall|i: int|
                    0 <= i < txs.len() ==> (#[trigger] txs[i]).version == txs[0].version + i)
                    && self@ == lz4_frame(#[trigger] record_of(txs)) ==> {
                    &&& r matches Some(storage)
                    &&& views(storage.transactions@) == txs
                    &&& storage.starting_version == Some(txs[0].version)
                },
            r matches Some(storage) ==> storage.starting_version matches Some(starting_version)
                && views(storage.transactions@) == restored(
                payloads(views(storage.transactions@)),
                starting_version,
            ),
    {
        let record = lz4_decompress(&self.bytes);
        let r = transactions_from_record(record);
        proof {
            assert forall|txs: Seq<TransactionView>|
                txs.len() > 0 && (forall|i: int|
                    0 <= i < txs.len() ==> (#[trigger] txs[i]).version == txs[0].version + i)
                    && self@ == lz4_frame(#[trigger] record_of(txs)) implies {
                &&& r matches Some(storage)
                &&& views(storage.transactions@) == txs
                &&& storage.starting_version == Some(txs[0].version)
            } by {
                assert(holds(record, record_of(txs)));
                lemma_record_round_trip(txs, payloads(txs), txs[0].version);
                assert(readable(record_of(txs)));
                match r {
                    Some(storage) => {
                        let found = views(storage.transactions@);
                        lemma_record_round_trip(
                            txs,
                            payloads(found),
                            storage.starting_version->0,
                        );
                    },
                    None => {},
                }
            }
        }
        r
    }
}

} // verus!
