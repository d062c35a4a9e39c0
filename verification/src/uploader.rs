//! The uploader: gathers the transactions that the manager cache hands over
//! into batch files, closes a folder when its last version has arrived, and
//! says what has to be written to the file store.

use vstd::prelude::*;
use crate::file_store::{
    path_for_batch_metadata, path_for_version, BatchMetadata, FileStoreMetadata,
    FileStoreOperatorV2, StorageFormat,
};
use crate::transaction::{
    batch_size, contiguous_from, lemma_batch_size_prefix, Transaction,
};

verus! {

/// Versions per folder of the file store.
pub const NUM_TXNS_PER_FOLDER: u64 = 10000;

/// A batch file is written once it holds this many bytes: 20 MiB.
pub const MAX_SIZE_PER_FILE: usize = 20_971_520;

/// What is written when a folder is complete: the folder's metadata and the
/// root metadata, in this order, after the folder's last batch file.
pub struct FolderClose {
    pub batch_metadata_path: String,
    pub batch_metadata: BatchMetadata,
    pub root_metadata: FileStoreMetadata,
}

/// `FolderClose` as a mathematical value.
pub struct FolderCloseView {
    pub batch_metadata_path: Seq<char>,
    pub files: Seq<(u64, usize)>,
    pub root_metadata: FileStoreMetadata,
}

impl View for FolderClose {
    type V = FolderCloseView;

    open spec fn view(&self) -> FolderCloseView {
        FolderCloseView {
            batch_metadata_path: self.batch_metadata_path@,
            files: self.batch_metadata.files@,
            root_metadata: self.root_metadata,
        }
    }
}

/// One batch file to write: where, what, and what follows it if the folder is
/// complete with it.
pub struct FileStoreDump {
    pub path: String,
    pub first_version: u64,
    pub transactions: Vec<Transaction>,
    pub folder_close: Option<FolderClose>,
}

/// `FileStoreDump` as a mathematical value.
pub struct DumpView {
    pub path: Seq<char>,
    pub first_version: u64,
    pub transactions: Seq<Transaction>,
    pub folder_close: Option<FolderCloseView>,
}

impl View for FileStoreDump {
    type V = DumpView;

    open spec fn view(&self) -> DumpView {
        DumpView {
            path: self.path@,
            first_version: self.first_version,
            transactions: self.transactions@,
            folder_close: match self.folder_close {
                Some(c) => Some(c@),
                None => None,
            },
        }
    }
}

/// The views of a run of dumps, in order.
pub open spec fn dump_views(dumps: Seq<FileStoreDump>) -> Seq<DumpView> {
    dumps.map_values(|d: FileStoreDump| d@)
}

/// The uploader as a mathematical value.
pub struct UploaderState {
    pub chain_id: u64,
    pub num_transactions_per_folder: u64,
    pub max_size_per_file: usize,
    /// Transactions taken in and not yet written.
    pub buffer: Seq<Transaction>,
    /// The files written to the folder that is being filled.
    pub files: Seq<(u64, usize)>,
    /// The next version to ask the cache for.
    pub version: u64,
}

impl UploaderState {
    /// `t` is the last transaction of its folder.
    pub open spec fn end_batch(self, t: Transaction) -> bool {
        (t.version + 1) % (self.num_transactions_per_folder as int) == 0
    }

    /// Taking in `t` completes a batch file: the size limit is reached, or
    /// the folder ends.
    pub open spec fn flushes(self, t: Transaction) -> bool {
        batch_size(self.buffer) + t.size() >= self.max_size_per_file || self.end_batch(t)
    }

    /// The entry of the batch file that taking in `t` completes.
    pub open spec fn file_entry(self, t: Transaction) -> (u64, usize) {
        (self.buffer.push(t)[0].version, (batch_size(self.buffer) + t.size()) as usize)
    }

    /// The uploader after it took in `t`.
    pub open spec fn after(self, t: Transaction) -> UploaderState {
        if !self.flushes(t) {
            UploaderState { buffer: self.buffer.push(t), ..self }
        } else if self.end_batch(t) {
            UploaderState { buffer: Seq::empty(), files: Seq::empty(), ..self }
        } else {
            UploaderState {
                buffer: Seq::empty(),
                files: self.files.push(self.file_entry(t)),
                ..self
            }
        }
    }

    /// What taking in `t` makes the uploader write, if anything.
    pub open spec fn dump(self, t: Transaction) -> Option<DumpView> {
        if !self.flushes(t) {
            None
        } else {
            let first_version = self.file_entry(t).0;
            Some(
                DumpView {
                    path: path_for_version(first_version, self.num_transactions_per_folder),
                    first_version,
                    transactions: self.buffer.push(t),
                    folder_close: if self.end_batch(t) {
                        Some(
                            FolderCloseView {
                                batch_metadata_path: path_for_batch_metadata(
                                    first_version,
                                    self.num_transactions_per_folder,
                                ),
                                files: self.files.push(self.file_entry(t)),
                                root_metadata: FileStoreMetadata {
                                    chain_id: self.chain_id,
                                    version: (t.version + 1) as u64,
                                    storage_format: StorageFormat::Lz4CompressedProto,
                                },
                            },
                        )
                    } else {
                        None
                    },
                },
            )
        }
    }

    /// The uploader after it took in `txs`, one after the other.
    pub open spec fn run(self, txs: Seq<Transaction>) -> UploaderState
        decreases txs.len(),
    {
        if txs.len() == 0 {
            self
        } else {
            self.run(txs.drop_last()).after(txs.last())
        }
    }

    /// What taking in `txs`, one after the other, makes the uploader write,
    /// in order.
    pub open spec fn run_dumps(self, txs: Seq<Transaction>) -> Seq<DumpView>
        decreases txs.len(),
    {
        if txs.len() == 0 {
            Seq::empty()
        } else {
            let before = self.run_dumps(txs.drop_last());
            match self.run(txs.drop_last()).dump(txs.last()) {
                Some(d) => before.push(d),
                None => before,
            }
        }
    }

    /// The uploader with its cursor moved on by `count` versions.
    pub open spec fn advance(self, count: int) -> UploaderState {
        UploaderState { version: (self.version + count) as u64, ..self }
    }

    /// What is buffered are the versions just below the cursor.
    pub open spec fn ordered(self) -> bool {
        &&& self.buffer.len() <= self.version
        &&& contiguous_from(self.buffer, self.version - self.buffer.len())
    }
}

/// The version that a dump writes to the root metadata, if it closes a
/// folder.
pub open spec fn root_version(d: DumpView) -> Option<u64> {
    match d.folder_close {
        Some(c) => Some(c.root_metadata.version),
        None => None,
    }
}

/// The root metadata moves on folder boundaries only: whenever a folder is
/// closed, the version written to the root metadata is the one after the
/// transaction just taken in, and a multiple of the folder size.
pub proof fn lemma_root_on_folder_boundary(state: UploaderState, t: Transaction)
    requires
        state.dump(t) matches Some(d) && d.folder_close is Some,
        t.version < u64::MAX,
    ensures
        state.dump(t)->0.folder_close->0.root_metadata.version == t.version + 1,
        state.dump(t)->0.folder_close->0.root_metadata.version % state.num_transactions_per_folder
            == 0,
{
}

/// A batch file holds at least one transaction, and begins with the version
/// that names it.
pub open spec fn well_named(d: DumpView) -> bool {
    d.transactions.len() > 0 && d.first_version == d.transactions[0].version
}

/// Every batch file that the uploader writes is well named, and holds
/// consecutive versions if the uploader takes in consecutive versions on
/// top of those that it holds.
pub proof fn lemma_dump_contiguous(state: UploaderState, t: Transaction, from: int)
    requires
        state.dump(t) is Some,
    ensures
        well_named(state.dump(t)->0),
        contiguous_from(state.buffer.push(t), from) ==> contiguous_from(
            state.dump(t)->0.transactions,
            state.dump(t)->0.first_version as int,
        ),
{
}

/// Monotonicity of the uploader: when the uploader holds the versions just
/// below its cursor and takes in consecutive versions from its cursor on,
/// then every version that it writes to the root metadata lies beyond the
/// cursor it began with and at or below the cursor it ends with, each is a
/// multiple of the folder size, later ones are greater than earlier ones, and
/// the uploader again holds the versions just below its cursor. Every batch
/// file written on the way holds consecutive versions, beginning with the
/// one that names it.
pub proof fn lemma_run_monotonic(state: UploaderState, txs: Seq<Transaction>)
    requires
        state.ordered(),
        contiguous_from(txs, state.version as int),
        state.version + txs.len() <= u64::MAX,
        state.num_transactions_per_folder > 0,
    ensures
        state.run(txs).advance(txs.len() as int).ordered(),
        state.run(txs).version == state.version,
        forall|i: int|
            0 <= i < state.run_dumps(txs).len() && root_version(
                #[trigger] state.run_dumps(txs)[i],
            ) is Some ==> {
                &&& state.version < root_version(state.run_dumps(txs)[i])->0 <= state.version
                    + txs.len()
                &&& root_version(state.run_dumps(txs)[i])->0 % state.num_transactions_per_folder
                    == 0
            },
        forall|i: int, j: int|
            0 <= i < j < state.run_dumps(txs).len() && root_version(
                #[trigger] state.run_dumps(txs)[i],
            ) is Some && root_version(#[trigger] state.run_dumps(txs)[j]) is Some ==> root_version(
                state.run_dumps(txs)[i],
            )->0 < root_version(state.run_dumps(txs)[j])->0,
        forall|i: int|
            0 <= i < state.run_dumps(txs).len() ==> well_named(#[trigger] state.run_dumps(txs)[i])
                && contiguous_from(
                state.run_dumps(txs)[i].transactions,
                state.run_dumps(txs)[i].first_version as int,
            ),
    decreases txs.len(),
{
    if txs.len() > 0 {
        let head = txs.drop_last();
        let t = txs.last();
        assert forall|i: int| 0 <= i < head.len() implies (#[trigger] head[i]).version
            == state.version + i by {
            assert(head[i] == txs[i]);
        }
        lemma_run_monotonic(state, head);
        let mid = state.run(head);
        let before = state.run_dumps(head);
        assert(t.version == state.version + head.len());
        let after = mid.after(t).advance(txs.len() as int);
        let moved = mid.advance(head.len() as int);
        assert forall|i: int| 0 <= i < after.buffer.len() implies (#[trigger] after.buffer[i]).version
            == after.version - after.buffer.len() + i by {
            if i < mid.buffer.len() {
                assert(after.buffer[i] == moved.buffer[i]);
            }
        }
        let all = state.run_dumps(txs);
        lemma_buffer_bound(state, head);
        assert forall|i: int| 0 <= i < all.len() && root_version(#[trigger] all[i]) is Some implies {
            &&& state.version < root_version(all[i])->0 <= state.version + txs.len()
            &&& root_version(all[i])->0 % state.num_transactions_per_folder == 0
        } by {
            if i < before.len() {
                assert(all[i] == before[i]);
            } else {
                assert(all[i] == mid.dump(t)->0);
                assert(root_version(all[i])->0 == t.version + 1);
            }
        }
        assert forall|i: int| 0 <= i < all.len() implies well_named(#[trigger] all[i])
            && contiguous_from(all[i].transactions, all[i].first_version as int) by {
            if i < before.len() {
                assert(all[i] == before[i]);
            } else {
                assert(all[i] == mid.dump(t)->0);
                let whole = mid.buffer.push(t);
                let from = moved.version - mid.buffer.len();
                assert forall|k: int| 0 <= k < whole.len() implies (#[trigger] whole[k]).version
                    == from + k by {
                    if k < mid.buffer.len() {
                        assert(whole[k] == moved.buffer[k]);
                    }
                }
                lemma_dump_contiguous(mid, t, from);
            }
        }
        assert forall|i: int, j: int|
            0 <= i < j < all.len() && root_version(#[trigger] all[i]) is Some && root_version(
                #[trigger] all[j],
            ) is Some implies root_version(all[i])->0 < root_version(all[j])->0 by {
            assert(all[i] == before[i]);
            if j < before.len() {
                assert(all[j] == before[j]);
            }
        }
    }
}

/// Gathers transactions into batch files.
pub struct FileStoreUploader {
    operator: FileStoreOperatorV2,
    buffer: Vec<Transaction>,
    buffer_size: usize,
    buffer_batch_metadata: BatchMetadata,
    version: u64,
    max_size_per_file: usize,
}

impl View for FileStoreUploader {
    type V = UploaderState;

    closed spec fn view(&self) -> UploaderState {
        UploaderState {
            chain_id: self.operator@.chain_id,
            num_transactions_per_folder: self.operator@.num_transactions_per_folder,
            max_size_per_file: self.max_size_per_file,
            buffer: self.buffer@,
            files: self.buffer_batch_metadata.files@,
            version: self.version,
        }
    }
}

impl FileStoreUploader {
    /// The representation is sound: folders are not empty, and the byte
    /// counter agrees with the buffer.
    pub closed spec fn wf(&self) -> bool {
        &&& self.operator.wf()
        &&& self.buffer_size == batch_size(self.buffer@)
    }

    /// In a well-formed uploader a folder holds at least one version.
    pub proof fn lemma_wf(&self)
        requires
            self.wf(),
        ensures
            self@.num_transactions_per_folder > 0,
    {
    }

    /// An uploader for the store of chain `chain_id` that carries on at
    /// `version`, the version that the root metadata holds.
    pub fn new(chain_id: u64, version: u64) -> (uploader: FileStoreUploader)
        ensures
            uploader.wf(),
            uploader@ == (UploaderState {
                chain_id,
                num_transactions_per_folder: NUM_TXNS_PER_FOLDER,
                max_size_per_file: MAX_SIZE_PER_FILE,
                buffer: Seq::empty(),
                files: Seq::empty(),
                version,
            }),
    {
        FileStoreUploader::with_limits(chain_id, version, NUM_TXNS_PER_FOLDER, MAX_SIZE_PER_FILE)
    }

    /// An uploader with folders of `num_transactions_per_folder` versions
    /// that writes a batch file once it holds `max_size_per_file` bytes.
    pub fn with_limits(
        chain_id: u64,
        version: u64,
        num_transactions_per_folder: u64,
        max_size_per_file: usize,
    ) -> (uploader: FileStoreUploader)
        requires
            num_transactions_per_folder > 0,
        ensures
            uploader.wf(),
            uploader@ == (UploaderState {
                chain_id,
                num_transactions_per_folder,
                max_size_per_file,
                buffer: Seq::empty(),
                files: Seq::empty(),
                version,
            }),
    {
        FileStoreUploader {
            operator: FileStoreOperatorV2::new(chain_id, num_transactions_per_folder),
            buffer: Vec::new(),
            buffer_size: 0,
            buffer_batch_metadata: BatchMetadata::new(),
            version,
            max_size_per_file,
        }
    }

    /// The next version to ask the cache for.
    pub fn version(&self) -> (v: u64)
        ensures
            v == self@.version,
    {
        self.version
    }

    /// Bytes taken in and not yet written.
    pub fn buffer_size(&self) -> (n: usize)
        requires
            self.wf(),
        ensures
            n == batch_size(self@.buffer),
    {
        self.buffer_size
    }

    /// The byte budget of one request to the cache.
    pub fn max_size_per_file(&self) -> (n: usize)
        ensures
            n == self@.max_size_per_file,
    {
        self.max_size_per_file
    }

    /// Takes in one transaction. Where that completes a batch file, because
    /// the size limit is reached or the folder ends with this transaction,
    /// the answer says what to write, and the buffer is empty again.
    pub fn buffer_and_maybe_dump_transactions_to_file(&mut self, transaction: Transaction) -> (r:
        Option<FileStoreDump>)
        requires
            old(self).wf(),
            transaction.version < u64::MAX,
            batch_size(old(self)@.buffer) + transaction.size() <= usize::MAX,
        ensures
            final(self).wf(),
            final(self)@ == old(self)@.after(transaction),
            match r {
                Some(d) => old(self)@.dump(transaction) == Some(d@),
                None => old(self)@.dump(transaction) is None,
            },
    {
        let end_batch = (transaction.version + 1) % self.operator.num_transactions_per_folder()
            == 0;
        let size = transaction.encoded_len();
        proof {
            assert(self.buffer@.push(transaction).drop_last() =~= self.buffer@);
        }
        self.buffer.push(transaction);
        self.buffer_size = self.buffer_size + size;
        if self.buffer_size >= self.max_size_per_file || end_batch {
            Some(self.dump_transactions_to_file(end_batch))
        } else {
            None
        }
    }

    /// Hands out the buffer as one batch file. The folder's metadata and the
    /// root metadata go with it exactly if `end_batch` says that the folder
    /// ends here; the root metadata then holds the version after the last
    /// one of the buffer.
    pub fn dump_transactions_to_file(&mut self, end_batch: bool) -> (d: FileStoreDump)
        requires
            old(self).wf(),
            old(self)@.buffer.len() > 0,
            end_batch ==> old(self)@.buffer.last().version < u64::MAX,
        ensures
            final(self).wf(),
            final(self)@ == (UploaderState {
                buffer: Seq::empty(),
                files: if end_batch {
                    Seq::empty()
                } else {
                    old(self)@.files.push(
                        (old(self)@.buffer[0].version, batch_size(old(self)@.buffer) as usize),
                    )
                },
                ..old(self)@
            }),
            d@ == (DumpView {
                path: path_for_version(
                    old(self)@.buffer[0].version,
                    old(self)@.num_transactions_per_folder,
                ),
                first_version: old(self)@.buffer[0].version,
                transactions: old(self)@.buffer,
                folder_close: if end_batch {
                    Some(
                        FolderCloseView {
                            batch_metadata_path: path_for_batch_metadata(
                                old(self)@.buffer[0].version,
                                old(self)@.num_transactions_per_folder,
                            ),
                            files: old(self)@.files.push(
                                (
                                    old(self)@.buffer[0].version,
                                    batch_size(old(self)@.buffer) as usize,
                                ),
                            ),
                            root_metadata: FileStoreMetadata {
                                chain_id: old(self)@.chain_id,
                                version: (old(self)@.buffer.last().version + 1) as u64,
                                storage_format: StorageFormat::Lz4CompressedProto,
                            },
                        },
                    )
                } else {
                    None
                },
            }),
    {
        let first_version = self.buffer[0].version;
        let last_version = self.buffer[self.buffer.len() - 1].version;
        let mut transactions: Vec<Transaction> = Vec::new();
        std::mem::swap(&mut self.buffer, &mut transactions);
        let data_size = self.buffer_size;
        self.buffer_size = 0;
        let path = self.operator.get_path_for_version(first_version);
        self.buffer_batch_metadata.files.push((first_version, data_size));
        let folder_close = if end_batch {
            let batch_metadata_path = self.operator.get_path_for_batch_metadata(first_version);
            let mut batch_metadata = BatchMetadata::new();
            std::mem::swap(&mut self.buffer_batch_metadata, &mut batch_metadata);
            let root_metadata = self.operator.update_file_store_metadata(last_version + 1);
            Some(FolderClose { batch_metadata_path, batch_metadata, root_metadata })
        } else {
            None
        };
        FileStoreDump { path, first_version, transactions, folder_close }
    }

    /// Takes in what the cache returned for the uploader's cursor, one
    /// transaction after the other, and moves the cursor on by their number.
    /// The answer lists what to write, in the order in which to write it.
    pub fn upload_batch(&mut self, transactions: Vec<Transaction>) -> (dumps: Vec<FileStoreDump>)
        requires
            old(self).wf(),
            old(self)@.version + transactions@.len() <= u64::MAX,
            batch_size(old(self)@.buffer) + batch_size(transactions@) <= usize::MAX,
            forall|i: int|
                0 <= i < transactions@.len() ==> (#[trigger] transactions@[i]).version < u64::MAX,
        ensures
            final(self).wf(),
            final(self)@ == old(self)@.run(transactions@).advance(transactions@.len() as int),
            dump_views(dumps@) == old(self)@.run_dumps(transactions@),
    {
        let ghost pre = self@;
        let ghost txs = transactions@;
        let len = transactions.len();
        let mut dumps: Vec<FileStoreDump> = Vec::new();
        proof {
            assert(txs.take(0) =~= Seq::<Transaction>::empty());
            assert(dump_views(dumps@) =~= Seq::<DumpView>::empty());
            lemma_buffer_bound(pre, txs.take(0));
        }
        for transaction in it: transactions
            invariant
                it.seq() == txs,
                self.wf(),
                self@ == pre.run(txs.take(it.index())),
                dump_views(dumps@) == pre.run_dumps(txs.take(it.index())),
                batch_size(self@.buffer) <= batch_size(pre.buffer) + batch_size(
                    txs.take(it.index()),
                ),
                batch_size(pre.buffer) + batch_size(txs) <= usize::MAX,
                forall|i: int| 0 <= i < txs.len() ==> (#[trigger] txs[i]).version < u64::MAX,
        {
            let ghost i = it.index();
            let ghost before = dumps@;
            proof {
                lemma_batch_size_prefix(txs, i);
                assert(txs.take(i + 1).drop_last() =~= txs.take(i));
                lemma_buffer_bound(pre, txs.take(i + 1));
            }
            match self.buffer_and_maybe_dump_transactions_to_file(transaction) {
                Some(d) => {
                    dumps.push(d);
                    proof {
                        assert(dump_views(dumps@) =~= dump_views(before).push(d@));
                    }
                },
                None => {},
            }
        }
        proof {
            assert(txs.take(txs.len() as int) =~= txs);
            lemma_buffer_bound(pre, txs);
        }
        self.version = self.version + len as u64;
        dumps
    }
}

/// What is buffered after a run never exceeds what was buffered before plus
/// what was taken in, and the cursor stays where it was.
pub proof fn lemma_buffer_bound(state: UploaderState, txs: Seq<Transaction>)
    ensures
        batch_size(state.run(txs).buffer) <= batch_size(state.buffer) + batch_size(txs),
        state.run(txs).version == state.version,
        state.run(txs).chain_id == state.chain_id,
        state.run(txs).num_transactions_per_folder == state.num_transactions_per_folder,
        state.run(txs).max_size_per_file == state.max_size_per_file,
    decreases txs.len(),
{
    if txs.len() > 0 {
        lemma_buffer_bound(state, txs.drop_last());
        let mid = state.run(txs.drop_last());
        assert(mid.buffer.push(txs.last()).drop_last() =~= mid.buffer);
    }
}

} // verus!
