//! The layout of the file store: where each batch file and each metadata
//! file lives, which files a range read has to open, and what the root
//! metadata says about how far the store has come.

use vstd::prelude::*;
use crate::paths::{decimal, join, join_path, u64_to_decimal};
use crate::transaction::Transaction;

verus! {

/// The name of a metadata file, at the root and in every folder.
pub const METADATA_FILE_NAME: &'static str = "metadata.json";

/// Pause between two attempts to read a file, in milliseconds.
pub const FILE_READ_BACKOFF_MS: u64 = 10;

/// The characters of `METADATA_FILE_NAME`.
pub open spec fn metadata_file_name() -> Seq<char> {
    METADATA_FILE_NAME@
}

/// Name of the folder that holds `version`: the folder's number in decimal.
pub open spec fn folder_name(version: u64, num_transactions_per_folder: u64) -> Seq<char> {
    decimal((version / num_transactions_per_folder) as nat)
}

/// Path of the batch file that begins with `version`: folder, `/`, version.
pub open spec fn path_for_version(version: u64, num_transactions_per_folder: u64) -> Seq<char> {
    join_path(folder_name(version, num_transactions_per_folder), decimal(version as nat))
}

/// Path of the metadata file of the folder that holds `version`.
pub open spec fn path_for_batch_metadata(version: u64, num_transactions_per_folder: u64) -> Seq<
    char,
> {
    join_path(folder_name(version, num_transactions_per_folder), metadata_file_name())
}

/// The files of one folder: for each, the version of its first transaction
/// and the number of bytes of its transactions, in the order in which they
/// were written.
pub struct BatchMetadata {
    pub files: Vec<(u64, usize)>,
}

impl BatchMetadata {
    /// The metadata of a folder without files.
    pub fn new() -> (m: BatchMetadata)
        ensures
            m.files@ == Seq::<(u64, usize)>::empty(),
    {
        BatchMetadata { files: Vec::new() }
    }

    /// Index of the last file whose first version is at or below `version`,
    /// if there is one.
    pub open spec fn file_index(files: Seq<(u64, usize)>, version: u64) -> Option<int>
        decreases files.len(),
    {
        if files.len() == 0 {
            None
        } else if files.last().0 <= version {
            Some(files.len() - 1)
        } else {
            BatchMetadata::file_index(files.drop_last(), version)
        }
    }

    /// `file_index` is the highest index of a file that begins at or below
    /// `version`, and there is none exactly if no file does.
    pub proof fn lemma_file_index(files: Seq<(u64, usize)>, version: u64)
        ensures
            match BatchMetadata::file_index(files, version) {
                Some(i) => 0 <= i < files.len() && files[i].0 <= version && forall|k: int|
                    i < k < files.len() ==> (#[trigger] files[k]).0 > version,
                None => forall|k: int| 0 <= k < files.len() ==> (#[trigger] files[k]).0 > version,
            },
        decreases files.len(),
    {
        if files.len() > 0 && files.last().0 > version {
            BatchMetadata::lemma_file_index(files.drop_last(), version);
            let rest = files.drop_last();
            match BatchMetadata::file_index(rest, version) {
                Some(i) => {
                    assert forall|k: int| i < k < files.len() implies (#[trigger] files[k]).0
                        > version by {
                        if k < rest.len() {
                            assert(rest[k] == files[k]);
                        }
                    }
                },
                None => {
                    assert forall|k: int| 0 <= k < files.len() implies (#[trigger] files[k]).0
                        > version by {
                        if k < rest.len() {
                            assert(rest[k] == files[k]);
                        }
                    }
                },
            }
        }
    }

    /// Finds the file in which a read at `version` begins: the last one whose
    /// first version is at or below `version`.
    pub fn find_file_index(&self, version: u64) -> (r: Option<usize>)
        ensures
            match r {
                Some(i) => BatchMetadata::file_index(self.files@, version) == Some(i as int),
                None => BatchMetadata::file_index(self.files@, version) is None,
            },
    {
        let mut i = self.files.len();
        assert(self.files@.take(i as int) =~= self.files@);
        while i > 0
            invariant
                i <= self.files@.len(),
                BatchMetadata::file_index(self.files@, version) == BatchMetadata::file_index(
                    self.files@.take(i as int),
                    version,
                ),
            decreases i,
        {
            proof {
                assert(self.files@.take(i as int).drop_last() =~= self.files@.take(i - 1));
            }
            if self.files[i - 1].0 <= version {
                return Some(i - 1);
            }
            i = i - 1;
        }
        None
    }
}

/// The first versions of the files that a range read at `version` opens, in
/// order: from the file in which `version` lies to the end of the folder, and
/// no more than `max_files` of them where a maximum is given.
pub open spec fn files_to_read(
    files: Seq<(u64, usize)>,
    version: u64,
    max_files: Option<usize>,
) -> Seq<u64> {
    match BatchMetadata::file_index(files, version) {
        None => Seq::empty(),
        Some(first) => {
            let end = match max_files {
                Some(m) => if first + m < files.len() {
                    first + m
                } else {
                    files.len() as int
                },
                None => files.len() as int,
            };
            Seq::new((end - first) as nat, |k: int| files[first + k].0)
        },
    }
}

/// What a reader is handed of a file that begins at `file_version` when it
/// asked from `version` on: the leading transactions below `version` are
/// left out.
pub open spec fn trimmed(transactions: Seq<Transaction>, version: u64, file_version: u64) -> Seq<
    Transaction,
> {
    let skip = if version > file_version {
        version - file_version
    } else {
        0
    };
    if skip >= transactions.len() {
        Seq::empty()
    } else {
        transactions.skip(skip)
    }
}

/// Leaves out the leading transactions of a file that the reader did not ask
/// for.
pub fn trim_to_version(transactions: Vec<Transaction>, version: u64, file_version: u64) -> (r: Vec<
    Transaction,
>)
    ensures
        r@ == trimmed(transactions@, version, file_version),
{
    let mut transactions = transactions;
    let ghost all = transactions@;
    let skip = if version > file_version {
        version - file_version
    } else {
        0
    };
    if skip == 0 {
        assert(all.skip(0) =~= all);
        return transactions;
    }
    if skip >= transactions.len() as u64 {
        return Vec::new();
    }
    let rest = transactions.split_off(skip as usize);
    assert(rest@ =~= all.skip(skip as int));
    rest
}

/// How the transactions of a batch file are stored.
#[derive(Clone, Copy, Debug, PartialEq, Eq, Structural)]
pub enum StorageFormat {
    /// Serialized, then compressed as an LZ4 frame.
    Lz4CompressedProto,
}

/// The root metadata: which chain the store belongs to, and the next version
/// that the store has not taken yet.
#[derive(Clone, Copy, Debug, PartialEq, Eq, Structural)]
pub struct FileStoreMetadata {
    pub chain_id: u64,
    pub version: u64,
    pub storage_format: StorageFormat,
}

impl FileStoreMetadata {
    pub fn new(chain_id: u64, version: u64, storage_format: StorageFormat) -> (m:
        FileStoreMetadata)
        ensures
            m == (FileStoreMetadata { chain_id, version, storage_format }),
    {
        FileStoreMetadata { chain_id, version, storage_format }
    }
}

/// What to do after an attempt to read a file has failed.
#[derive(Clone, Copy, Debug, PartialEq, Eq, Structural)]
pub enum RetryDecision {
    /// Wait `backoff_ms` milliseconds and try again, with `retries_left`
    /// further attempts after that one.
    Retry { retries_left: u8, backoff_ms: u64 },
    /// No attempt is left: the read fails with the last error.
    GiveUp,
}

/// Decides what follows a failed read when `retries` attempts are left.
pub fn after_failed_read(retries: u8) -> (d: RetryDecision)
    ensures
        d == if retries == 0 {
            RetryDecision::GiveUp
        } else {
            RetryDecision::Retry {
                retries_left: (retries - 1) as u8,
                backoff_ms: FILE_READ_BACKOFF_MS,
            }
        },
{
    if retries == 0 {
        RetryDecision::GiveUp
    } else {
        RetryDecision::Retry { retries_left: retries - 1, backoff_ms: FILE_READ_BACKOFF_MS }
    }
}

/// Knows the layout of one chain's file store and remembers the highest
/// version that the root metadata has been seen to hold.
pub struct FileStoreOperatorV2 {
    chain_id: u64,
    num_transactions_per_folder: u64,
    cached_file_store_version: u64,
}

/// `FileStoreOperatorV2` as a mathematical value.
pub struct FileStoreOperatorView {
    pub chain_id: u64,
    pub num_transactions_per_folder: u64,
    pub cached_file_store_version: u64,
}

impl View for FileStoreOperatorV2 {
    type V = FileStoreOperatorView;

    closed spec fn view(&self) -> FileStoreOperatorView {
        FileStoreOperatorView {
            chain_id: self.chain_id,
            num_transactions_per_folder: self.num_transactions_per_folder,
            cached_file_store_version: self.cached_file_store_version,
        }
    }
}

impl FileStoreOperatorV2 {
    /// A folder holds at least one version.
    pub open spec fn wf(&self) -> bool {
        self@.num_transactions_per_folder > 0
    }

    /// An operator for the store of chain `chain_id`, with folders of
    /// `num_transactions_per_folder` versions, that has not seen the root
    /// metadata yet.
    pub fn new(chain_id: u64, num_transactions_per_folder: u64) -> (op: FileStoreOperatorV2)
        requires
            num_transactions_per_folder > 0,
        ensures
            op.wf(),
            op@ == (FileStoreOperatorView {
                chain_id,
                num_transactions_per_folder,
                cached_file_store_version: 0,
            }),
    {
        FileStoreOperatorV2 { chain_id, num_transactions_per_folder, cached_file_store_version: 0 }
    }

    pub fn chain_id(&self) -> (id: u64)
        ensures
            id == self@.chain_id,
    {
        self.chain_id
    }

    pub fn num_transactions_per_folder(&self) -> (n: u64)
        ensures
            n == self@.num_transactions_per_folder,
    {
        self.num_transactions_per_folder
    }

    /// Name of the folder that holds `version`.
    pub fn get_folder_name(&self, version: u64) -> (name: String)
        requires
            self.wf(),
        ensures
            name@ == folder_name(version, self@.num_transactions_per_folder),
    {
        u64_to_decimal(version / self.num_transactions_per_folder)
    }

    /// Path of the batch file whose first transaction is `version`.
    pub fn get_path_for_version(&self, version: u64) -> (path: String)
        requires
            self.wf(),
        ensures
            path@ == path_for_version(version, self@.num_transactions_per_folder),
    {
        let folder = self.get_folder_name(version);
        let file = u64_to_decimal(version);
        join(folder.as_str(), file.as_str())
    }

    /// Path of the metadata file of the folder that holds `version`.
    pub fn get_path_for_batch_metadata(&self, version: u64) -> (path: String)
        requires
            self.wf(),
        ensures
            path@ == path_for_batch_metadata(version, self@.num_transactions_per_folder),
    {
        let folder = self.get_folder_name(version);
        join(folder.as_str(), METADATA_FILE_NAME)
    }

    /// The first versions of the files that a read at `version` has to open,
    /// in order, given the metadata of the folder of `version`. None is
    /// opened where no file begins at or below `version`.
    pub fn get_transaction_batch(
        &self,
        batch_metadata: &BatchMetadata,
        version: u64,
        max_files: Option<usize>,
    ) -> (r: Vec<u64>)
        ensures
            r@ == files_to_read(batch_metadata.files@, version, max_files),
    {
        let mut result: Vec<u64> = Vec::new();
        let first = match batch_metadata.find_file_index(version) {
            Some(i) => i,
            None => {
                assert(result@ =~= files_to_read(batch_metadata.files@, version, max_files));
                return result;
            },
        };
        proof {
            BatchMetadata::lemma_file_index(batch_metadata.files@, version);
        }
        let len = batch_metadata.files.len();
        let end = match max_files {
            Some(m) => if m < len - first {
                first + m
            } else {
                len
            },
            None => len,
        };
        let mut i = first;
        while i < end
            invariant
                first <= i <= end <= len,
                len == batch_metadata.files@.len(),
                result@ == Seq::new(
                    (i - first) as nat,
                    |k: int| batch_metadata.files@[first + k].0,
                ),
            decreases end - i,
        {
            result.push(batch_metadata.files[i].0);
            i = i + 1;
            assert(result@ =~= Seq::new(
                (i - first) as nat,
                |k: int| batch_metadata.files@[first + k].0,
            ));
        }
        result
    }

    /// The root metadata to write where the store has none yet: version 0 of
    /// this chain. Nothing is to be written over metadata that is there.
    pub fn maybe_init_metadata(&self, existing: Option<FileStoreMetadata>) -> (r: Option<
        FileStoreMetadata,
    >)
        ensures
            r == match existing {
                Some(_) => None,
                None => Some(
                    FileStoreMetadata {
                        chain_id: self@.chain_id,
                        version: 0,
                        storage_format: StorageFormat::Lz4CompressedProto,
                    },
                ),
            },
    {
        match existing {
            Some(_) => None,
            None => Some(self.update_file_store_metadata(0)),
        }
    }

    /// The root metadata that says that the store has taken every version
    /// below `version`.
    pub fn update_file_store_metadata(&self, version: u64) -> (m: FileStoreMetadata)
        ensures
            m == (FileStoreMetadata {
                chain_id: self@.chain_id,
                version,
                storage_format: StorageFormat::Lz4CompressedProto,
            }),
    {
        FileStoreMetadata::new(self.chain_id, version, StorageFormat::Lz4CompressedProto)
    }

    /// Whether the root metadata belongs to this operator's chain.
    pub fn same_chain(&self, metadata: &FileStoreMetadata) -> (b: bool)
        ensures
            b == (metadata.chain_id == self@.chain_id),
    {
        metadata.chain_id == self.chain_id
    }

    /// The next version that the store has not taken yet, as the root
    /// metadata just read says it, or `None` where the store has no root
    /// metadata. The highest version seen is remembered.
    pub fn get_latest_version(&mut self, metadata: Option<FileStoreMetadata>) -> (r: Option<u64>)
        requires
            metadata matches Some(m) ==> m.chain_id == old(self)@.chain_id,
        ensures
            r == match metadata {
                Some(m) => Some(m.version),
                None => None,
            },
            final(self)@ == (FileStoreOperatorView {
                cached_file_store_version: match metadata {
                    Some(m) if m.version > old(self)@.cached_file_store_version => m.version,
                    _ => old(self)@.cached_file_store_version,
                },
                ..old(self)@
            }),
    {
        match metadata {
            Some(m) => {
                if m.version > self.cached_file_store_version {
                    self.cached_file_store_version = m.version;
                }
                Some(m.version)
            },
            None => None,
        }
    }

    /// Whether what was seen of the root metadata so far already shows that
    /// the store holds `version`.
    pub fn can_serve_from_cached(&self, version: u64) -> (b: bool)
        ensures
            b == (self@.cached_file_store_version > version),
    {
        self.cached_file_store_version > version
    }

    /// Whether the store holds `version`, given the root metadata just read:
    /// it does if the metadata's version is beyond it.
    pub fn can_serve(&mut self, version: u64, metadata: FileStoreMetadata) -> (b: bool)
        requires
            metadata.chain_id == old(self)@.chain_id,
        ensures
            b == (metadata.version > version),
            final(self)@ == (FileStoreOperatorView {
                cached_file_store_version: if metadata.version > old(
                    self,
                )@.cached_file_store_version {
                    metadata.version
                } else {
                    old(self)@.cached_file_store_version
                },
                ..old(self)@
            }),
    {
        match self.get_latest_version(Some(metadata)) {
            Some(latest) => latest > version,
            None => false,
        }
    }
}

/// A store below a directory of the local file system.
pub struct LocalFileStore {
    path: String,
}

impl LocalFileStore {
    pub closed spec fn root(&self) -> Seq<char> {
        self.path@
    }

    /// A store below the directory `path`.
    pub fn new(path: String) -> (store: LocalFileStore)
        ensures
            store.root() == path@,
    {
        LocalFileStore { path }
    }

    /// The store's name in logs and counters.
    pub fn tag(&self) -> (t: &'static str)
        ensures
            t@ == "LOCAL"@,
    {
        "LOCAL"
    }

    /// Where in the file system the file `file_path` of the store lives.
    pub fn get_path(&self, file_path: &str) -> (path: String)
        ensures
            path@ == join_path(self.root(), file_path@),
    {
        join(self.path.as_str(), file_path)
    }
}

/// A store in a bucket of a cloud object store, below an optional prefix.
pub struct GcsFileStore {
    bucket_name: String,
    bucket_sub_dir: Option<String>,
}

impl GcsFileStore {
    pub closed spec fn bucket(&self) -> Seq<char> {
        self.bucket_name@
    }

    pub closed spec fn sub_dir(&self) -> Option<Seq<char>> {
        match self.bucket_sub_dir {
            Some(d) => Some(d@),
            None => None,
        }
    }

    /// A store in the bucket `bucket_name`, below `bucket_sub_dir` if given.
    pub fn new(bucket_name: String, bucket_sub_dir: Option<String>) -> (store: GcsFileStore)
        ensures
            store.bucket() == bucket_name@,
            store.sub_dir() == match bucket_sub_dir {
                Some(d) => Some(d@),
                None => None,
            },
    {
        GcsFileStore { bucket_name, bucket_sub_dir }
    }

    /// The store's name in logs and counters.
    pub fn tag(&self) -> (t: &'static str)
        ensures
            t@ == "GCS"@,
    {
        "GCS"
    }

    pub fn bucket_name(&self) -> (name: &str)
        ensures
            name@ == self.bucket(),
    {
        self.bucket_name.as_str()
    }

    /// Name of the object that holds the file `file_path` of the store.
    pub fn get_path(&self, file_path: &str) -> (path: String)
        ensures
            path@ == match self.sub_dir() {
                Some(d) => join_path(d, file_path@),
                None => file_path@,
            },
    {
        match &self.bucket_sub_dir {
            Some(sub_dir) => join(sub_dir.as_str(), file_path),
            None => String::from_str(file_path),
        }
    }
}

} // verus!
