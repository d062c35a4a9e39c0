use indexer_stream::file_store::{
    after_failed_read, trim_to_version, BatchMetadata, FileStoreMetadata, FileStoreOperatorV2,
    GcsFileStore, LocalFileStore, RetryDecision, StorageFormat, FILE_READ_BACKOFF_MS,
    METADATA_FILE_NAME,
};
use indexer_stream::paths::{join, u64_to_decimal};
use indexer_stream::transaction::Transaction;

fn metadata(files: &[(u64, usize)]) -> BatchMetadata {
    BatchMetadata { files: files.to_vec() }
}

#[test]
fn decimal_of_numbers() {
    assert_eq!(u64_to_decimal(0), "0");
    assert_eq!(u64_to_decimal(7), "7");
    assert_eq!(u64_to_decimal(10), "10");
    assert_eq!(u64_to_decimal(1234567890), "1234567890");
    assert_eq!(u64_to_decimal(u64::MAX), "18446744073709551615");
    for n in [9u64, 99, 100, 101, 4096, 999_999] {
        assert_eq!(u64_to_decimal(n), format!("{}", n));
    }
}

#[test]
fn join_follows_path_buffers() {
    assert_eq!(join("a", "b"), "a/b");
    assert_eq!(join("a/", "b"), "a/b");
    assert_eq!(join("", "b"), "b");
    assert_eq!(join("a", "/b"), "/b");
    assert_eq!(join("a", ""), "a/");
    for (base, path) in [("x/y", "z"), ("x", "y/z"), ("", ""), ("/", "a")] {
        let mut expected = std::path::PathBuf::from(base);
        expected.push(path);
        assert_eq!(join(base, path), expected.to_string_lossy());
    }
}

#[test]
fn paths_of_the_store() {
    let op = FileStoreOperatorV2::new(1, 10000);
    assert_eq!(METADATA_FILE_NAME, "metadata.json");
    assert_eq!(op.get_folder_name(0), "0");
    assert_eq!(op.get_folder_name(9999), "0");
    assert_eq!(op.get_folder_name(10000), "1");
    assert_eq!(op.get_path_for_version(0), "0/0");
    assert_eq!(op.get_path_for_version(12345), "1/12345");
    assert_eq!(op.get_path_for_version(9999), "0/9999");
    assert_eq!(op.get_path_for_batch_metadata(12345), "1/metadata.json");
    assert_eq!(op.get_path_for_batch_metadata(20000), "2/metadata.json");
    let small = FileStoreOperatorV2::new(1, 4);
    assert_eq!(small.get_path_for_version(7), "1/7");
    assert_eq!(small.num_transactions_per_folder(), 4);
    assert_eq!(small.chain_id(), 1);
}

#[test]
fn file_index_is_the_last_file_at_or_below() {
    let m = metadata(&[(0, 10), (40, 10), (70, 10)]);
    assert_eq!(m.find_file_index(0), Some(0));
    assert_eq!(m.find_file_index(39), Some(0));
    assert_eq!(m.find_file_index(40), Some(1));
    assert_eq!(m.find_file_index(69), Some(1));
    assert_eq!(m.find_file_index(1000), Some(2));
    let late = metadata(&[(10, 1)]);
    assert_eq!(late.find_file_index(9), None);
    assert_eq!(BatchMetadata::new().find_file_index(5), None);
    assert!(BatchMetadata::new().files.is_empty());
}

#[test]
fn range_read_opens_the_files_from_the_version_on() {
    let op = FileStoreOperatorV2::new(1, 100);
    let m = metadata(&[(0, 10), (40, 10), (70, 10)]);
    assert_eq!(op.get_transaction_batch(&m, 45, None), vec![40, 70]);
    assert_eq!(op.get_transaction_batch(&m, 45, Some(1)), vec![40]);
    assert_eq!(op.get_transaction_batch(&m, 0, Some(2)), vec![0, 40]);
    assert_eq!(op.get_transaction_batch(&m, 0, Some(5)), vec![0, 40, 70]);
    assert_eq!(op.get_transaction_batch(&m, 0, Some(usize::MAX)), vec![0, 40, 70]);
    assert_eq!(op.get_transaction_batch(&m, 99, Some(0)), Vec::<u64>::new());
    assert_eq!(op.get_transaction_batch(&m, 99, None), vec![70]);
    let late = metadata(&[(10, 1)]);
    assert_eq!(op.get_transaction_batch(&late, 5, None), Vec::<u64>::new());
}

#[test]
fn trimming_drops_what_lies_before_the_version() {
    let file = |n: u64| -> Vec<Transaction> {
        (40..40 + n).map(|v| Transaction::new(v, vec![1])).collect()
    };
    let got: Vec<u64> = trim_to_version(file(5), 42, 40).iter().map(|t| t.version).collect();
    assert_eq!(got, vec![42, 43, 44]);
    assert_eq!(trim_to_version(file(5), 40, 40).len(), 5);
    assert_eq!(trim_to_version(file(5), 30, 40).len(), 5);
    assert_eq!(trim_to_version(file(5), 45, 40).len(), 0);
    assert_eq!(trim_to_version(file(5), 1000, 40).len(), 0);
    assert_eq!(trim_to_version(file(0), 41, 40).len(), 0);
}

#[test]
fn retries_run_out() {
    assert_eq!(FILE_READ_BACKOFF_MS, 10);
    assert_eq!(after_failed_read(0), RetryDecision::GiveUp);
    assert_eq!(after_failed_read(1), RetryDecision::Retry { retries_left: 0, backoff_ms: 10 });
    assert_eq!(after_failed_read(3), RetryDecision::Retry { retries_left: 2, backoff_ms: 10 });
}

#[test]
fn root_metadata_is_initialised_once() {
    let op = FileStoreOperatorV2::new(7, 10000);
    let fresh = op.maybe_init_metadata(None);
    assert_eq!(
        fresh,
        Some(FileStoreMetadata {
            chain_id: 7,
            version: 0,
            storage_format: StorageFormat::Lz4CompressedProto
        })
    );
    assert_eq!(op.maybe_init_metadata(fresh), None);
    let m = op.update_file_store_metadata(30000);
    assert_eq!(m, FileStoreMetadata::new(7, 30000, StorageFormat::Lz4CompressedProto));
    assert!(op.same_chain(&m));
    assert!(!op.same_chain(&FileStoreMetadata::new(8, 0, StorageFormat::Lz4CompressedProto)));
}

#[test]
fn latest_version_is_remembered() {
    let mut op = FileStoreOperatorV2::new(7, 10000);
    assert!(!op.can_serve_from_cached(0));
    assert_eq!(op.get_latest_version(None), None);
    assert!(!op.can_serve_from_cached(0));
    let at = |v| Some(FileStoreMetadata::new(7, v, StorageFormat::Lz4CompressedProto));
    assert_eq!(op.get_latest_version(at(20000)), Some(20000));
    assert!(op.can_serve_from_cached(19999));
    assert!(!op.can_serve_from_cached(20000));
    assert_eq!(op.get_latest_version(at(10000)), Some(10000));
    assert!(op.can_serve_from_cached(19999));
    assert!(op.can_serve(29999, at(30000).unwrap()));
    assert!(!op.can_serve(30000, at(30000).unwrap()));
    assert!(op.can_serve_from_cached(29999));
}

#[test]
fn local_store_resolves_below_its_root() {
    let store = LocalFileStore::new(String::from("/data/store"));
    assert_eq!(store.tag(), "LOCAL");
    assert_eq!(store.get_path("0/17"), "/data/store/0/17");
    assert_eq!(store.get_path("metadata.json"), "/data/store/metadata.json");
}

#[test]
fn gcs_store_resolves_below_its_prefix() {
    let plain = GcsFileStore::new(String::from("bucket"), None);
    assert_eq!(plain.tag(), "GCS");
    assert_eq!(plain.bucket_name(), "bucket");
    assert_eq!(plain.get_path("0/17"), "0/17");
    let nested = GcsFileStore::new(String::from("bucket"), Some(String::from("mainnet")));
    assert_eq!(nested.get_path("0/17"), "mainnet/0/17");
    assert_eq!(nested.get_path("metadata.json"), "mainnet/metadata.json");
}
