use indexer_stream::file_store::{FileStoreMetadata, StorageFormat};
use indexer_stream::manager_cache::Cache;
use indexer_stream::transaction::Transaction;
use indexer_stream::uploader::{
    FileStoreDump, FileStoreUploader, MAX_SIZE_PER_FILE, NUM_TXNS_PER_FOLDER,
};

fn tx(version: u64, size: usize) -> Transaction {
    Transaction::new(version, vec![0u8; size])
}

fn contents(dump: &FileStoreDump) -> Vec<u64> {
    dump.transactions.iter().map(|t| t.version).collect()
}

#[test]
fn uploader_limits() {
    assert_eq!(NUM_TXNS_PER_FOLDER, 10000);
    assert_eq!(MAX_SIZE_PER_FILE, 20 * (1 << 20));
    let uploader = FileStoreUploader::new(3, 50000);
    assert_eq!(uploader.version(), 50000);
    assert_eq!(uploader.max_size_per_file(), MAX_SIZE_PER_FILE);
}

#[test]
fn folders_of_four_close_at_three_and_seven() {
    let mut uploader = FileStoreUploader::with_limits(9, 0, 4, 10);
    let mut dumps = Vec::new();
    for v in 0..8 {
        let dump = uploader.buffer_and_maybe_dump_transactions_to_file(tx(v, 3));
        assert_eq!(dump.is_some(), v == 3 || v == 7);
        dumps.extend(dump);
    }
    assert_eq!(dumps.len(), 2);
    assert_eq!(dumps[0].path, "0/0");
    assert_eq!(dumps[0].first_version, 0);
    assert_eq!(contents(&dumps[0]), vec![0, 1, 2, 3]);
    let close = dumps[0].folder_close.as_ref().unwrap();
    assert_eq!(close.batch_metadata_path, "0/metadata.json");
    assert_eq!(close.batch_metadata.files, vec![(0, 12)]);
    assert_eq!(close.root_metadata.version, 4);
    assert_eq!(dumps[1].path, "1/4");
    assert_eq!(contents(&dumps[1]), vec![4, 5, 6, 7]);
    let close = dumps[1].folder_close.as_ref().unwrap();
    assert_eq!(close.batch_metadata_path, "1/metadata.json");
    assert_eq!(close.batch_metadata.files, vec![(4, 12)]);
    assert_eq!(
        close.root_metadata,
        FileStoreMetadata { chain_id: 9, version: 8, storage_format: StorageFormat::Lz4CompressedProto }
    );
}

#[test]
fn size_limit_cuts_files_inside_a_folder() {
    let mut uploader = FileStoreUploader::with_limits(1, 0, 10, 5);
    let dumps = uploader.upload_batch((0..10).map(|v| tx(v, 2)).collect());
    assert_eq!(uploader.version(), 10);
    let shapes: Vec<(String, Vec<u64>, bool)> = dumps
        .iter()
        .map(|d| (d.path.clone(), contents(d), d.folder_close.is_some()))
        .collect();
    assert_eq!(
        shapes,
        vec![
            (String::from("0/0"), vec![0, 1, 2], false),
            (String::from("0/3"), vec![3, 4, 5], false),
            (String::from("0/6"), vec![6, 7, 8], false),
            (String::from("0/9"), vec![9], true),
        ]
    );
    let close = dumps[3].folder_close.as_ref().unwrap();
    assert_eq!(close.batch_metadata.files, vec![(0, 6), (3, 6), (6, 6), (9, 2)]);
    assert_eq!(close.root_metadata.version, 10);
}

#[test]
fn buffer_carries_over_between_batches() {
    let mut uploader = FileStoreUploader::with_limits(1, 0, 100, 10);
    assert!(uploader.upload_batch(vec![tx(0, 4), tx(1, 4)]).is_empty());
    assert_eq!(uploader.version(), 2);
    let dumps = uploader.upload_batch(vec![tx(2, 4), tx(3, 1)]);
    assert_eq!(uploader.version(), 4);
    assert_eq!(dumps.len(), 1);
    assert_eq!(contents(&dumps[0]), vec![0, 1, 2]);
    assert_eq!(dumps[0].path, "0/0");
    assert!(dumps[0].folder_close.is_none());
    assert!(uploader.upload_batch(Vec::new()).is_empty());
    assert_eq!(uploader.version(), 4);
}

#[test]
fn root_versions_rise_on_folder_boundaries() {
    let mut uploader = FileStoreUploader::with_limits(1, 6, 4, 7);
    let dumps = uploader.upload_batch((6..30).map(|v| tx(v, 3)).collect());
    let roots: Vec<u64> = dumps
        .iter()
        .filter_map(|d| d.folder_close.as_ref().map(|c| c.root_metadata.version))
        .collect();
    assert_eq!(roots, vec![8, 12, 16, 20, 24, 28]);
    for pair in roots.windows(2) {
        assert!(pair[0] < pair[1]);
    }
    assert_eq!(uploader.version(), 30);
}

#[test]
fn every_byte_of_a_folder_is_in_its_metadata() {
    let mut uploader = FileStoreUploader::with_limits(1, 0, 8, 9);
    let sizes = [1usize, 5, 4, 9, 2, 2, 2, 3];
    let dumps =
        uploader.upload_batch(sizes.iter().enumerate().map(|(v, s)| tx(v as u64, *s)).collect());
    let close = dumps.last().unwrap().folder_close.as_ref().unwrap();
    let written: Vec<(u64, usize)> = dumps
        .iter()
        .map(|d| (d.first_version, d.transactions.iter().map(|t| t.encoded_len()).sum()))
        .collect();
    assert_eq!(close.batch_metadata.files, written);
    assert_eq!(written.iter().map(|f| f.1).sum::<usize>(), sizes.iter().sum::<usize>());
}

#[test]
fn uploader_drains_the_cache_behind_its_cursor() {
    let mut cache = Cache::with_watermarks(0, 10, 4);
    let mut uploader = FileStoreUploader::with_limits(1, 0, 4, 100);
    cache.put_transactions((0..6).map(|v| tx(v, 3)).collect());
    assert!(!cache.maybe_evict());
    let got = cache.get_transactions(uploader.version(), uploader.max_size_per_file(), true);
    let dumps = uploader.upload_batch(got);
    assert_eq!(dumps.len(), 1);
    assert_eq!(uploader.version(), 6);
    assert_eq!(cache.file_store_version(), 6);
    assert!(cache.maybe_evict());
    assert_eq!(cache.start_version(), 5);
    assert!(cache.start_version() <= cache.file_store_version());
}

#[test]
fn flush_closes_the_folder_exactly_when_told() {
    let mut uploader = FileStoreUploader::with_limits(2, 0, 100, 1000);
    assert!(uploader.buffer_and_maybe_dump_transactions_to_file(tx(40, 3)).is_none());
    assert!(uploader.buffer_and_maybe_dump_transactions_to_file(tx(41, 3)).is_none());
    let open = uploader.dump_transactions_to_file(false);
    assert_eq!(open.path, "0/40");
    assert_eq!(contents(&open), vec![40, 41]);
    assert!(open.folder_close.is_none());
    assert_eq!(uploader.buffer_size(), 0);
    assert!(uploader.buffer_and_maybe_dump_transactions_to_file(tx(42, 5)).is_none());
    let closed = uploader.dump_transactions_to_file(true);
    let close = closed.folder_close.unwrap();
    assert_eq!(close.batch_metadata.files, vec![(40, 6), (42, 5)]);
    assert_eq!(close.batch_metadata_path, "0/metadata.json");
    assert_eq!(close.root_metadata.version, 43);
    assert_eq!(close.root_metadata.chain_id, 2);
}
