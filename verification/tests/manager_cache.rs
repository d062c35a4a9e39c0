use indexer_stream::manager_cache::{Cache, MAX_CACHE_SIZE, TARGET_CACHE_SIZE};
use indexer_stream::transaction::Transaction;

fn batch(start: u64, count: u64, size: usize) -> Vec<Transaction> {
    (start..start + count).map(|v| Transaction::new(v, vec![0u8; size])).collect()
}

fn seen(txs: &Vec<Transaction>) -> Vec<u64> {
    txs.iter().map(|t| t.version).collect()
}

#[test]
fn watermarks_are_ten_and_eight_gib() {
    assert_eq!(MAX_CACHE_SIZE, 10 * (1u64 << 30));
    assert_eq!(TARGET_CACHE_SIZE, 8 * (1u64 << 30));
}

#[test]
fn new_manager_cache_begins_at_the_cursor() {
    let cache = Cache::new(42);
    assert_eq!(cache.start_version(), 42);
    assert_eq!(cache.end_version(), 42);
    assert_eq!(cache.file_store_version(), 42);
    assert_eq!(cache.cache_size(), 0);
}

#[test]
fn put_appends_and_counts_bytes() {
    let mut cache = Cache::new(10);
    cache.put_transactions(batch(10, 3, 4));
    cache.put_transactions(batch(13, 2, 1));
    assert_eq!(cache.start_version(), 10);
    assert_eq!(cache.end_version(), 15);
    assert_eq!(cache.cache_size(), 14);
}

#[test]
fn get_keeps_the_transaction_that_tips_the_budget() {
    let mut cache = Cache::new(0);
    cache.put_transactions(batch(0, 10, 3));
    assert_eq!(seen(&cache.get_transactions(0, 7, false)), vec![0, 1, 2]);
    assert_eq!(seen(&cache.get_transactions(0, 6, false)), vec![0, 1, 2]);
    assert_eq!(seen(&cache.get_transactions(0, 5, false)), vec![0, 1]);
    assert_eq!(seen(&cache.get_transactions(4, 0, false)), vec![4]);
    assert_eq!(seen(&cache.get_transactions(8, 100, false)), vec![8, 9]);
    assert_eq!(cache.file_store_version(), 0);
}

#[test]
fn get_outside_the_window_is_empty() {
    let mut cache = Cache::new(5);
    cache.put_transactions(batch(5, 3, 1));
    assert!(cache.get_transactions(4, 100, false).is_empty());
    assert!(cache.get_transactions(8, 100, false).is_empty());
    assert!(cache.get_transactions(9, 100, true).is_empty());
    assert_eq!(cache.file_store_version(), 5);
}

#[test]
fn uploader_read_moves_the_cursor() {
    let mut cache = Cache::new(0);
    cache.put_transactions(batch(0, 5, 2));
    let got = cache.get_transactions(0, 3, true);
    assert_eq!(seen(&got), vec![0, 1]);
    assert_eq!(cache.file_store_version(), 2);
    let got = cache.get_transactions(2, 100, true);
    assert_eq!(seen(&got), vec![2, 3, 4]);
    assert_eq!(cache.file_store_version(), 5);
    assert_eq!(cache.start_version(), 0);
}

#[test]
fn no_eviction_at_or_below_the_maximum() {
    let mut cache = Cache::with_watermarks(0, 10, 4);
    cache.put_transactions(batch(0, 5, 2));
    let _ = cache.get_transactions(0, 100, true);
    assert!(cache.maybe_evict());
    assert_eq!(cache.start_version(), 0);
    assert_eq!(cache.cache_size(), 10);
}

#[test]
fn eviction_stops_at_the_target() {
    let mut cache = Cache::with_watermarks(0, 10, 4);
    cache.put_transactions(batch(0, 6, 2));
    let _ = cache.get_transactions(0, 100, true);
    assert_eq!(cache.file_store_version(), 6);
    assert!(cache.maybe_evict());
    assert_eq!(cache.start_version(), 4);
    assert_eq!(cache.cache_size(), 4);
    assert_eq!(cache.end_version(), 6);
}

#[test]
fn eviction_never_passes_the_cursor() {
    let mut cache = Cache::with_watermarks(0, 10, 4);
    cache.put_transactions(batch(0, 8, 2));
    let _ = cache.get_transactions(0, 1, true);
    assert_eq!(cache.file_store_version(), 1);
    assert!(!cache.maybe_evict());
    assert_eq!(cache.start_version(), 1);
    assert_eq!(cache.cache_size(), 14);
    assert!(cache.start_version() <= cache.file_store_version());
    let _ = cache.get_transactions(1, 100, true);
    assert!(cache.maybe_evict());
    assert_eq!(cache.start_version(), 6);
    assert_eq!(cache.cache_size(), 4);
    assert!(cache.start_version() <= cache.file_store_version());
}

#[test]
fn nothing_uploaded_means_nothing_evicted() {
    let mut cache = Cache::with_watermarks(7, 3, 1);
    cache.put_transactions(batch(7, 4, 1));
    assert!(!cache.maybe_evict());
    assert_eq!(cache.start_version(), 7);
    assert_eq!(cache.cache_size(), 4);
}
