use indexer_stream::live_cache::{CacheRead, DataManager};
use indexer_stream::transaction::Transaction;

fn txs(start: u64, count: u64, size: usize) -> Vec<Transaction> {
    (start..start + count).map(|v| Transaction::new(v, vec![v as u8; size])).collect()
}

fn versions(read: CacheRead) -> Vec<u64> {
    match read {
        CacheRead::Data(txs) => txs.iter().map(|t| t.version).collect(),
        _ => panic!("no data"),
    }
}

#[test]
fn new_cache_spans_the_slots_below_its_head() {
    let cache = DataManager::new(100, 8, 1024);
    assert_eq!(cache.start_version(), 92);
    assert_eq!(cache.end_version(), 100);
    assert_eq!(cache.total_size(), 0);
    assert_eq!(cache.num_slots(), 8);
    let cache = DataManager::new(3, 8, 1024);
    assert_eq!(cache.start_version(), 0);
    assert_eq!(cache.end_version(), 3);
}

#[test]
fn full_ring_is_read_back_in_order() {
    let mut cache = DataManager::new(0, 8, 1 << 20);
    cache.update_data(0, txs(0, 8, 1));
    assert_eq!(cache.start_version(), 0);
    assert_eq!(cache.end_version(), 8);
    assert_eq!(cache.total_size(), 8);
    let read = cache.get_data(0, 8, 100, 1024);
    assert_eq!(versions(read), vec![0, 1, 2, 3, 4, 5, 6, 7]);
}

#[test]
fn soft_limit_evicts_down_to_below_the_target() {
    let mut cache = DataManager::with_eviction_target(0, 16, 3, 2);
    for v in 0..4 {
        cache.update_data(v, txs(v, 1, 1));
    }
    assert_eq!(cache.start_version(), 2);
    assert_eq!(cache.end_version(), 4);
    assert_eq!(cache.total_size(), 2);
}

#[test]
fn eviction_in_one_batch_runs_until_below_target() {
    let mut cache = DataManager::with_eviction_target(0, 16, 3, 2);
    cache.update_data(0, txs(0, 4, 1));
    assert_eq!(cache.start_version(), 3);
    assert_eq!(cache.total_size(), 1);
}

#[test]
fn batch_beyond_the_head_is_dropped() {
    let mut cache = DataManager::new(10, 8, 1024);
    cache.update_data(11, txs(11, 2, 1));
    assert_eq!(cache.end_version(), 10);
    assert_eq!(cache.total_size(), 0);
}

#[test]
fn batch_below_the_window_is_dropped() {
    let mut cache = DataManager::new(10, 8, 1024);
    cache.update_data(0, txs(0, 2, 1));
    assert_eq!(cache.start_version(), 2);
    assert_eq!(cache.end_version(), 10);
    assert_eq!(cache.total_size(), 0);
}

#[test]
fn items_older_than_the_window_are_skipped() {
    let mut cache = DataManager::new(10, 4, 1024);
    assert_eq!(cache.start_version(), 6);
    cache.update_data(4, txs(4, 4, 1));
    assert_eq!(cache.start_version(), 6);
    assert_eq!(cache.end_version(), 10);
    assert_eq!(cache.total_size(), 2);
    assert_eq!(versions(cache.get_data(6, 10, 100, 1024)), vec![6, 7]);
    assert!(matches!(cache.get_data(8, 10, 100, 1024), CacheRead::Missing));
}

#[test]
fn window_slides_when_the_ring_is_full() {
    let mut cache = DataManager::new(0, 4, 1024);
    cache.update_data(0, txs(0, 4, 1));
    cache.update_data(4, txs(4, 2, 3));
    assert_eq!(cache.start_version(), 2);
    assert_eq!(cache.end_version(), 6);
    assert_eq!(cache.total_size(), 2 + 6);
    assert_eq!(versions(cache.get_data(2, 6, 100, 1024)), vec![2, 3, 4, 5]);
    assert!(matches!(cache.get_data(1, 6, 100, 1024), CacheRead::TooOld));
}

#[test]
fn batch_longer_than_the_ring_keeps_its_newest_items() {
    let mut cache = DataManager::new(0, 4, 1024);
    cache.update_data(0, txs(0, 10, 1));
    assert_eq!(cache.start_version(), 6);
    assert_eq!(cache.end_version(), 10);
    assert_eq!(cache.total_size(), 4);
    assert_eq!(versions(cache.get_data(6, 100, 100, 1024)), vec![6, 7, 8, 9]);
}

#[test]
fn rewriting_a_version_replaces_its_bytes() {
    let mut cache = DataManager::new(0, 4, 1024);
    cache.update_data(0, txs(0, 2, 1));
    cache.update_data(1, txs(1, 1, 5));
    assert_eq!(cache.total_size(), 6);
    assert_eq!(cache.end_version(), 2);
    match cache.get_data(1, 2, 10, 1024) {
        CacheRead::Data(txs) => {
            assert_eq!(txs.len(), 1);
            assert_eq!(txs[0].payload.len(), 5);
        },
        _ => panic!("no data"),
    }
}

#[test]
fn read_at_head_waits() {
    let mut cache = DataManager::new(5, 8, 1024);
    assert!(matches!(cache.get_data(5, 10, 10, 1024), CacheRead::AtHead));
    cache.update_data(5, txs(5, 2, 1));
    assert_eq!(versions(cache.get_data(5, 10, 10, 1024)), vec![5, 6]);
    assert!(matches!(cache.get_data(7, 10, 10, 1024), CacheRead::AtHead));
}

#[test]
fn read_below_the_window_is_too_old() {
    let cache = DataManager::new(100, 8, 1024);
    assert!(matches!(cache.get_data(91, 100, 10, 1024), CacheRead::TooOld));
    assert!(matches!(cache.get_data(92, 100, 10, 1024), CacheRead::Missing));
}

#[test]
fn read_stops_at_the_budgets() {
    let mut cache = DataManager::new(0, 8, 1 << 20);
    cache.update_data(0, txs(0, 8, 10));
    assert_eq!(versions(cache.get_data(0, 8, 3, 1024)), vec![0, 1, 2]);
    assert_eq!(versions(cache.get_data(0, 8, 100, 25)), vec![0, 1, 2]);
    assert_eq!(versions(cache.get_data(0, 8, 100, 20)), vec![0, 1]);
    assert_eq!(versions(cache.get_data(0, 8, 100, 1)), vec![0]);
    assert_eq!(versions(cache.get_data(2, 5, 100, 1024)), vec![2, 3, 4]);
    assert_eq!(versions(cache.get_data(0, 8, 0, 1024)), Vec::<u64>::new());
    assert_eq!(versions(cache.get_data(0, 8, 100, 0)), Vec::<u64>::new());
    assert_eq!(versions(cache.get_data(3, 3, 100, 1024)), Vec::<u64>::new());
}

#[test]
fn read_stops_at_an_empty_slot() {
    let mut cache = DataManager::with_eviction_target(0, 8, 1000, 1000);
    cache.update_data(0, txs(0, 3, 1));
    cache.update_data(3, txs(3, 1, 1));
    let mut evicting = DataManager::with_eviction_target(0, 8, 4, 3);
    evicting.update_data(0, txs(0, 4, 1));
    assert_eq!(evicting.start_version(), 2);
    assert_eq!(versions(evicting.get_data(2, 8, 100, 1024)), vec![2, 3]);
    assert_eq!(versions(cache.get_data(0, 8, 100, 1024)), vec![0, 1, 2, 3]);
}

#[test]
fn read_returns_copies_of_what_was_written() {
    let mut cache = DataManager::new(0, 8, 1 << 20);
    cache.update_data(0, vec![Transaction::new(0, vec![7, 8, 9])]);
    match cache.get_data(0, 1, 10, 1024) {
        CacheRead::Data(txs) => {
            assert_eq!(txs[0].version, 0);
            assert_eq!(txs[0].payload, vec![7, 8, 9]);
            assert_eq!(txs[0].encoded_len(), 3);
        },
        _ => panic!("no data"),
    }
    assert_eq!(cache.total_size(), 3);
}

#[test]
fn slots_hold_the_versions_of_their_window() {
    let mut cache = DataManager::with_eviction_target(0, 5, 12, 9);
    let mut next = 0;
    for len in [3u64, 1, 4, 2, 7, 1, 1, 6] {
        cache.update_data(next, txs(next, len, 1));
        next += len;
        assert!(cache.end_version() - cache.start_version() <= 5);
        let mut v = cache.start_version();
        while v < cache.end_version() {
            match cache.get_data(v, v + 1, 1, 1024) {
                CacheRead::Data(txs) => assert_eq!(txs[0].version, v),
                CacheRead::Missing => {},
                _ => panic!("inside the window"),
            }
            v += 1;
        }
    }
}
