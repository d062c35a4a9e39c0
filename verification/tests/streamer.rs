use indexer_stream::connection_manager::ConnectionManager;
use indexer_stream::live_cache::CacheRead;
use indexer_stream::live_data_service::{
    fetch_request, Fetched, LiveDataService, LiveDataServiceConfig,
};
use indexer_stream::status::StatusCode;
use indexer_stream::streamer::{
    plan_stream, GetTransactionsRequest, LiveStream, StreamOutput, StreamPlan, StreamStep,
    DEFAULT_BATCH_SIZE, HEAD_WAIT_MS, MAX_BYTES_PER_BATCH, MAX_VERSIONS_AHEAD,
};
use indexer_stream::transaction::Transaction;

fn request(start: Option<u64>, count: Option<u64>, batch: Option<u64>) -> GetTransactionsRequest {
    GetTransactionsRequest { starting_version: start, transactions_count: count, batch_size: batch }
}

fn txs(start: u64, count: u64, size: usize) -> Vec<Transaction> {
    (start..start + count).map(|v| Transaction::new(v, vec![0u8; size])).collect()
}

fn service(known_latest: u64, num_slots: usize) -> LiveDataService {
    LiveDataService::new(
        0,
        LiveDataServiceConfig { num_slots, size_limit_bytes: 1 << 30 },
        ConnectionManager::new(known_latest),
    )
}

fn sent(out: StreamOutput) -> Vec<u64> {
    match out {
        StreamOutput::Response(r) => r.transactions.iter().map(|t| t.version).collect(),
        StreamOutput::Error(_) => panic!("an error"),
    }
}

#[test]
fn stream_constants() {
    assert_eq!(MAX_BYTES_PER_BATCH, 20 * (1 << 20));
    assert_eq!(DEFAULT_BATCH_SIZE, 10000);
    assert_eq!(MAX_VERSIONS_AHEAD, 10000);
    assert_eq!(HEAD_WAIT_MS, 100);
}

#[test]
fn plan_fills_in_the_defaults() {
    let plan = plan_stream(&request(None, None, None), 500).unwrap();
    assert_eq!(
        plan,
        StreamPlan {
            starting_version: 500,
            ending_version: None,
            max_num_transactions_per_batch: 10000,
            max_bytes_per_batch: MAX_BYTES_PER_BATCH,
        }
    );
    let plan = plan_stream(&request(Some(20), Some(30), Some(7)), 500).unwrap();
    assert_eq!(plan.starting_version, 20);
    assert_eq!(plan.ending_version, Some(50));
    assert_eq!(plan.max_num_transactions_per_batch, 7);
    let plan = plan_stream(&request(Some(u64::MAX - 1), Some(5), None), u64::MAX).unwrap();
    assert_eq!(plan.ending_version, Some(u64::MAX));
}

#[test]
fn far_future_start_is_refused() {
    assert!(plan_stream(&request(Some(10_500), None, None), 500).is_ok());
    let err = plan_stream(&request(Some(10_501), None, None), 500).unwrap_err();
    assert_eq!(err.code, StatusCode::FailedPrecondition);
    assert_eq!(err.message, "starting_version cannot be set to a far future version");
    assert!(plan_stream(&request(Some(u64::MAX), None, None), u64::MAX - 10_000).is_ok());
    assert!(plan_stream(&request(Some(u64::MAX), None, None), u64::MAX - 10_001).is_err());
    assert!(plan_stream(&request(Some(0), None, None), u64::MAX).is_ok());
}

#[test]
fn stream_at_the_latest_version_blocks_at_head_until_data_arrives() {
    let mut service = service(99, 16);
    let id = String::from("s");
    let mut stream = service.start_streaming(&id, request(Some(100), None, None)).unwrap();
    assert_eq!(
        service.poll(&id, &mut stream),
        StreamStep::Wait { millis: 100 }
    );
    let mut service = self::service(100, 16);
    let mut stream = service.start_streaming(&id, request(None, None, None)).unwrap();
    assert_eq!(stream.next_version(), 100);
    let step = service.poll(&id, &mut stream);
    assert_eq!(
        step,
        StreamStep::Read {
            starting_version: 100,
            ending_version: u64::MAX,
            max_num_transactions: 10000,
            max_bytes: MAX_BYTES_PER_BATCH,
        }
    );
    assert!(matches!(service.get_data(100, u64::MAX, 10000, MAX_BYTES_PER_BATCH), CacheRead::Missing));
    assert!(matches!(service.get_data(101, u64::MAX, 10000, MAX_BYTES_PER_BATCH), CacheRead::AtHead));
    assert_eq!(service.fetch_past_data(100, txs(100, 3, 1)), 3);
    match service.get_data(100, u64::MAX, 10000, MAX_BYTES_PER_BATCH) {
        CacheRead::Data(batch) => {
            assert_eq!(sent(stream.deliver(Some(batch))), vec![100, 101, 102]);
        },
        _ => panic!("no data"),
    }
    assert_eq!(stream.next_version(), 103);
    assert!(stream.is_active());
}

#[test]
fn start_below_the_cache_is_not_found() {
    let mut service = service(1000, 8);
    let id = String::from("s");
    let mut stream = service.start_streaming(&id, request(Some(5), None, None)).unwrap();
    assert!(matches!(service.poll(&id, &mut stream), StreamStep::Read { .. }));
    assert!(matches!(service.get_data(5, u64::MAX, 10000, 1024), CacheRead::TooOld));
    match stream.deliver(None) {
        StreamOutput::Error(status) => {
            assert_eq!(status.code, StatusCode::NotFound);
            assert_eq!(status.message, "Requested data is too old.");
        },
        StreamOutput::Response(_) => panic!("a response"),
    }
    assert!(!stream.is_active());
}

#[test]
fn count_of_zero_ends_right_after_registration() {
    let mut service = service(50, 8);
    let id = String::from("s");
    let mut stream = service.start_streaming(&id, request(Some(10), Some(0), None)).unwrap();
    assert_eq!(service.get_active_streams().len(), 1);
    assert_eq!(service.poll(&id, &mut stream), StreamStep::Finish);
    assert!(!stream.is_active());
    assert!(service.get_active_streams().is_empty());
}

#[test]
fn batch_size_of_one_sends_single_transactions() {
    let mut service = service(9, 16);
    assert_eq!(service.fetch_past_data(10, txs(10, 3, 100)), 3);
    let id = String::from("s");
    let mut stream = service.start_streaming(&id, request(Some(10), Some(3), Some(1))).unwrap();
    service.update_known_latest_version(12);
    for expected in [10u64, 11, 12] {
        let step = service.poll(&id, &mut stream);
        let StreamStep::Read { starting_version, ending_version, max_num_transactions, max_bytes } =
            step
        else {
            panic!("no read")
        };
        assert_eq!(max_num_transactions, 1);
        let CacheRead::Data(batch) =
            service.get_data(starting_version, ending_version, max_num_transactions, max_bytes)
        else {
            panic!("no data")
        };
        assert_eq!(sent(stream.deliver(Some(batch))), vec![expected]);
        stream.sent(true);
    }
    assert_eq!(service.poll(&id, &mut stream), StreamStep::Finish);
}

#[test]
fn transaction_beyond_the_byte_budget_is_sent_alone() {
    let mut service = service(9, 16);
    let mut batch = txs(10, 1, 64);
    batch.extend(txs(11, 1, 1));
    service.fetch_past_data(10, batch);
    match service.get_data(10, 12, 1000, 32) {
        CacheRead::Data(batch) => assert_eq!(batch.len(), 1),
        _ => panic!("no data"),
    }
}

#[test]
fn batches_sent_carry_on_where_the_last_one_ended() {
    let mut service = service(9, 64);
    service.fetch_past_data(10, txs(10, 20, 1));
    let id = String::from("s");
    let mut stream = service.start_streaming(&id, request(Some(12), Some(15), Some(4))).unwrap();
    service.update_known_latest_version(1000);
    let mut all = Vec::new();
    loop {
        match service.poll(&id, &mut stream) {
            StreamStep::Finish => break,
            StreamStep::Wait { .. } => panic!("waits"),
            StreamStep::Read { starting_version, ending_version, max_num_transactions, max_bytes } => {
                assert_eq!(starting_version, 12 + all.len() as u64);
                let CacheRead::Data(batch) = service.get_data(
                    starting_version,
                    ending_version,
                    max_num_transactions,
                    max_bytes,
                ) else {
                    panic!("no data")
                };
                assert!(batch.len() <= 4);
                all.extend(sent(stream.deliver(Some(batch))));
                stream.sent(true);
            },
        }
    }
    assert_eq!(all, (12..27).collect::<Vec<u64>>());
}

#[test]
fn client_drop_ends_the_stream_and_deregistration_removes_it() {
    let mut service = service(9, 64);
    service.fetch_past_data(10, txs(10, 20, 1));
    let (id, mut stream) = service.run(request(Some(10), None, Some(5))).unwrap();
    assert_eq!(id.len(), 36);
    assert_eq!(service.poll(&id, &mut stream), StreamStep::Wait { millis: 100 });
    service.update_known_latest_version(29);
    assert!(matches!(service.poll(&id, &mut stream), StreamStep::Read { .. }));
    let CacheRead::Data(batch) = service.get_data(10, u64::MAX, 5, 1024) else { panic!("no data") };
    assert_eq!(sent(stream.deliver(Some(batch))), vec![10, 11, 12, 13, 14]);
    service.sent(&id, &mut stream, true);
    assert!(stream.is_active());
    assert_eq!(service.get_active_streams().len(), 1);
    assert!(matches!(service.poll(&id, &mut stream), StreamStep::Read { .. }));
    let streams = service.get_active_streams();
    assert_eq!(streams.len(), 1);
    assert_eq!(streams[0].id.as_deref(), Some(id.as_str()));
    assert_eq!(streams[0].current_version, Some(15));
    assert_eq!(streams[0].end_version, None);
    let CacheRead::Data(batch) = service.get_data(15, u64::MAX, 5, 1024) else { panic!("no data") };
    let _ = stream.deliver(Some(batch));
    service.sent(&id, &mut stream, false);
    assert!(!stream.is_active());
    assert!(service.get_active_streams().is_empty());
}

#[test]
fn request_is_refused_without_registration() {
    let mut service = service(9, 64);
    let err = service.run(request(Some(20_000), None, None)).err().unwrap();
    assert_eq!(err.code, StatusCode::FailedPrecondition);
    assert!(service.get_active_streams().is_empty());
    assert_eq!(service.get_known_latest_version(), 9);
}

#[test]
fn two_names_differ() {
    let mut service = service(9, 64);
    let (a, _) = service.run(request(Some(9), None, None)).unwrap();
    let (b, _) = service.run(request(Some(9), None, None)).unwrap();
    assert_ne!(a, b);
    assert_eq!(service.get_active_streams().len(), 2);
}

#[test]
fn head_fetch_is_shared() {
    let mut service = service(99, 16);
    assert_eq!(service.continuously_fetch_latest_data(), 100);
    assert!(matches!(service.get_data(100, u64::MAX, 10, 1024), CacheRead::AtHead));
    assert_eq!(service.wait_for_head(), 100);
    assert_eq!(service.wait_for_head(), 100);
    assert_eq!(service.continuously_fetch_latest_data(), 100);
    assert_eq!(fetch_request(100), request(Some(100), None, None));
    assert_eq!(
        service.fetch_latest_data(Vec::new()),
        Fetched::Retry { version: 100, backoff_ms: 200 }
    );
    assert_eq!(service.wait_for_head(), 100);
    assert_eq!(service.fetch_latest_data(txs(100, 2, 1)), Fetched::Done { waiters: 3 });
    for _ in 0..2 {
        let CacheRead::Data(batch) = service.get_data(100, u64::MAX, 10, 1024) else {
            panic!("no data")
        };
        assert_eq!(batch.iter().map(|t| t.version).collect::<Vec<u64>>(), vec![100, 101]);
    }
    assert_eq!(service.continuously_fetch_latest_data(), 102);
    assert_eq!(service.wait_for_head(), 102);
    assert_eq!(service.fetch_latest_data(txs(102, 1, 1)), Fetched::Done { waiters: 1 });
    assert_eq!(service.continuously_fetch_latest_data(), 103);
}

#[test]
fn stream_that_ends_with_an_error_leaves_the_register() {
    let mut service = service(1000, 8);
    let id = String::from("s");
    let mut stream = service.start_streaming(&id, request(Some(5), None, None)).unwrap();
    assert!(matches!(service.poll(&id, &mut stream), StreamStep::Read { .. }));
    assert!(matches!(stream.deliver(None), StreamOutput::Error(_)));
    assert_eq!(service.get_active_streams().len(), 1);
    service.sent(&id, &mut stream, true);
    assert!(!stream.is_active());
    assert!(service.get_active_streams().is_empty());
}

#[test]
fn stream_moves_on_by_what_was_delivered() {
    let plan = plan_stream(&request(Some(7), Some(10), None), 100).unwrap();
    let mut stream = LiveStream::new(3, plan);
    assert_eq!(stream.next_version(), 7);
    match stream.deliver(Some(txs(7, 4, 1))) {
        StreamOutput::Response(r) => {
            assert_eq!(r.chain_id, Some(3));
            assert_eq!(r.transactions.len(), 4);
        },
        StreamOutput::Error(_) => panic!("an error"),
    }
    assert_eq!(stream.next_version(), 11);
    let _ = stream.deliver(Some(Vec::new()));
    assert_eq!(stream.next_version(), 11);
    assert_eq!(
        stream.next_step(100),
        StreamStep::Read {
            starting_version: 11,
            ending_version: 17,
            max_num_transactions: 10000,
            max_bytes: MAX_BYTES_PER_BATCH,
        }
    );
    assert_eq!(stream.next_step(10), StreamStep::Wait { millis: 100 });
    let _ = stream.deliver(Some(txs(11, 6, 1)));
    assert_eq!(stream.next_step(100), StreamStep::Finish);
    assert!(!stream.is_active());
}
