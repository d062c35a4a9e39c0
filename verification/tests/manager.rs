use indexer_stream::data_manager::{
    first_file_store_chunk, first_fullnode_chunk, lagging, DataManager, FullnodeItem,
    FullnodeRequest, Ingested, ManagerRead, BACKOFF_MS, CATCH_UP_COUNT, FILE_STORE_RETRIES,
    INGRESS_COUNT, LAGGING_VERSIONS, MAX_BATCH_SIZE,
};
use indexer_stream::manager_cache::Cache;
use indexer_stream::metadata_manager::MetadataManager;
use indexer_stream::service::{
    DataServiceWrapperWrapper, GrpcManagerService, Route, Routing, HTTP2_PING_INTERVAL_SECS,
    HTTP2_PING_TIMEOUT_SECS,
};
use indexer_stream::service_info::{
    FullnodeInfo, HeartbeatRequest, ServiceInfo, ServiceType, Timestamp,
};
use indexer_stream::status::StatusCode;
use indexer_stream::streamer::GetTransactionsRequest;
use indexer_stream::transaction::Transaction;

fn txs(start: u64, count: u64, size: usize) -> Vec<Transaction> {
    (start..start + count).map(|v| Transaction::new(v, vec![0u8; size])).collect()
}

fn manager_with(start: u64, count: u64) -> DataManager {
    let mut manager = DataManager::new(start);
    assert_eq!(manager.ingest(FullnodeItem::Data(txs(start, count, 1))), Ingested::Stored);
    manager
}

fn seen(read: ManagerRead) -> Vec<u64> {
    match read {
        ManagerRead::Transactions(txs) => txs.iter().map(|t| t.version).collect(),
        _ => panic!("not from the cache"),
    }
}

#[test]
fn manager_constants() {
    assert_eq!(MAX_BATCH_SIZE, 5 * (1 << 20));
    assert_eq!(LAGGING_VERSIONS, 20000);
    assert_eq!(CATCH_UP_COUNT, 5000);
    assert_eq!(INGRESS_COUNT, 100000);
    assert_eq!(FILE_STORE_RETRIES, 3);
    assert_eq!(BACKOFF_MS, 100);
    assert_eq!(HTTP2_PING_INTERVAL_SECS, 60);
    assert_eq!(HTTP2_PING_TIMEOUT_SECS, 10);
}

#[test]
fn lagging_is_more_than_twenty_thousand_behind() {
    assert!(!lagging(200, 20_200));
    assert!(lagging(200, 20_201));
    assert!(!lagging(200, 0));
    assert!(!lagging(u64::MAX, u64::MAX));
    assert!(!lagging(u64::MAX - 5, u64::MAX));
}

#[test]
fn reads_are_routed_by_where_the_version_lies() {
    let mut manager = manager_with(100, 100);
    match manager.get_transactions(50, 1024, 1_000_000) {
        ManagerRead::AskFileStore { version, retries, max_files } => {
            assert_eq!((version, retries, max_files), (50, 3, 1));
        },
        _ => panic!("not the file store"),
    }
    match manager.get_transactions(220, 1024, 1_000_000) {
        ManagerRead::AskFullnode(request) => {
            assert_eq!(request, FullnodeRequest { starting_version: 200, transactions_count: 5000 });
        },
        _ => panic!("not the full node"),
    }
    assert_eq!(seen(manager.get_transactions(220, 1024, 220)), Vec::<u64>::new());
    assert_eq!(seen(manager.get_transactions(200, 1024, 20_200)), Vec::<u64>::new());
    assert_eq!(seen(manager.get_transactions(150, 2, 1_000_000)), vec![150, 151, 152]);
    assert_eq!(seen(manager.get_transactions(100, 0, 0)), vec![100]);
    assert_eq!(seen(manager.get_transactions(199, 100, 0)), vec![199]);
}

#[test]
fn ingress_stores_skips_and_reconnects() {
    let mut manager = DataManager::new(10);
    assert_eq!(
        manager.ingress_request(),
        FullnodeRequest { starting_version: 10, transactions_count: 100000 }
    );
    assert!(manager.make_room());
    assert_eq!(manager.ingest(FullnodeItem::Status), Ingested::Skipped);
    assert_eq!(manager.ingest(FullnodeItem::Nothing), Ingested::Reconnect);
    assert_eq!(manager.ingest(FullnodeItem::Failed), Ingested::Reconnect);
    assert_eq!(manager.ingest(FullnodeItem::Data(txs(10, 4, 2))), Ingested::Stored);
    assert_eq!(manager.ingress_request().starting_version, 14);
    assert_eq!(
        manager.get_transactions_from_cache(10, 3, true).iter().map(|t| t.version).collect::<Vec<_>>(),
        vec![10, 11]
    );
}

#[test]
fn full_cache_holds_the_ingress_back_until_the_uploader_catches_up() {
    let mut manager = DataManager::with_cache(Cache::with_watermarks(0, 6, 2));
    assert_eq!(manager.ingest(FullnodeItem::Data(txs(0, 8, 1))), Ingested::Stored);
    assert!(!manager.make_room());
    let got = manager.get_transactions_from_cache(0, 100, true);
    assert_eq!(got.len(), 8);
    assert!(manager.make_room());
    assert_eq!(seen(manager.get_transactions(6, 100, 0)), vec![6, 7]);
    assert!(matches!(manager.get_transactions(5, 100, 0), ManagerRead::AskFileStore { .. }));
}

#[test]
fn first_chunk_of_the_full_node_is_its_first_data() {
    let got = first_fullnode_chunk(vec![
        FullnodeItem::Status,
        FullnodeItem::Nothing,
        FullnodeItem::Data(txs(5, 2, 1)),
        FullnodeItem::Data(txs(7, 2, 1)),
    ]);
    assert_eq!(got.iter().map(|t| t.version).collect::<Vec<_>>(), vec![5, 6]);
    assert!(first_fullnode_chunk(vec![FullnodeItem::Status]).is_empty());
    assert!(first_fullnode_chunk(Vec::new()).is_empty());
    assert!(first_fullnode_chunk(vec![FullnodeItem::Failed, FullnodeItem::Data(txs(5, 2, 1))])
        .is_empty());
}

#[test]
fn missing_file_store_chunk_is_an_internal_error() {
    assert_eq!(first_file_store_chunk(Some(txs(5, 2, 1))).unwrap().len(), 2);
    let err = first_file_store_chunk(None).err().unwrap();
    assert_eq!(err.code, StatusCode::Internal);
    assert!(err.message.starts_with("Failed to fetch transactions from filestore"));
}

fn heartbeat(address: Option<&str>, version: Option<u64>) -> HeartbeatRequest {
    HeartbeatRequest {
        service_info: Some(ServiceInfo {
            address: address.map(String::from),
            service_type: version.map(|v| {
                ServiceType::FullnodeInfo(FullnodeInfo {
                    timestamp: Some(Timestamp { seconds: 1, nanos: 0 }),
                    known_latest_version: Some(v),
                })
            }),
        }),
    }
}

fn service() -> (GrpcManagerService, MetadataManager, DataManager) {
    (
        GrpcManagerService::new(4),
        MetadataManager::new(String::from("self"), Vec::new(), Vec::new()),
        manager_with(100, 100),
    )
}

#[test]
fn heartbeat_needs_address_and_report() {
    let (service, mut fabric, _) = service();
    for bad in [
        HeartbeatRequest { service_info: None },
        heartbeat(None, Some(5)),
        heartbeat(Some("fn"), None),
    ] {
        let err = service.heartbeat(&mut fabric, bad).err().unwrap();
        assert_eq!(err.code, StatusCode::InvalidArgument);
        assert_eq!(err.message, "Bad request");
    }
    assert_eq!(fabric.get_known_latest_version(), 0);
    let ok = service.heartbeat(&mut fabric, heartbeat(Some("fn"), Some(500))).ok().unwrap();
    assert_eq!(ok.known_latest_version, Some(500));
    let ok = service.heartbeat(&mut fabric, heartbeat(Some("fn"), Some(300))).ok().unwrap();
    assert_eq!(ok.known_latest_version, Some(500));
    assert_eq!(fabric.get_known_latest_version(), 500);
}

#[test]
fn manager_service_serves_with_its_chain_and_budget() {
    let (service, mut fabric, mut data) = service();
    let at = |v| GetTransactionsRequest {
        starting_version: v,
        transactions_count: None,
        batch_size: None,
    };
    assert_eq!(seen(service.get_transactions(&fabric, &mut data, at(Some(198)))), vec![198, 199]);
    assert!(matches!(
        service.get_transactions(&fabric, &mut data, at(None)),
        ManagerRead::AskFileStore { version: 0, .. }
    ));
    assert_eq!(seen(service.get_transactions(&fabric, &mut data, at(Some(300)))), Vec::<u64>::new());
    let _ = service.heartbeat(&mut fabric, heartbeat(Some("fn"), Some(1_000_000)));
    assert!(matches!(
        service.get_transactions(&fabric, &mut data, at(Some(300))),
        ManagerRead::AskFullnode(FullnodeRequest { starting_version: 200, transactions_count: 5000 })
    ));
    let response = service.respond(txs(1, 2, 1));
    assert_eq!(response.chain_id, Some(4));
    assert_eq!(response.transactions.len(), 2);
}

#[test]
fn chunk_of_the_full_node_ends_with_data_or_failure() {
    assert!(FullnodeItem::Data(txs(1, 1, 1)).is_last());
    assert!(FullnodeItem::Data(Vec::new()).is_last());
    assert!(FullnodeItem::Failed.is_last());
    assert!(!FullnodeItem::Status.is_last());
    assert!(!FullnodeItem::Nothing.is_last());
}

#[test]
fn live_is_preferred_and_historical_is_the_fallback() {
    let both = DataServiceWrapperWrapper::new(true, true);
    assert_eq!(both.get_transactions(), Routing::PeekLive);
    assert_eq!(both.after_peek(true), Route::Live);
    assert_eq!(both.after_peek(false), Route::Historical);
    assert_eq!(both.ping(), Route::Live);
    let live = DataServiceWrapperWrapper::new(true, false);
    assert_eq!(live.get_transactions(), Routing::Direct(Route::Live));
    assert_eq!(live.ping(), Route::Live);
    let historical = DataServiceWrapperWrapper::new(false, true);
    assert_eq!(historical.get_transactions(), Routing::Direct(Route::Historical));
    assert_eq!(historical.ping(), Route::Historical);
}
