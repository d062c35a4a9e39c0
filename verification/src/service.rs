//! The front of the services: what a request is answered with, and which
//! service answers it.

use vstd::prelude::*;
use crate::data_manager::{source_of, DataManager, ManagerRead, Source, MAX_BATCH_SIZE};
use crate::metadata_manager::MetadataManager;
use crate::service_info::{HeartbeatRequest, HeartbeatResponse, ServiceType};
use crate::status::{Status, StatusCode, BAD_REQUEST};
use crate::streamer::{GetTransactionsRequest, TransactionsResponse};
use crate::transaction::{views, Transaction};

verus! {

/// Seconds between two keep-alive pings of a connection.
pub const HTTP2_PING_INTERVAL_SECS: u64 = 60;

/// Seconds after which a keep-alive ping without answer ends a connection.
pub const HTTP2_PING_TIMEOUT_SECS: u64 = 10;

/// Who reports what in a heartbeat, if the request says both.
pub open spec fn heartbeat_of(request: HeartbeatRequest) -> Option<(Seq<char>, ServiceType)> {
    match request.service_info {
        Some(info) => match (info.address, info.service_type) {
            (Some(address), Some(service_type)) => Some((address@, service_type)),
            _ => None,
        },
        None => None,
    }
}

/// The manager's service: what its methods answer, over the fabric and the
/// data manager of the process.
#[derive(Clone, Copy, Debug, PartialEq, Eq, Structural)]
pub struct GrpcManagerService {
    pub chain_id: u64,
}

impl GrpcManagerService {
    pub fn new(chain_id: u64) -> (s: GrpcManagerService)
        ensures
            s.chain_id == chain_id,
    {
        GrpcManagerService { chain_id }
    }

    /// Answers a heartbeat. A request that does not say who reports, or not
    /// what, is a bad one and changes nothing; any other is taken in, and
    /// answered with the latest known version.
    pub fn heartbeat(&self, metadata_manager: &mut MetadataManager, request: HeartbeatRequest) -> (r:
        Result<HeartbeatResponse, Status>)
        requires
            old(metadata_manager).wf(),
        ensures
            final(metadata_manager).wf(),
            final(metadata_manager)@.known_latest_version >= old(
                metadata_manager,
            )@.known_latest_version,
            match heartbeat_of(request) {
                Some((address, service_type)) => {
                    &&& final(metadata_manager)@ == old(metadata_manager)@.heard(
                        address,
                        service_type,
                    )
                    &&& r == Ok::<HeartbeatResponse, Status>(
                        HeartbeatResponse {
                            known_latest_version: Some(
                                final(metadata_manager)@.known_latest_version,
                            ),
                        },
                    )
                },
                None => {
                    &&& final(metadata_manager)@ == old(metadata_manager)@
                    &&& r matches Err(status)
                    &&& status.code == StatusCode::InvalidArgument
                    &&& status.message@ == BAD_REQUEST@
                },
            },
    {
        if let Some(service_info) = request.service_info {
            if let Some(address) = service_info.address {
                if let Some(service_type) = service_info.service_type {
                    return Ok(self.handle_heartbeat(metadata_manager, address, service_type));
                }
            }
        }
        Err(Status::invalid_argument())
    }

    /// Takes in the report of the service at `address` and answers with the
    /// latest known version.
    pub fn handle_heartbeat(
        &self,
        metadata_manager: &mut MetadataManager,
        address: String,
        service_type: ServiceType,
    ) -> (r: HeartbeatResponse)
        requires
            old(metadata_manager).wf(),
        ensures
            final(metadata_manager).wf(),
            final(metadata_manager)@ == old(metadata_manager)@.heard(address@, service_type),
            final(metadata_manager)@.known_latest_version >= old(
                metadata_manager,
            )@.known_latest_version,
            r == (HeartbeatResponse {
                known_latest_version: Some(final(metadata_manager)@.known_latest_version),
            }),
    {
        metadata_manager.handle_heartbeat(address, service_type);
        HeartbeatResponse { known_latest_version: Some(metadata_manager.get_known_latest_version()) }
    }

    /// Serves a read: from the version that the request names, or from the
    /// first version of all if it names none, with the manager's byte
    /// budget and the latest version that the fabric knows of. See
    /// `DataManager::get_transactions`.
    pub fn get_transactions(
        &self,
        metadata_manager: &MetadataManager,
        data_manager: &mut DataManager,
        request: GetTransactionsRequest,
    ) -> (r: ManagerRead)
        requires
            old(data_manager).wf(),
        ensures
            final(data_manager).wf(),
            final(data_manager)@ == old(data_manager)@,
            match source_of(
                old(data_manager)@.start_version as u64,
                old(data_manager)@.end_version() as u64,
                requested_version(request),
                metadata_manager@.known_latest_version,
            ) {
                Source::Cache => r matches ManagerRead::Transactions(txs) && views(txs@) == views(
                    old(data_manager)@.select(
                        requested_version(request) as int,
                        MAX_BATCH_SIZE as int,
                    ),
                ),
                Source::Fullnode(request) => r matches ManagerRead::AskFullnode(q) && q == request,
                Source::Nothing => r matches ManagerRead::Transactions(txs) && txs@.len() == 0,
                Source::FileStore { version, retries, max_files } => r
                    matches ManagerRead::AskFileStore { version: v, retries: n, max_files: m }
                    && v == version && n == retries && m == max_files,
            },
    {
        let starting_version = match request.starting_version {
            Some(v) => v,
            None => 0,
        };
        let known_latest_version = metadata_manager.get_known_latest_version();
        data_manager.get_transactions(starting_version, MAX_BATCH_SIZE, known_latest_version)
    }

    /// The response that carries `transactions`.
    pub fn respond(&self, transactions: Vec<Transaction>) -> (response: TransactionsResponse)
        ensures
            response.transactions == transactions,
            response.chain_id == Some(self.chain_id),
    {
        TransactionsResponse { transactions, chain_id: Some(self.chain_id) }
    }
}

/// The version that a read of the manager begins at.
pub open spec fn requested_version(request: GetTransactionsRequest) -> u64 {
    match request.starting_version {
        Some(v) => v,
        None => 0,
    }
}

/// One of the two data services.
#[derive(Clone, Copy, Debug, PartialEq, Eq, Structural)]
pub enum Route {
    Live,
    Historical,
}

/// How a request for a stream is routed.
#[derive(Clone, Copy, Debug, PartialEq, Eq, Structural)]
pub enum Routing {
    /// The one service that is there answers.
    Direct(Route),
    /// Both are there: open the stream at the live service and look at its
    /// first item.
    PeekLive,
}

/// The front of a process that hosts the live data service, the historical
/// one, or both.
#[derive(Clone, Copy, Debug, PartialEq, Eq, Structural)]
pub struct DataServiceWrapperWrapper {
    pub live_data_service: bool,
    pub historical_data_service: bool,
}

impl DataServiceWrapperWrapper {
    pub fn new(live_data_service: bool, historical_data_service: bool) -> (w:
        DataServiceWrapperWrapper)
        ensures
            w == (DataServiceWrapperWrapper { live_data_service, historical_data_service }),
    {
        DataServiceWrapperWrapper { live_data_service, historical_data_service }
    }

    /// How a request for a stream is routed: where both services are there
    /// the live one is tried first.
    pub fn get_transactions(&self) -> (r: Routing)
        requires
            self.live_data_service || self.historical_data_service,
        ensures
            r == if self.live_data_service && self.historical_data_service {
                Routing::PeekLive
            } else if self.live_data_service {
                Routing::Direct(Route::Live)
            } else {
                Routing::Direct(Route::Historical)
            },
    {
        if self.live_data_service {
            if self.historical_data_service {
                Routing::PeekLive
            } else {
                Routing::Direct(Route::Live)
            }
        } else {
            Routing::Direct(Route::Historical)
        }
    }

    /// Who serves the stream once the first item of the live service is
    /// known: the live service if that item is a batch, the historical one
    /// if it is an error or if the stream ended without an item.
    pub fn after_peek(&self, first_item_is_ok: bool) -> (r: Route)
        ensures
            r == if first_item_is_ok {
                Route::Live
            } else {
                Route::Historical
            },
    {
        if first_item_is_ok {
            Route::Live
        } else {
            Route::Historical
        }
    }

    /// Who answers a ping: the live service where it is there.
    pub fn ping(&self) -> (r: Route)
        requires
            self.live_data_service || self.historical_data_service,
        ensures
            r == if self.live_data_service {
                Route::Live
            } else {
                Route::Historical
            },
    {
        if self.live_data_service {
            Route::Live
        } else {
            Route::Historical
        }
    }
}

} // verus!
