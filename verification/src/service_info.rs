//! What the services of the system report about themselves.

use vstd::prelude::*;

verus! {

/// A point in time: seconds and nanoseconds since the Unix epoch.
#[derive(Clone, Copy, Debug, PartialEq, Eq, Structural)]
pub struct Timestamp {
    pub seconds: i64,
    pub nanos: i32,
}

/// A stream that a data service is serving.
pub struct ActiveStream {
    pub id: Option<String>,
    pub current_version: Option<u64>,
    pub end_version: Option<u64>,
}

/// The streams that a data service is serving.
pub struct StreamInfo {
    pub active_streams: Vec<ActiveStream>,
}

/// The report of a data service.
pub struct DataServiceInfo {
    pub timestamp: Option<Timestamp>,
    pub known_latest_version: Option<u64>,
    pub stream_info: Option<StreamInfo>,
}

/// The report of a full node.
#[derive(Clone, Copy, Debug, PartialEq, Eq, Structural)]
pub struct FullnodeInfo {
    pub timestamp: Option<Timestamp>,
    pub known_latest_version: Option<u64>,
}

/// The report of a manager.
pub struct GrpcManagerInfo {
    pub timestamp: Option<Timestamp>,
    pub known_latest_version: Option<u64>,
    pub master_address: Option<String>,
}

/// A report, by the kind of service that made it.
pub enum ServiceType {
    LiveDataServiceInfo(DataServiceInfo),
    HistoricalDataServiceInfo(DataServiceInfo),
    FullnodeInfo(FullnodeInfo),
    GrpcManagerInfo(GrpcManagerInfo),
}

/// Who reports, and what.
pub struct ServiceInfo {
    pub address: Option<String>,
    pub service_type: Option<ServiceType>,
}

/// A heartbeat: a service tells a manager about itself.
pub struct HeartbeatRequest {
    pub service_info: Option<ServiceInfo>,
}

/// The manager's answer to a heartbeat.
#[derive(Clone, Copy, Debug, PartialEq, Eq, Structural)]
pub struct HeartbeatResponse {
    pub known_latest_version: Option<u64>,
}

/// A ping: a manager asks a data service about itself and tells it the
/// latest version it knows of.
#[derive(Clone, Copy, Debug, PartialEq, Eq, Structural)]
pub struct PingDataServiceRequest {
    pub known_latest_version: Option<u64>,
}

/// The data service's answer to a ping.
pub struct PingDataServiceResponse {
    pub info: Option<DataServiceInfo>,
}

impl ServiceType {
    /// When the report was made; the epoch for a report that does not say.
    pub open spec fn spec_timestamp(self) -> Timestamp {
        let t = match self {
            ServiceType::LiveDataServiceInfo(info) => info.timestamp,
            ServiceType::HistoricalDataServiceInfo(info) => info.timestamp,
            ServiceType::FullnodeInfo(info) => info.timestamp,
            ServiceType::GrpcManagerInfo(info) => info.timestamp,
        };
        match t {
            Some(t) => t,
            None => Timestamp { seconds: 0, nanos: 0 },
        }
    }

    /// When the report was made; the epoch for a report that does not say.
    pub fn timestamp_or_default(&self) -> (t: Timestamp)
        ensures
            t == self.spec_timestamp(),
    {
        let t = match self {
            ServiceType::LiveDataServiceInfo(info) => info.timestamp,
            ServiceType::HistoricalDataServiceInfo(info) => info.timestamp,
            ServiceType::FullnodeInfo(info) => info.timestamp,
            ServiceType::GrpcManagerInfo(info) => info.timestamp,
        };
        match t {
            Some(t) => t,
            None => Timestamp { seconds: 0, nanos: 0 },
        }
    }
}

} // verus!
