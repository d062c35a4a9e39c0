//! The metadata fabric of a manager: who the peers are, what they last
//! reported, whom to ask next, and the latest version that anyone has heard
//! of.

use dashmap::DashMap;
use std::collections::hash_map::RandomState;
use std::collections::VecDeque;
use vstd::prelude::*;
use crate::peer_table::{
    last_timestamp, no_peers, table_addresses, table_choose, table_count, table_new, table_put,
    table_states, table_take,
};
use crate::service_info::{
    DataServiceInfo, FullnodeInfo, GrpcManagerInfo, HeartbeatRequest, PingDataServiceRequest,
    ServiceInfo, ServiceType, Timestamp,
};

verus! {

/// Reports kept per peer.
pub const MAX_NUM_OF_STATES_TO_KEEP: usize = 100;

/// A peer is asked again once its last report is this many seconds old.
pub const PING_THRESHOLD_SECS: u64 = 5;

/// Pause between two rounds of heartbeats and pings, in milliseconds.
pub const ROUND_INTERVAL_MS: u64 = 1000;

/// The reports of the peers of one kind, by address.
pub type Peers = Map<Seq<char>, Seq<ServiceType>>;

/// Nanoseconds from the epoch to `t`, with both of its fields read as
/// unsigned numbers.
pub open spec fn timestamp_nanos(t: Timestamp) -> int {
    let seconds = if t.seconds >= 0 {
        t.seconds as int
    } else {
        t.seconds + 0x1_0000_0000_0000_0000
    };
    let nanos = if t.nanos >= 0 {
        t.nanos as int
    } else {
        t.nanos + 0x1_0000_0000
    };
    seconds * 1_000_000_000 + nanos
}

/// A report made at `latest` is stale at `now` if `threshold_seconds` or more
/// have passed since. A report from the future is as old as one made now.
pub open spec fn is_stale(
    latest: Timestamp,
    now_seconds: u64,
    now_nanos: u32,
    threshold_seconds: u64,
) -> bool {
    let now = now_seconds * 1_000_000_000 + now_nanos;
    let staleness = if now >= timestamp_nanos(latest) {
        now - timestamp_nanos(latest)
    } else {
        0
    };
    staleness >= threshold_seconds * 1_000_000_000
}

/// A peer is due for a ping if it never reported or its last report is
/// stale.
pub open spec fn is_due(states: Seq<ServiceType>, now_seconds: u64, now_nanos: u32) -> bool {
    match last_timestamp(states) {
        None => true,
        Some(t) => is_stale(t, now_seconds, now_nanos, PING_THRESHOLD_SECS),
    }
}

/// Whether a report made at `latest_state_timestamp` is stale at the time
/// `now_seconds` and `now_nanos` after the epoch.
pub fn need_ping(
    latest_state_timestamp: Timestamp,
    now_seconds: u64,
    now_nanos: u32,
    threshold_seconds: u64,
) -> (b: bool)
    ensures
        b == is_stale(latest_state_timestamp, now_seconds, now_nanos, threshold_seconds),
{
    let seconds: u128 = if latest_state_timestamp.seconds >= 0 {
        latest_state_timestamp.seconds as u128
    } else {
        (latest_state_timestamp.seconds as i128 + 0x1_0000_0000_0000_0000) as u128
    };
    let nanos: u128 = if latest_state_timestamp.nanos >= 0 {
        latest_state_timestamp.nanos as u128
    } else {
        (latest_state_timestamp.nanos as i128 + 0x1_0000_0000) as u128
    };
    let latest: u128 = seconds * 1_000_000_000 + nanos;
    let now: u128 = now_seconds as u128 * 1_000_000_000 + now_nanos as u128;
    let staleness: u128 = if now >= latest {
        now - latest
    } else {
        0
    };
    staleness >= threshold_seconds as u128 * 1_000_000_000
}

/// The reports kept after one more came in: the newest
/// `MAX_NUM_OF_STATES_TO_KEEP` of them.
pub open spec fn with_report(states: Seq<ServiceType>, info: ServiceType) -> Seq<ServiceType> {
    let all = states.push(info);
    if all.len() > MAX_NUM_OF_STATES_TO_KEEP {
        all.drop_first()
    } else {
        all
    }
}

/// The table after `address` reported `info`: an address not seen before is
/// taken in.
pub open spec fn recorded(peers: Peers, address: Seq<char>, info: ServiceType) -> Peers {
    peers.insert(
        address,
        with_report(
            if peers.contains_key(address) {
                peers[address]
            } else {
                Seq::empty()
            },
            info,
        ),
    )
}

/// No peer of the table has more than `MAX_NUM_OF_STATES_TO_KEEP` reports.
pub open spec fn bounded(peers: Peers) -> bool {
    forall|address: Seq<char>|
        peers.contains_key(address) ==> (#[trigger] peers[address]).len()
            <= MAX_NUM_OF_STATES_TO_KEEP
}

/// What a report does to a table: the address is known afterwards, the
/// report is the newest of those kept for it, no more than
/// `MAX_NUM_OF_STATES_TO_KEEP` are kept, and every other address has what it
/// had.
pub proof fn lemma_recorded(peers: Peers, address: Seq<char>, info: ServiceType)
    requires
        bounded(peers),
    ensures
        bounded(recorded(peers, address, info)),
        recorded(peers, address, info).contains_key(address),
        recorded(peers, address, info)[address].len() >= 1,
        recorded(peers, address, info)[address].last() == info,
        forall|other: Seq<char>|
            other != address ==> recorded(peers, address, info).contains_key(other)
                == peers.contains_key(other) && (peers.contains_key(other) ==> recorded(
                peers,
                address,
                info,
            )[other] == peers[other]),
{
    let after = recorded(peers, address, info);
    assert forall|a: Seq<char>| after.contains_key(a) implies (#[trigger] after[a]).len()
        <= MAX_NUM_OF_STATES_TO_KEEP by {
        if a != address {
            assert(peers.contains_key(a));
            assert(after[a] == peers[a]);
        } else if peers.contains_key(address) {
            assert(peers[address].len() <= MAX_NUM_OF_STATES_TO_KEEP);
        }
    }
}

/// Taking in addresses without reports keeps the bound.
pub proof fn lemma_with_addresses_bounded(peers: Peers, addresses: Seq<String>)
    requires
        bounded(peers),
    ensures
        bounded(with_addresses(peers, addresses)),
    decreases addresses.len(),
{
    if addresses.len() > 0 {
        lemma_with_addresses_bounded(peers, addresses.drop_last());
        let before = with_addresses(peers, addresses.drop_last());
        let after = with_addresses(peers, addresses);
        assert forall|a: Seq<char>| after.contains_key(a) implies (#[trigger] after[a]).len()
            <= MAX_NUM_OF_STATES_TO_KEEP by {
            if a != addresses.last()@ {
                assert(before.contains_key(a));
                assert(after[a] == before[a]);
            }
        }
    }
}

/// The table with each of `addresses` taken in anew, without reports.
pub open spec fn with_addresses(peers: Peers, addresses: Seq<String>) -> Peers
    decreases addresses.len(),
{
    if addresses.len() == 0 {
        peers
    } else {
        with_addresses(peers, addresses.drop_last()).insert(addresses.last()@, Seq::empty())
    }
}

/// The later of the latest known version and one just heard of.
pub open spec fn folded(known_latest_version: u64, reported: Option<u64>) -> u64 {
    match reported {
        Some(v) if v > known_latest_version => v,
        _ => known_latest_version,
    }
}

/// The latest known version after a run of reports.
pub open spec fn folded_all(known_latest_version: u64, reports: Seq<Option<u64>>) -> u64
    decreases reports.len(),
{
    if reports.len() == 0 {
        known_latest_version
    } else {
        folded(folded_all(known_latest_version, reports.drop_last()), reports.last())
    }
}

/// The latest known version never goes back: whatever is reported, and in
/// whatever order, the value after any number of reports is at least the
/// value after fewer of them, and at least every version reported so far.
pub proof fn lemma_known_latest_monotonic(
    known_latest_version: u64,
    reports: Seq<Option<u64>>,
    n: int,
)
    requires
        0 <= n <= reports.len(),
    ensures
        folded_all(known_latest_version, reports.take(n)) <= folded_all(
            known_latest_version,
            reports,
        ),
        known_latest_version <= folded_all(known_latest_version, reports),
        forall|i: int|
            0 <= i < reports.len() && (#[trigger] reports[i]) is Some ==> reports[i]->0
                <= folded_all(known_latest_version, reports),
    decreases reports.len(),
{
    if reports.len() == 0 {
        assert(reports.take(n) =~= reports);
    } else if n == reports.len() {
        assert(reports.take(n) =~= reports);
        lemma_known_latest_monotonic(known_latest_version, reports.drop_last(), n - 1);
        assert forall|i: int| 0 <= i < reports.len() && (#[trigger] reports[i]) is Some implies
            reports[i]->0 <= folded_all(known_latest_version, reports) by {
            if i < reports.len() - 1 {
                assert(reports.drop_last()[i] == reports[i]);
            }
        }
    } else {
        assert(reports.drop_last().take(n) =~= reports.take(n));
        lemma_known_latest_monotonic(known_latest_version, reports.drop_last(), n);
        assert forall|i: int| 0 <= i < reports.len() && (#[trigger] reports[i]) is Some implies
            reports[i]->0 <= folded_all(known_latest_version, reports) by {
            if i < reports.len() - 1 {
                assert(reports.drop_last()[i] == reports[i]);
            }
        }
    }
}

/// The kinds of peers that a manager keeps.
#[derive(Clone, Copy, Debug, PartialEq, Eq, Structural)]
pub enum PeerKind {
    GrpcManager,
    Fullnode,
    LiveDataService,
    HistoricalDataService,
}

/// Who is asked in one round: every manager gets a heartbeat; of the others,
/// those that are due get a ping.
pub struct Round {
    pub grpc_managers: Vec<String>,
    pub fullnodes: Vec<String>,
    pub live_data_services: Vec<String>,
    pub historical_data_services: Vec<String>,
}

/// Whether a peer with these reports is asked: any peer where no time is
/// given, and a peer that is due at the time given otherwise.
pub open spec fn wanted(states: Seq<ServiceType>, now: Option<(u64, u32)>) -> bool {
    match now {
        None => true,
        Some((now_seconds, now_nanos)) => is_due(states, now_seconds, now_nanos),
    }
}

/// `addresses` lists, each once, exactly the addresses of `peers` that are
/// asked.
pub open spec fn lists(addresses: Seq<String>, peers: Peers, now: Option<(u64, u32)>) -> bool {
    &&& forall|i: int|
        0 <= i < addresses.len() ==> peers.contains_key((#[trigger] addresses[i])@) && wanted(
            peers[addresses[i]@],
            now,
        )
    &&& forall|address: Seq<char>|
        peers.contains_key(address) && wanted(peers[address], now) ==> exists|i: int|
            0 <= i < addresses.len() && (#[trigger] addresses[i])@ == address
    &&& forall|i: int, j: int|
        0 <= i < j < addresses.len() ==> (#[trigger] addresses[i])@ != (#[trigger] addresses[j])@
}

/// The fabric as a mathematical value.
pub struct MetadataView {
    pub self_advertised_address: Seq<char>,
    pub grpc_managers: Peers,
    pub fullnodes: Peers,
    pub live_data_services: Peers,
    pub historical_data_services: Peers,
    pub known_latest_version: u64,
}

impl MetadataView {
    /// No peer of any kind has more than `MAX_NUM_OF_STATES_TO_KEEP`
    /// reports.
    pub open spec fn valid(self) -> bool {
        &&& bounded(self.grpc_managers)
        &&& bounded(self.fullnodes)
        &&& bounded(self.live_data_services)
        &&& bounded(self.historical_data_services)
    }

    /// The fabric after the heartbeat or the answer to a ping of the service
    /// at `address`. The report of a full node also moves the latest known
    /// version on.
    pub open spec fn heard(self, address: Seq<char>, report: ServiceType) -> MetadataView {
        match report {
            ServiceType::LiveDataServiceInfo(_) => MetadataView {
                live_data_services: recorded(self.live_data_services, address, report),
                ..self
            },
            ServiceType::HistoricalDataServiceInfo(_) => MetadataView {
                historical_data_services: recorded(self.historical_data_services, address, report),
                ..self
            },
            ServiceType::FullnodeInfo(info) => MetadataView {
                fullnodes: recorded(self.fullnodes, address, report),
                known_latest_version: folded(self.known_latest_version, info.known_latest_version),
                ..self
            },
            ServiceType::GrpcManagerInfo(_) => MetadataView {
                grpc_managers: recorded(self.grpc_managers, address, report),
                ..self
            },
        }
    }
}

impl MetadataView {
    /// The peers of one kind.
    pub open spec fn peers(self, kind: PeerKind) -> Peers {
        match kind {
            PeerKind::GrpcManager => self.grpc_managers,
            PeerKind::Fullnode => self.fullnodes,
            PeerKind::LiveDataService => self.live_data_services,
            PeerKind::HistoricalDataService => self.historical_data_services,
        }
    }

    /// `request` is the heartbeat of this manager at the time `timestamp`.
    pub open spec fn is_heartbeat(self, timestamp: Timestamp, request: HeartbeatRequest) -> bool {
        match request.service_info {
            Some(info) => match (info.address, info.service_type) {
                (Some(address), Some(ServiceType::GrpcManagerInfo(report))) => {
                    &&& address@ == self.self_advertised_address
                    &&& report.timestamp == Some(timestamp)
                    &&& report.known_latest_version == Some(self.known_latest_version)
                    &&& report.master_address is None
                },
                _ => false,
            },
            None => false,
        }
    }
}

/// Taking in a report keeps the bound on the reports of every peer.
pub proof fn lemma_heard_valid(state: MetadataView, address: Seq<char>, report: ServiceType)
    requires
        state.valid(),
    ensures
        state.heard(address, report).valid(),
{
    lemma_recorded(state.grpc_managers, address, report);
    lemma_recorded(state.fullnodes, address, report);
    lemma_recorded(state.live_data_services, address, report);
    lemma_recorded(state.historical_data_services, address, report);
}

/// Keeps the peers of a manager.
pub struct MetadataManager {
    self_advertised_address: String,
    grpc_managers: DashMap<String, VecDeque<ServiceType>, RandomState>,
    fullnodes: DashMap<String, VecDeque<ServiceType>, RandomState>,
    live_data_services: DashMap<String, VecDeque<ServiceType>, RandomState>,
    historical_data_services: DashMap<String, VecDeque<ServiceType>, RandomState>,
    known_latest_version: u64,
}

impl View for MetadataManager {
    type V = MetadataView;

    closed spec fn view(&self) -> MetadataView {
        MetadataView {
            self_advertised_address: self.self_advertised_address@,
            grpc_managers: table_states(self.grpc_managers),
            fullnodes: table_states(self.fullnodes),
            live_data_services: table_states(self.live_data_services),
            historical_data_services: table_states(self.historical_data_services),
            known_latest_version: self.known_latest_version,
        }
    }
}

/// Takes in the report `info` of the peer at `address`.
fn record(
    table: &mut DashMap<String, VecDeque<ServiceType>, RandomState>,
    address: String,
    info: ServiceType,
)
    ensures
        table_states(*final(table)) == recorded(table_states(*old(table)), address@, info),
{
    let mut states = match table_take(table, &address) {
        Some(states) => states,
        None => VecDeque::new(),
    };
    let ghost before = states@;
    states.push_back(info);
    if states.len() > MAX_NUM_OF_STATES_TO_KEEP {
        let _ = states.pop_front();
    }
    proof {
        assert(states@ =~= with_report(before, info));
        assert(table_states(*table).insert(address@, states@) =~= recorded(
            table_states(*old(table)),
            address@,
            info,
        ));
    }
    table_put(table, address, states);
}

/// Takes each of `addresses` into the table, without reports.
fn register(
    table: &mut DashMap<String, VecDeque<ServiceType>, RandomState>,
    addresses: &Vec<String>,
)
    ensures
        table_states(*final(table)) == with_addresses(table_states(*old(table)), addresses@),
{
    let ghost before = table_states(*table);
    let mut i: usize = 0;
    proof {
        assert(addresses@.take(0) =~= Seq::<String>::empty());
    }
    while i < addresses.len()
        invariant
            i <= addresses@.len(),
            table_states(*table) == with_addresses(before, addresses@.take(i as int)),
        decreases addresses@.len() - i,
    {
        proof {
            assert(addresses@.take(i + 1).drop_last() =~= addresses@.take(i as int));
        }
        let states: VecDeque<ServiceType> = VecDeque::new();
        table_put(table, addresses[i].clone(), states);
        i = i + 1;
    }
    proof {
        assert(addresses@.take(i as int) =~= addresses@);
    }
}

/// When the peer at `address` last reported, if the table holds it and it
/// ever did. The table is left as it was.
fn last_report_time(
    table: &mut DashMap<String, VecDeque<ServiceType>, RandomState>,
    address: &String,
) -> (r: Option<Timestamp>)
    ensures
        table_states(*final(table)) == table_states(*old(table)),
        r == if table_states(*old(table)).contains_key(address@) {
            last_timestamp(table_states(*old(table))[address@])
        } else {
            None
        },
{
    match table_take(table, address) {
        Some(states) => {
            let len = states.len();
            let latest = if len == 0 {
                None
            } else {
                Some(states[len - 1].timestamp_or_default())
            };
            table_put(table, address.clone(), states);
            proof {
                assert(table_states(*table) =~= table_states(*old(table)));
            }
            latest
        },
        None => None,
    }
}

/// The addresses of the table's peers that are due for a ping. The table is
/// left as it was.
fn due_peers(
    table: &mut DashMap<String, VecDeque<ServiceType>, RandomState>,
    now_seconds: u64,
    now_nanos: u32,
) -> (r: Vec<String>)
    ensures
        table_states(*final(table)) == table_states(*old(table)),
        lists(r@, table_states(*old(table)), Some((now_seconds, now_nanos))),
{
    let addresses = table_addresses(table);
    let ghost peers = table_states(*table);
    let ghost now = Some((now_seconds, now_nanos));
    let mut result: Vec<String> = Vec::new();
    let ghost mut from: Seq<int> = Seq::empty();
    let mut i: usize = 0;
    while i < addresses.len()
        invariant
            i <= addresses@.len(),
            peers == table_states(*table),
            now == Some((now_seconds, now_nanos)),
            forall|k: int|
                0 <= k < addresses@.len() ==> peers.contains_key((#[trigger] addresses@[k])@),
            forall|k: int, l: int|
                0 <= k < l < addresses@.len() ==> (#[trigger] addresses@[k])@ != (
                #[trigger] addresses@[l])@,
            from.len() == result@.len(),
            forall|k: int|
                0 <= k < result@.len() ==> 0 <= #[trigger] from[k] < i && result@[k]@
                    == addresses@[from[k]]@ && wanted(peers[addresses@[from[k]]@], now),
            forall|k: int, l: int| 0 <= k < l < from.len() ==> #[trigger] from[k] < #[trigger] from[l],
            forall|k: int|
                0 <= k < i && wanted(peers[(#[trigger] addresses@[k])@], now) ==> exists|m: int|
                    0 <= m < from.len() && #[trigger] from[m] == k,
        decreases addresses@.len() - i,
    {
        let due = match last_report_time(table, &addresses[i]) {
            None => true,
            Some(t) => need_ping(t, now_seconds, now_nanos, PING_THRESHOLD_SECS),
        };
        let ghost old_from = from;
        if due {
            result.push(addresses[i].clone());
            proof {
                from = from.push(i as int);
                assert(from[from.len() - 1] == i);
            }
        }
        proof {
            assert forall|k: int|
                0 <= k < i + 1 && wanted(peers[(#[trigger] addresses@[k])@], now) implies exists|
                m: int,
            | 0 <= m < from.len() && #[trigger] from[m] == k by {
                if k < i {
                    let m = choose|m: int| 0 <= m < old_from.len() && #[trigger] old_from[m] == k;
                    assert(from[m] == k);
                } else {
                    assert(from[from.len() - 1] == k);
                }
            }
        }
        i = i + 1;
    }
    proof {
        assert forall|address: Seq<char>|
            peers.contains_key(address) && wanted(peers[address], now) implies exists|k: int|
            0 <= k < result@.len() && (#[trigger] result@[k])@ == address by {
            let j = choose|j: int| 0 <= j < addresses@.len() && (#[trigger] addresses@[j])@
                == address;
            let m = choose|m: int| 0 <= m < from.len() && #[trigger] from[m] == j;
            assert(result@[m]@ == address);
        }
        assert forall|k: int, l: int| 0 <= k < l < result@.len() implies (#[trigger] result@[k])@
            != (#[trigger] result@[l])@ by {
            assert(from[k] < from[l]);
            assert(addresses@[from[k]]@ != addresses@[from[l]]@);
        }
        assert forall|k: int| 0 <= k < result@.len() implies peers.contains_key(
            (#[trigger] result@[k])@,
        ) && wanted(peers[result@[k]@], now) by {
            assert(0 <= from[k] < addresses@.len());
            assert(peers.contains_key(addresses@[from[k]]@));
        }
    }
    result
}

/// The addresses of all peers of the table.
fn all_peers(table: &DashMap<String, VecDeque<ServiceType>, RandomState>) -> (r: Vec<String>)
    ensures
        lists(r@, table_states(*table), None),
{
    table_addresses(table)
}

impl MetadataManager {
    /// No peer has more than `MAX_NUM_OF_STATES_TO_KEEP` reports.
    pub open spec fn wf(&self) -> bool {
        self@.valid()
    }

    /// A fabric that knows the given managers and full nodes, has heard
    /// nothing from anyone, and knows of no version.
    pub fn new(
        self_advertised_address: String,
        grpc_manager_addresses: Vec<String>,
        fullnode_addresses: Vec<String>,
    ) -> (m: MetadataManager)
        ensures
            m.wf(),
            m@ == (MetadataView {
                self_advertised_address: self_advertised_address@,
                grpc_managers: with_addresses(no_peers(), grpc_manager_addresses@),
                fullnodes: with_addresses(no_peers(), fullnode_addresses@),
                live_data_services: no_peers(),
                historical_data_services: no_peers(),
                known_latest_version: 0,
            }),
    {
        let mut grpc_managers = table_new();
        register(&mut grpc_managers, &grpc_manager_addresses);
        let mut fullnodes = table_new();
        register(&mut fullnodes, &fullnode_addresses);
        proof {
            lemma_with_addresses_bounded(no_peers(), grpc_manager_addresses@);
            lemma_with_addresses_bounded(no_peers(), fullnode_addresses@);
        }
        MetadataManager {
            self_advertised_address,
            grpc_managers,
            fullnodes,
            live_data_services: table_new(),
            historical_data_services: table_new(),
            known_latest_version: 0,
        }
    }

    /// Whom to ask in the round at `now_seconds` and `now_nanos` after the
    /// epoch: every manager, and each other peer that never reported or last
    /// reported `PING_THRESHOLD_SECS` or more ago. The fabric is left as it
    /// was.
    pub fn start(&mut self, now_seconds: u64, now_nanos: u32) -> (round: Round)
        ensures
            final(self)@ == old(self)@,
            lists(round.grpc_managers@, old(self)@.grpc_managers, None),
            lists(round.fullnodes@, old(self)@.fullnodes, Some((now_seconds, now_nanos))),
            lists(
                round.live_data_services@,
                old(self)@.live_data_services,
                Some((now_seconds, now_nanos)),
            ),
            lists(
                round.historical_data_services@,
                old(self)@.historical_data_services,
                Some((now_seconds, now_nanos)),
            ),
    {
        let grpc_managers = all_peers(&self.grpc_managers);
        let fullnodes = due_peers(&mut self.fullnodes, now_seconds, now_nanos);
        let live_data_services = due_peers(&mut self.live_data_services, now_seconds, now_nanos);
        let historical_data_services = due_peers(
            &mut self.historical_data_services,
            now_seconds,
            now_nanos,
        );
        Round { grpc_managers, fullnodes, live_data_services, historical_data_services }
    }

    /// Takes in what the service at `address` reports about itself, by its
    /// kind: the report joins the newest `MAX_NUM_OF_STATES_TO_KEEP` reports
    /// of that address, and an address not seen before is taken in. The
    /// report of a full node also moves the latest known version on.
    pub fn handle_heartbeat(&mut self, address: String, service_type: ServiceType)
        requires
            old(self).wf(),
        ensures
            final(self).wf(),
            final(self)@ == old(self)@.heard(address@, service_type),
            final(self)@.known_latest_version >= old(self)@.known_latest_version,
    {
        match service_type {
            ServiceType::LiveDataServiceInfo(info) => {
                self.handle_live_data_service_info(address, info)
            },
            ServiceType::HistoricalDataServiceInfo(info) => {
                self.handle_historical_data_service_info(address, info)
            },
            ServiceType::FullnodeInfo(info) => self.handle_fullnode_info(address, info),
            ServiceType::GrpcManagerInfo(info) => self.handle_grpc_manager_info(address, info),
        }
    }

    /// Takes in the report of a live data service.
    pub fn handle_live_data_service_info(&mut self, address: String, info: DataServiceInfo)
        requires
            old(self).wf(),
        ensures
            final(self).wf(),
            final(self)@ == old(self)@.heard(address@, ServiceType::LiveDataServiceInfo(info)),
    {
        proof {
            lemma_heard_valid(self@, address@, ServiceType::LiveDataServiceInfo(info));
        }
        record(&mut self.live_data_services, address, ServiceType::LiveDataServiceInfo(info));
    }

    /// Takes in the report of a historical data service.
    pub fn handle_historical_data_service_info(&mut self, address: String, info: DataServiceInfo)
        requires
            old(self).wf(),
        ensures
            final(self).wf(),
            final(self)@ == old(self)@.heard(
                address@,
                ServiceType::HistoricalDataServiceInfo(info),
            ),
    {
        proof {
            lemma_heard_valid(self@, address@, ServiceType::HistoricalDataServiceInfo(info));
        }
        record(
            &mut self.historical_data_services,
            address,
            ServiceType::HistoricalDataServiceInfo(info),
        );
    }

    /// Takes in the report of a full node, and the version it knows of.
    pub fn handle_fullnode_info(&mut self, address: String, info: FullnodeInfo)
        requires
            old(self).wf(),
        ensures
            final(self).wf(),
            final(self)@ == old(self)@.heard(address@, ServiceType::FullnodeInfo(info)),
    {
        proof {
            lemma_heard_valid(self@, address@, ServiceType::FullnodeInfo(info));
        }
        record(&mut self.fullnodes, address, ServiceType::FullnodeInfo(info));
        if let Some(known_latest_version) = info.known_latest_version {
            self.update_known_latest_version(known_latest_version);
        }
    }

    /// Takes in the report of another manager.
    pub fn handle_grpc_manager_info(&mut self, address: String, info: GrpcManagerInfo)
        requires
            old(self).wf(),
        ensures
            final(self).wf(),
            final(self)@ == old(self)@.heard(address@, ServiceType::GrpcManagerInfo(info)),
    {
        proof {
            lemma_heard_valid(self@, address@, ServiceType::GrpcManagerInfo(info));
        }
        record(&mut self.grpc_managers, address, ServiceType::GrpcManagerInfo(info));
    }

    /// The number of reports kept for the peer of kind `kind` at `address`,
    /// if there is such a peer.
    pub fn num_recent_states(&self, kind: PeerKind, address: &String) -> (r: Option<usize>)
        ensures
            r == if self@.peers(kind).contains_key(address@) {
                Some(self@.peers(kind)[address@].len() as usize)
            } else {
                None
            },
    {
        match kind {
            PeerKind::GrpcManager => table_count(&self.grpc_managers, address),
            PeerKind::Fullnode => table_count(&self.fullnodes, address),
            PeerKind::LiveDataService => table_count(&self.live_data_services, address),
            PeerKind::HistoricalDataService => table_count(
                &self.historical_data_services,
                address,
            ),
        }
    }

    /// The address of a full node to ask, picked at random among those
    /// known; none exactly if none is known.
    pub fn get_fullnode_for_request(&self) -> (r: Option<String>)
        ensures
            match r {
                Some(address) => self@.fullnodes.contains_key(address@),
                None => forall|address: Seq<char>| !self@.fullnodes.contains_key(address),
            },
    {
        table_choose(&self.fullnodes)
    }

    /// The latest version that the fabric has heard of.
    pub fn get_known_latest_version(&self) -> (v: u64)
        ensures
            v == self@.known_latest_version,
    {
        self.known_latest_version
    }

    /// Takes note of a version that someone has heard of: the latest known
    /// version becomes the greater of the two.
    pub fn update_known_latest_version(&mut self, version: u64)
        ensures
            final(self)@ == (MetadataView {
                known_latest_version: folded(old(self)@.known_latest_version, Some(version)),
                ..old(self)@
            }),
            final(self)@.known_latest_version >= old(self)@.known_latest_version,
            final(self)@.known_latest_version >= version,
            final(self).wf() == old(self).wf(),
    {
        if version > self.known_latest_version {
            self.known_latest_version = version;
        }
    }

    /// The heartbeat that this manager sends to another at the time
    /// `timestamp`: its own address, and the latest version it knows of.
    pub fn heartbeat(&self, timestamp: Timestamp) -> (request: HeartbeatRequest)
        ensures
            self@.is_heartbeat(timestamp, request),
    {
        let grpc_manager_info = GrpcManagerInfo {
            timestamp: Some(timestamp),
            known_latest_version: Some(self.known_latest_version),
            master_address: None,
        };
        let service_info = ServiceInfo {
            address: Some(self.self_advertised_address.clone()),
            service_type: Some(ServiceType::GrpcManagerInfo(grpc_manager_info)),
        };
        HeartbeatRequest { service_info: Some(service_info) }
    }

    /// The ping that this manager sends to a data service: the latest
    /// version it knows of.
    pub fn ping_request(&self) -> (request: PingDataServiceRequest)
        ensures
            request == (PingDataServiceRequest {
                known_latest_version: Some(self@.known_latest_version),
            }),
    {
        PingDataServiceRequest { known_latest_version: Some(self.known_latest_version) }
    }

    /// Takes in the answer of the full node at `address` to a ping. An
    /// answer without a report is a bad one, and changes nothing.
    pub fn ping_fullnode(&mut self, address: String, info: Option<FullnodeInfo>) -> (ok: bool)
        requires
            old(self).wf(),
        ensures
            final(self).wf(),
            ok == info is Some,
            final(self)@ == match info {
                Some(report) => old(self)@.heard(address@, ServiceType::FullnodeInfo(report)),
                None => old(self)@,
            },
    {
        match info {
            Some(report) => {
                self.handle_fullnode_info(address, report);
                true
            },
            None => false,
        }
    }

    /// Takes in the answer of the live data service at `address` to a ping.
    pub fn ping_live_data_service(&mut self, address: String, info: Option<DataServiceInfo>) -> (ok:
        bool)
        requires
            old(self).wf(),
        ensures
            final(self).wf(),
            ok == info is Some,
            final(self)@ == match info {
                Some(report) => old(self)@.heard(
                    address@,
                    ServiceType::LiveDataServiceInfo(report),
                ),
                None => old(self)@,
            },
    {
        match info {
            Some(report) => {
                self.handle_live_data_service_info(address, report);
                true
            },
            None => false,
        }
    }

    /// Takes in the answer of the historical data service at `address` to a
    /// ping.
    pub fn ping_historical_data_service(
        &mut self,
        address: String,
        info: Option<DataServiceInfo>,
    ) -> (ok: bool)
        requires
            old(self).wf(),
        ensures
            final(self).wf(),
            ok == info is Some,
            final(self)@ == match info {
                Some(report) => old(self)@.heard(
                    address@,
                    ServiceType::HistoricalDataServiceInfo(report),
                ),
                None => old(self)@,
            },
    {
        match info {
            Some(report) => {
                self.handle_historical_data_service_info(address, report);
                true
            },
            None => false,
        }
    }
}

} // verus!
