//! What a data service keeps about its connections: the latest version it
//! has heard of, and the streams it is serving.

use vstd::prelude::*;
use crate::service_info::{
    ActiveStream, DataServiceInfo, PingDataServiceRequest, PingDataServiceResponse, StreamInfo,
    Timestamp,
};

verus! {

/// A stream on the register.
pub struct StreamRecord {
    pub id: String,
    pub starting_version: u64,
    pub current_version: u64,
    pub end_version: Option<u64>,
}

/// `StreamRecord` as a mathematical value.
pub struct StreamRecordView {
    pub id: Seq<char>,
    pub starting_version: u64,
    pub current_version: u64,
    pub end_version: Option<u64>,
}

impl View for StreamRecord {
    type V = StreamRecordView;

    open spec fn view(&self) -> StreamRecordView {
        StreamRecordView {
            id: self.id@,
            starting_version: self.starting_version,
            current_version: self.current_version,
            end_version: self.end_version,
        }
    }
}

/// The register without the streams named `id`.
pub open spec fn without(streams: Seq<StreamRecordView>, id: Seq<char>) -> Seq<StreamRecordView>
    decreases streams.len(),
{
    if streams.len() == 0 {
        Seq::empty()
    } else if streams.last().id == id {
        without(streams.drop_last(), id)
    } else {
        without(streams.drop_last(), id).push(streams.last())
    }
}

/// The register with the streams named `id` moved on to `version`.
pub open spec fn progressed(streams: Seq<StreamRecordView>, id: Seq<char>, version: u64) -> Seq<
    StreamRecordView,
> {
    Seq::new(
        streams.len(),
        |i: int|
            if streams[i].id == id {
                StreamRecordView { current_version: version, ..streams[i] }
            } else {
                streams[i]
            },
    )
}

/// Whether a stream named `id` is on the register.
pub open spec fn registered(streams: Seq<StreamRecordView>, id: Seq<char>) -> bool {
    exists|i: int| 0 <= i < streams.len() && (#[trigger] streams[i]).id == id
}

/// A stream that was taken off the register is not on it any more, and every
/// other stream is on it exactly if it was before.
pub proof fn lemma_without(streams: Seq<StreamRecordView>, id: Seq<char>)
    ensures
        !registered(without(streams, id), id),
        forall|other: Seq<char>|
            other != id ==> (registered(without(streams, id), other) <==> registered(
                streams,
                other,
            )),
        without(streams, id).len() <= streams.len(),
    decreases streams.len(),
{
    if streams.len() > 0 {
        let rest = streams.drop_last();
        lemma_without(rest, id);
        let out = without(streams, id);
        assert forall|other: Seq<char>| other != id implies (registered(out, other) <==> registered(
            streams,
            other,
        )) by {
            if registered(out, other) {
                let i = choose|i: int| 0 <= i < out.len() && (#[trigger] out[i]).id == other;
                if i < without(rest, id).len() {
                    assert(without(rest, id)[i].id == other);
                    assert(registered(rest, other));
                    let j = choose|j: int| 0 <= j < rest.len() && (#[trigger] rest[j]).id == other;
                    assert(streams[j].id == other);
                } else {
                    assert(streams[streams.len() - 1].id == other);
                }
            }
            if registered(streams, other) {
                let j = choose|j: int| 0 <= j < streams.len() && (#[trigger] streams[j]).id
                    == other;
                if j < rest.len() {
                    assert(rest[j].id == other);
                    assert(registered(rest, other));
                    assert(registered(without(rest, id), other));
                    let i = choose|i: int|
                        0 <= i < without(rest, id).len() && (#[trigger] without(rest, id)[i]).id
                            == other;
                    assert(out[i].id == other);
                } else {
                    assert(out[out.len() - 1].id == other);
                }
            }
        }
        if registered(out, id) {
            let i = choose|i: int| 0 <= i < out.len() && (#[trigger] out[i]).id == id;
            if i < without(rest, id).len() {
                assert(without(rest, id)[i].id == id);
            }
        }
    }
}

/// The views of a run of records, in order.
pub open spec fn record_views(streams: Seq<StreamRecord>) -> Seq<StreamRecordView> {
    streams.map_values(|r: StreamRecord| r@)
}

/// What a data service reports of a stream on its register.
pub open spec fn reported(record: StreamRecordView, stream: ActiveStream) -> bool {
    &&& stream.id matches Some(id)
    &&& id@ == record.id
    &&& stream.current_version == Some(record.current_version)
    &&& stream.end_version == record.end_version
}

/// The connection manager as a mathematical value.
pub struct ConnectionView {
    pub known_latest_version: u64,
    /// The streams served, in the order in which they were registered.
    pub active_streams: Seq<StreamRecordView>,
}

/// The state that a data service shares between its streams and its
/// control plane.
pub struct ConnectionManager {
    known_latest_version: u64,
    active_streams: Vec<StreamRecord>,
}

impl View for ConnectionManager {
    type V = ConnectionView;

    closed spec fn view(&self) -> ConnectionView {
        ConnectionView {
            known_latest_version: self.known_latest_version,
            active_streams: record_views(self.active_streams@),
        }
    }
}

impl ConnectionManager {
    /// A manager that knows of `known_latest_version` and serves no stream.
    pub fn new(known_latest_version: u64) -> (m: ConnectionManager)
        ensures
            m@ == (ConnectionView { known_latest_version, active_streams: Seq::empty() }),
    {
        let m = ConnectionManager { known_latest_version, active_streams: Vec::new() };
        assert(record_views(m.active_streams@) =~= Seq::<StreamRecordView>::empty());
        m
    }

    /// The latest version that the service has heard of.
    pub fn known_latest_version(&self) -> (v: u64)
        ensures
            v == self@.known_latest_version,
    {
        self.known_latest_version
    }

    /// Takes note of a version that someone has heard of: the latest known
    /// version becomes the greater of the two, and never goes back.
    pub fn update_known_latest_version(&mut self, version: u64)
        ensures
            final(self)@ == (ConnectionView {
                known_latest_version: if version > old(self)@.known_latest_version {
                    version
                } else {
                    old(self)@.known_latest_version
                },
                ..old(self)@
            }),
            final(self)@.known_latest_version >= old(self)@.known_latest_version,
    {
        if version > self.known_latest_version {
            self.known_latest_version = version;
        }
    }

    /// Takes the streams named `id` off the register.
    pub fn remove_active_stream(&mut self, id: &String)
        ensures
            final(self)@ == (ConnectionView {
                active_streams: without(old(self)@.active_streams, id@),
                ..old(self)@
            }),
    {
        let mut taken: Vec<StreamRecord> = Vec::new();
        std::mem::swap(&mut self.active_streams, &mut taken);
        let ghost all = taken@;
        let mut kept: Vec<StreamRecord> = Vec::new();
        proof {
            assert(record_views(all.take(0)) =~= Seq::<StreamRecordView>::empty());
            assert(record_views(kept@) =~= Seq::<StreamRecordView>::empty());
        }
        for record in it: taken
            invariant
                it.seq() == all,
                record_views(kept@) == without(record_views(all.take(it.index())), id@),
        {
            let ghost i = it.index();
            let ghost before = kept@;
            proof {
                assert(all.take(i + 1).drop_last() =~= all.take(i));
                assert(record_views(all.take(i + 1)).drop_last() =~= record_views(all.take(i)));
                assert(record_views(all.take(i + 1)).last() == all[i]@);
            }
            if record.id != *id {
                kept.push(record);
                proof {
                    assert(record_views(kept@) =~= record_views(before).push(all[i]@));
                }
            }
        }
        proof {
            assert(all.take(all.len() as int) =~= all);
        }
        self.active_streams = kept;
    }

    /// Puts a stream on the register, in place of any of the same name.
    pub fn insert_active_stream(
        &mut self,
        id: &String,
        starting_version: u64,
        ending_version: Option<u64>,
    )
        ensures
            final(self)@ == (ConnectionView {
                active_streams: without(old(self)@.active_streams, id@).push(
                    StreamRecordView {
                        id: id@,
                        starting_version,
                        current_version: starting_version,
                        end_version: ending_version,
                    },
                ),
                ..old(self)@
            }),
    {
        self.remove_active_stream(id);
        let ghost before = self.active_streams@;
        let record = StreamRecord {
            id: id.clone(),
            starting_version,
            current_version: starting_version,
            end_version: ending_version,
        };
        self.active_streams.push(record);
        proof {
            assert(record_views(self.active_streams@) =~= record_views(before).push(record@));
        }
    }

    /// Notes that the stream named `id` stands at `version`.
    pub fn update_stream_progress(&mut self, id: &String, version: u64)
        ensures
            final(self)@ == (ConnectionView {
                active_streams: progressed(old(self)@.active_streams, id@, version),
                ..old(self)@
            }),
    {
        let ghost all = record_views(self.active_streams@);
        let mut i: usize = 0;
        while i < self.active_streams.len()
            invariant
                i <= self.active_streams@.len(),
                self.active_streams@.len() == all.len(),
                self.known_latest_version == old(self).known_latest_version,
                forall|k: int|
                    0 <= k < all.len() ==> (#[trigger] self.active_streams@[k])@ == if k < i {
                        progressed(all, id@, version)[k]
                    } else {
                        all[k]
                    },
            decreases self.active_streams@.len() - i,
        {
            if self.active_streams[i].id == *id {
                let record = StreamRecord {
                    id: self.active_streams[i].id.clone(),
                    starting_version: self.active_streams[i].starting_version,
                    current_version: version,
                    end_version: self.active_streams[i].end_version,
                };
                self.active_streams.set(i, record);
            }
            i = i + 1;
        }
        proof {
            assert(record_views(self.active_streams@) =~= progressed(all, id@, version));
        }
    }

    /// The streams on the register, as the service reports them, in the
    /// order in which they were registered.
    pub fn get_active_streams(&self) -> (r: Vec<ActiveStream>)
        ensures
            r@.len() == self@.active_streams.len(),
            forall|i: int| 0 <= i < r@.len() ==> reported(self@.active_streams[i], #[trigger] r@[i]),
    {
        let mut result: Vec<ActiveStream> = Vec::new();
        let mut i: usize = 0;
        while i < self.active_streams.len()
            invariant
                i <= self.active_streams@.len(),
                result@.len() == i,
                forall|k: int|
                    0 <= k < i ==> reported(self.active_streams@[k]@, #[trigger] result@[k]),
            decreases self.active_streams@.len() - i,
        {
            let record = &self.active_streams[i];
            result.push(
                ActiveStream {
                    id: Some(record.id.clone()),
                    current_version: Some(record.current_version),
                    end_version: record.end_version,
                },
            );
            i = i + 1;
        }
        result
    }

    /// Answers a ping at the time `timestamp`: takes note of the version
    /// that the caller knows of, and reports the time, the latest version
    /// known here, and the streams served.
    pub fn ping(&mut self, request: PingDataServiceRequest, timestamp: Timestamp) -> (response:
        PingDataServiceResponse)
        ensures
            final(self)@ == (ConnectionView {
                known_latest_version: match request.known_latest_version {
                    Some(v) if v > old(self)@.known_latest_version => v,
                    _ => old(self)@.known_latest_version,
                },
                ..old(self)@
            }),
            final(self)@.known_latest_version >= old(self)@.known_latest_version,
            response.info matches Some(info) && is_report(final(self)@, timestamp, info),
    {
        if let Some(version) = request.known_latest_version {
            self.update_known_latest_version(version);
        }
        let stream_info = StreamInfo { active_streams: self.get_active_streams() };
        let info = DataServiceInfo {
            timestamp: Some(timestamp),
            known_latest_version: Some(self.known_latest_version),
            stream_info: Some(stream_info),
        };
        PingDataServiceResponse { info: Some(info) }
    }
}

/// `info` is the report of a service in the state `state` at the time
/// `timestamp`.
pub open spec fn is_report(state: ConnectionView, timestamp: Timestamp, info: DataServiceInfo) -> bool {
    &&& info.timestamp == Some(timestamp)
    &&& info.known_latest_version == Some(state.known_latest_version)
    &&& info.stream_info matches Some(streams)
    &&& streams.active_streams@.len() == state.active_streams.len()
    &&& forall|i: int|
        0 <= i < state.active_streams.len() ==> reported(
            state.active_streams[i],
            #[trigger] streams.active_streams@[i],
        )
}

} // verus!
