//! The virtual channel: a data hub without a physical device.
//!
//! Writes are accepted unconditionally into a latest-value map and handed
//! back for event fan-out; reads return the current snapshot. The channel
//! is always connected.

use crate::data::{DataBatch, DataPoint, DataPointV, DataType, Value};
use crate::error::GatewayError;
use crate::j1939::{batch_selected, spec_cache_hits};
use crate::point::PointConfig;
use crate::state::{AdjustmentCommand, CommunicationMode, ConnectionState, ControlCommand};
use crate::state::{Diagnostics, ReadRequest, ReadResponse, WriteResult};
use std::collections::HashMap;
use vstd::prelude::*;

verus! {

broadcast use vstd::std_specs::hash::group_hash_axioms;

/// Virtual channel configuration.
#[derive(Debug)]
pub struct VirtualChannelConfig {
    /// Channel name for identification.
    pub name: String,
    /// Point configurations: the points the channel accepts.
    pub points: Vec<PointConfig>,
    /// Event buffer size.
    pub buffer_size: usize,
}

impl Default for VirtualChannelConfig {
    /// An anonymous hub with a buffer of 1024.
    fn default() -> (c: VirtualChannelConfig)
        ensures
            c.name@ == "virtual"@,
            c.points@.len() == 0,
            c.buffer_size == 1024,
    {
        VirtualChannelConfig {
            name: String::from_str("virtual"),
            points: Vec::new(),
            buffer_size: 1024,
        }
    }
}

impl VirtualChannelConfig {
    /// A named hub.
    pub fn new(name: String) -> (c: VirtualChannelConfig)
        ensures
            c.name@ == name@,
            c.points@.len() == 0,
            c.buffer_size == 1024,
    {
        VirtualChannelConfig { name, points: Vec::new(), buffer_size: 1024 }
    }

    /// Replace the point configurations.
    pub fn with_points(self, points: Vec<PointConfig>) -> (c: VirtualChannelConfig)
        ensures
            c == (VirtualChannelConfig { points, ..self }),
    {
        VirtualChannelConfig { points, ..self }
    }

    /// Set the buffer size.
    pub fn with_buffer_size(self, size: usize) -> (c: VirtualChannelConfig)
        ensures
            c == (VirtualChannelConfig { buffer_size: size, ..self }),
    {
        VirtualChannelConfig { buffer_size: size, ..self }
    }
}

/// The abstract contents of a latest-value map.
pub open spec fn views_of(m: Map<u32, DataPoint>) -> Map<u32, DataPointV> {
    Map::new(|k: u32| m.contains_key(k), |k: u32| m[k]@)
}

/// The store after writing a list of points in order: each point becomes
/// the latest value of its identifier, later points overriding earlier
/// ones.
pub open spec fn spec_store_views(points: Seq<DataPoint>, m: Map<u32, DataPointV>) -> Map<
    u32,
    DataPointV,
>
    decreases points.len(),
{
    if points.len() == 0 {
        m
    } else {
        spec_store_views(points.drop_last(), m).insert(points.last().id, points.last()@)
    }
}

/// Storing a concatenation is storing the parts in order.
proof fn lemma_store_views_concat(a: Seq<DataPoint>, b: Seq<DataPoint>, m: Map<u32, DataPointV>)
    ensures
        spec_store_views(a + b, m) == spec_store_views(b, spec_store_views(a, m)),
    decreases b.len(),
{
    if b.len() == 0 {
        assert(a + b =~= a);
    } else {
        assert((a + b).drop_last() =~= a + b.drop_last());
        assert((a + b).last() == b.last());
        lemma_store_views_concat(a, b.drop_last(), m);
    }
}

/// A point whose identifier occurs only once in the list is stored as
/// written.
proof fn lemma_store_views_last_wins(points: Seq<DataPoint>, m: Map<u32, DataPointV>, k: int)
    requires
        0 <= k < points.len(),
        forall|k2: int| k < k2 < points.len() ==> (#[trigger] points[k2]).id != points[k].id,
    ensures
        spec_store_views(points, m).contains_key(points[k].id),
        spec_store_views(points, m)[points[k].id] == points[k]@,
    decreases points.len(),
{
    if k == points.len() - 1 {
    } else {
        assert(points.drop_last()[k] == points[k]);
        lemma_store_views_last_wins(points.drop_last(), m, k);
    }
}

/// Every written identifier is in the store afterwards.
proof fn lemma_store_views_contains(points: Seq<DataPoint>, m: Map<u32, DataPointV>, k: int)
    requires
        0 <= k < points.len(),
    ensures
        spec_store_views(points, m).contains_key(points[k].id),
    decreases points.len(),
{
    if k < points.len() - 1 {
        assert(points.drop_last()[k] == points[k]);
        lemma_store_views_contains(points.drop_last(), m, k);
        if spec_store_views(points.drop_last(), m).contains_key(points[k].id) {
        }
    }
}

/// Storing a list of points leaves every other identifier untouched.
proof fn lemma_store_views_frame(points: Seq<DataPoint>, m: Map<u32, DataPointV>, k: u32)
    requires
        forall|i: int| 0 <= i < points.len() ==> (#[trigger] points[i]).id != k,
    ensures
        spec_store_views(points, m).contains_key(k) <==> m.contains_key(k),
        m.contains_key(k) ==> spec_store_views(points, m)[k] == m[k],
    decreases points.len(),
{
    if points.len() > 0 {
        assert(forall|i: int|
            0 <= i < points.drop_last().len() ==> (#[trigger] points.drop_last()[i]).id != k);
        lemma_store_views_frame(points.drop_last(), m, k);
    }
}

/// The hits a read of the virtual store produces for one of the four
/// lists: the wanted identifiers whose cached point has that data type,
/// when the request admits the type; nothing otherwise.
pub open spec fn vlist_hits(
    wanted: Seq<u32>,
    cache: Map<u32, DataPoint>,
    req_dt: Option<DataType>,
    t: DataType,
) -> Seq<u32> {
    if req_dt is None || req_dt == Some(t) {
        spec_cache_hits(wanted, cache, Some(t))
    } else {
        Seq::empty()
    }
}

/// Whether the store moved from `m0` to `m2` without touching any
/// identifier outside the written commands.
pub open spec fn control_frame_ok(
    m0: Map<u32, DataPointV>,
    m2: Map<u32, DataPointV>,
    ids: Seq<u32>,
) -> bool {
    forall|k2: u32|
        (forall|j: int| 0 <= j < ids.len() ==> (#[trigger] ids[j]) != k2) ==> ((
        #[trigger] m2.contains_key(k2) <==> m0.contains_key(k2)) && (m0.contains_key(k2)
            ==> m2[k2] == m0[k2]))
}

/// Whether a result list is, point for point, the cached values of the
/// given hit identifiers.
pub open spec fn list_matches_hits(
    list: Seq<DataPoint>,
    hits: Seq<u32>,
    cache: Map<u32, DataPoint>,
) -> bool {
    &&& list.len() == hits.len()
    &&& forall|i: int| 0 <= i < hits.len() ==> (#[trigger] list[i])@ == cache[hits[i]]@
}

/// Virtual channel: accepts writes from any source, stores the latest
/// value of each point and hands batches back for event fan-out.
#[derive(Debug)]
pub struct VirtualChannel {
    /// Channel configuration.
    config: VirtualChannelConfig,
    /// Channel identifier.
    channel_id: u32,
    /// Latest value of each point.
    latest: HashMap<u32, DataPoint>,
    /// The point identifiers present in the map, in first-seen order.
    latest_ids: Vec<u32>,
    /// Number of write calls.
    write_count: u64,
    /// Number of read calls.
    read_count: u64,
    /// Number of points stored over the channel's lifetime.
    points_stored: u64,
}

impl VirtualChannel {
    /// Invariants: cached points are well-formed and keyed by identifier,
    /// and the key list mirrors the cache.
    pub closed spec fn wf(self) -> bool {
        &&& forall|k: u32|
            self.latest@.contains_key(k) ==> (#[trigger] self.latest@[k]).wf() && self.latest@[k].id
                == k
        &&& forall|i: int|
            0 <= i < self.latest_ids@.len() ==> self.latest@.contains_key(
                #[trigger] self.latest_ids@[i],
            )
    }

    /// The latest-value map.
    pub closed spec fn spec_latest(self) -> Map<u32, DataPoint> {
        self.latest@
    }

    /// The channel identifier.
    pub closed spec fn spec_channel_id(self) -> u32 {
        self.channel_id
    }

    /// Number of write calls so far.
    pub closed spec fn spec_write_count(self) -> u64 {
        self.write_count
    }

    /// Number of read calls so far.
    pub closed spec fn spec_read_count(self) -> u64 {
        self.read_count
    }

    /// The channel name.
    pub closed spec fn spec_name(self) -> Seq<char> {
        self.config.name@
    }

    /// The stored identifiers, in first-seen order.
    pub closed spec fn spec_latest_ids(self) -> Seq<u32> {
        self.latest_ids@
    }

    /// Points stored over the channel's lifetime.
    pub closed spec fn spec_points_stored(self) -> u64 {
        self.points_stored
    }

    /// Create a new virtual channel.
    pub fn new(config: VirtualChannelConfig, channel_id: u32) -> (c: VirtualChannel)
        ensures
            c.wf(),
            c.spec_channel_id() == channel_id,
            c.spec_latest() == Map::<u32, DataPoint>::empty(),
            c.spec_write_count() == 0,
    {
        VirtualChannel {
            config,
            channel_id,
            latest: HashMap::new(),
            latest_ids: Vec::new(),
            write_count: 0,
            read_count: 0,
            points_stored: 0,
        }
    }

    /// The channel identifier.
    pub fn channel_id(&self) -> (id: u32)
        ensures
            id == self.spec_channel_id(),
    {
        self.channel_id
    }

    /// The channel name.
    pub fn name(&self) -> (n: &str)
        ensures
            n@ == self.spec_name(),
    {
        self.config.name.as_str()
    }

    /// Protocol name.
    pub fn protocol(&self) -> (s: &'static str)
        ensures
            s@ == "Virtual"@,
    {
        "Virtual"
    }

    /// The channel is event-driven.
    pub fn supported_modes(&self) -> (m: Vec<CommunicationMode>)
        ensures
            m@ == seq![CommunicationMode::EventDriven],
    {
        let mut v: Vec<CommunicationMode> = Vec::new();
        v.push(CommunicationMode::EventDriven);
        proof {
            assert(v@ =~= seq![CommunicationMode::EventDriven]);
        }
        v
    }

    /// A virtual channel is always connected.
    pub fn connection_state(&self) -> (s: ConnectionState)
        ensures
            s == ConnectionState::Connected,
    {
        ConnectionState::Connected
    }

    /// Connecting is a no-op: the channel has no transport.
    pub fn connect(&mut self) -> (r: Result<(), GatewayError>)
        ensures
            r is Ok,
            *final(self) == *old(self),
    {
        Ok(())
    }

    /// Disconnecting is a no-op: the latest-value map is preserved.
    pub fn disconnect(&mut self) -> (r: Result<(), GatewayError>)
        ensures
            r is Ok,
            *final(self) == *old(self),
    {
        Ok(())
    }

    /// Write a batch into the channel: every point becomes the latest
    /// value of its identifier, later points overriding earlier ones in
    /// batch order. Never fails.
    pub fn write(&mut self, batch: &DataBatch) -> (r: Result<(), GatewayError>)
        requires
            old(self).wf(),
            batch.wf(),
        ensures
            r is Ok,
            final(self).wf(),
            final(self).spec_channel_id() == old(self).spec_channel_id(),
            final(self).spec_write_count() as int == (if old(self).spec_write_count() < u64::MAX {
                old(self).spec_write_count() + 1
            } else {
                old(self).spec_write_count() as int
            }),
            views_of(final(self).spec_latest()) == spec_store_views(
                batch.spec_points(),
                views_of(old(self).spec_latest()),
            ),
            final(self).spec_points_stored() >= old(self).spec_points_stored(),
    {
        let ghost m0 = views_of(self.latest@);
        self.store_points(&batch.telemetry);
        self.store_points(&batch.signal);
        self.store_points(&batch.control);
        self.store_points(&batch.adjustment);
        proof {
            lemma_store_views_concat(batch.telemetry@, batch.signal@, m0);
            lemma_store_views_concat(
                batch.telemetry@ + batch.signal@,
                batch.control@,
                m0,
            );
            lemma_store_views_concat(
                batch.telemetry@ + batch.signal@ + batch.control@,
                batch.adjustment@,
                m0,
            );
            assert(batch.telemetry@ + batch.signal@ + batch.control@ + batch.adjustment@
                =~= batch.spec_points());
        }
        if self.write_count < u64::MAX {
            self.write_count = self.write_count + 1;
        }
        Ok(())
    }

    /// Write a single point.    /// Write a single point.
    pub fn write_point(&mut self, point: DataPoint) -> (r: Result<(), GatewayError>)
        requires
            old(self).wf(),
            point.wf(),
        ensures
            r is Ok,
            final(self).wf(),
            final(self).spec_channel_id() == old(self).spec_channel_id(),
    {
        let mut batch = DataBatch::new();
        batch.add(point);
        self.write(&batch)
    }

    /// Store a list of points into the latest-value map, in order.
    fn store_points(&mut self, points: &Vec<DataPoint>)
        requires
            old(self).wf(),
            forall|i: int| 0 <= i < points@.len() ==> (#[trigger] points@[i]).wf(),
        ensures
            final(self).wf(),
            final(self).channel_id == old(self).channel_id,
            final(self).config == old(self).config,
            final(self).write_count == old(self).write_count,
            final(self).read_count == old(self).read_count,
            final(self).points_stored >= old(self).points_stored,
            views_of(final(self).latest@) == spec_store_views(
                points@,
                views_of(old(self).latest@),
            ),
    {
        let ghost m0 = views_of(self.latest@);
        let mut i: usize = 0;
        while i < points.len()
            invariant
                i <= points@.len(),
                self.wf(),
                forall|k: int| 0 <= k < points@.len() ==> (#[trigger] points@[k]).wf(),
                self.channel_id == old(self).channel_id,
                self.config == old(self).config,
                self.write_count == old(self).write_count,
                self.read_count == old(self).read_count,
                self.points_stored >= old(self).points_stored,
                views_of(self.latest@) == spec_store_views(points@.take(i as int), m0),
            decreases points@.len() - i,
        {
            let q = points[i].clone();
            proof {
                assert(q.id == points@[i as int].id);
            }
            // key the map by the point's own identifier
            if !self.latest.contains_key(&q.id) {
                self.latest_ids.push(q.id);
            }
            if self.points_stored < u64::MAX {
                self.points_stored = self.points_stored + 1;
            }
            let ghost before = self.latest@;
            self.latest.insert(q.id, q);
            proof {
                assert(points@.take(i + 1).drop_last() =~= points@.take(i as int));
                assert(views_of(self.latest@) =~= views_of(before).insert(
                    points@[i as int].id,
                    points@[i as int]@,
                ));
            }
            i += 1;
        }
        proof {
            assert(points@.take(points@.len() as int) =~= points@);
        }
    }

    /// Read the current snapshot, filtered by the request.
    ///
    /// Points come from the latest-value map: when the request lists
    /// identifiers, the hits in list order; otherwise every stored value
    /// in first-seen order. A requested data type filters either way, and
    /// each point lands in the list of its own type.
    pub fn read(&mut self, request: &ReadRequest) -> (r: Result<ReadResponse, GatewayError>)
        requires
            old(self).wf(),
        ensures
            final(self).wf(),
            final(self).spec_latest() == old(self).spec_latest(),
            final(self).spec_latest_ids() == old(self).spec_latest_ids(),
            final(self).spec_channel_id() == old(self).spec_channel_id(),
            final(self).spec_write_count() == old(self).spec_write_count(),
            r matches Ok(resp) && resp.failed_count == 0 && resp.data.wf() && batch_selected(
                resp.data,
                *request,
            ),
            r matches Ok(resp) ==> {
                let wanted = match request.point_ids {
                    Some(ids) => ids@,
                    None => old(self).spec_latest_ids(),
                };
                let cache = old(self).spec_latest();
                &&& list_matches_hits(
                    resp.data.telemetry@,
                    vlist_hits(wanted, cache, request.data_type, DataType::Telemetry),
                    cache,
                )
                &&& list_matches_hits(
                    resp.data.signal@,
                    vlist_hits(wanted, cache, request.data_type, DataType::Signal),
                    cache,
                )
                &&& list_matches_hits(
                    resp.data.control@,
                    vlist_hits(wanted, cache, request.data_type, DataType::Control),
                    cache,
                )
                &&& list_matches_hits(
                    resp.data.adjustment@,
                    vlist_hits(wanted, cache, request.data_type, DataType::Adjustment),
                    cache,
                )
            },
    {
        let mut batch = DataBatch::new();
        let ghost cache0 = self.latest@;
        let ids: &Vec<u32> = match &request.point_ids {
            Some(v) => v,
            None => &self.latest_ids,
        };
        let mut i: usize = 0;
        while i < ids.len()
            invariant
                i <= ids@.len(),
                self.wf(),
                *self == *old(self),
                cache0 == self.latest@,
                batch.wf(),
                batch_selected(batch, *request),
                match request.point_ids {
                    Some(v) => v@ == ids@,
                    None => self.latest_ids@ == ids@,
                },
                list_matches_hits(
                    batch.telemetry@,
                    vlist_hits(
                        ids@.take(i as int),
                        cache0,
                        request.data_type,
                        DataType::Telemetry,
                    ),
                    cache0,
                ),
                list_matches_hits(
                    batch.signal@,
                    vlist_hits(ids@.take(i as int), cache0, request.data_type, DataType::Signal),
                    cache0,
                ),
                list_matches_hits(
                    batch.control@,
                    vlist_hits(ids@.take(i as int), cache0, request.data_type, DataType::Control),
                    cache0,
                ),
                list_matches_hits(
                    batch.adjustment@,
                    vlist_hits(
                        ids@.take(i as int),
                        cache0,
                        request.data_type,
                        DataType::Adjustment,
                    ),
                    cache0,
                ),
            decreases ids@.len() - i,
        {
            let id = ids[i];
            proof {
                assert(ids@.take(i + 1).drop_last() =~= ids@.take(i as int));
                assert(ids@.take(i + 1).last() == ids@[i as int]);
                if request.point_ids is Some {
                    assert(ids@.contains(ids@[i as int]));
                }
            }
            match self.latest.get(&id) {
                Some(p) => {
                    let matches_type = match &request.data_type {
                        Some(t) => p.data_type == *t,
                        None => true,
                    };
                    if matches_type {
                        let q = p.clone();
                        proof {
                            assert(q@ == p@);
                            assert(q.id == p.id && q.data_type == p.data_type);
                        }
                        batch.add(q);
                    }
                },
                None => {},
            }
            i += 1;
        }
        proof {
            assert(ids@.take(ids@.len() as int) =~= ids@);
        }
        if self.read_count < u64::MAX {
            self.read_count = self.read_count + 1;
        }
        Ok(ReadResponse::success(batch))
    }

    /// Write control commands: each becomes a stored control point under
    /// its identifier, the last command winning on a repeated identifier;
    /// other identifiers are untouched. Always fully successful.
    pub fn write_control(&mut self, commands: &Vec<ControlCommand>) -> (r: Result<
        WriteResult,
        GatewayError,
    >)
        requires
            old(self).wf(),
        ensures
            final(self).wf(),
            r matches Ok(w) && w.success_count == commands@.len() && w.failures@.len() == 0,
            forall|k: int|
                0 <= k < commands@.len() ==> views_of(final(self).spec_latest()).contains_key(
                    (#[trigger] commands@[k]).id,
                ),
            forall|k: int|
                0 <= k < commands@.len() && (forall|k2: int|
                    k < k2 < commands@.len() ==> (#[trigger] commands@[k2]).id != commands@[k].id)
                    ==> {
                    let stored = views_of(final(self).spec_latest())[(#[trigger] commands@[k]).id];
                    &&& stored.value == crate::data::ValueV::Bool(commands@[k].value)
                    &&& stored.data_type == DataType::Control
                },
            control_frame_ok(
                views_of(old(self).spec_latest()),
                views_of(final(self).spec_latest()),
                commands@.map_values(|c: ControlCommand| c.id),
            ),
    {
        let mut batch = DataBatch::new();
        let mut i: usize = 0;
        while i < commands.len()
            invariant
                i <= commands@.len(),
                *self == *old(self),
                batch.wf(),
                batch.telemetry@.len() == 0,
                batch.signal@.len() == 0,
                batch.adjustment@.len() == 0,
                batch.control@.len() == i,
                forall|k: int|
                    0 <= k < i ==> (#[trigger] batch.control@[k]).id == commands@[k].id
                        && batch.control@[k].value == Value::Bool(commands@[k].value)
                        && batch.control@[k].data_type == DataType::Control,
            decreases commands@.len() - i,
        {
            let cmd = &commands[i];
            batch.add(DataPoint::control(cmd.id, cmd.value));
            i += 1;
        }
        let ghost m0 = views_of(self.latest@);
        proof {
            assert(m0 == views_of(old(self).latest@));
        }
        match self.write(&batch) {
            Ok(_) => {},
            Err(_) => {},
        }
        proof {
            assert(batch.spec_points() =~= batch.control@);
            assert forall|k: int|
                0 <= k < commands@.len() implies views_of(self.latest@).contains_key(
                (#[trigger] commands@[k]).id,
            ) by {
                lemma_store_views_contains(batch.control@, m0, k);
            }
            assert forall|k: int|
                0 <= k < commands@.len() && (forall|k2: int|
                    k < k2 < commands@.len() ==> (#[trigger] commands@[k2]).id
                        != commands@[k].id) implies {
                let stored = views_of(self.latest@)[(#[trigger] commands@[k]).id];
                &&& stored.value == crate::data::ValueV::Bool(commands@[k].value)
                &&& stored.data_type == DataType::Control
            } by {
                lemma_store_views_last_wins(batch.control@, m0, k);
            }
            let ghost cmd_ids = commands@.map_values(|c: ControlCommand| c.id);
            assert(control_frame_ok(m0, views_of(self.latest@), cmd_ids)) by {
                assert forall|k2: u32|
                    (forall|j: int| 0 <= j < cmd_ids.len() ==> (#[trigger] cmd_ids[j]) != k2)
                        implies ((#[trigger] views_of(self.latest@).contains_key(k2)
                        <==> m0.contains_key(k2)) && (m0.contains_key(k2) ==> views_of(
                        self.latest@,
                    )[k2] == m0[k2])) by {
                    assert forall|i2: int|
                        0 <= i2 < batch.control@.len() implies (
                    #[trigger] batch.control@[i2]).id != k2 by {
                        assert(cmd_ids[i2] != k2);
                    }
                    lemma_store_views_frame(batch.control@, m0, k2);
                }
            }
        }
        Ok(WriteResult::success(commands.len()))
    }

    /// Write adjustment commands: each becomes a stored adjustment point
    /// under its identifier, the last command winning on a repeated
    /// identifier; other identifiers are untouched. Always fully
    /// successful.
    pub fn write_adjustment(&mut self, adjustments: &Vec<AdjustmentCommand>) -> (r: Result<
        WriteResult,
        GatewayError,
    >)
        requires
            old(self).wf(),
            forall|i: int| 0 <= i < adjustments@.len() ==> (#[trigger] adjustments@[i]).value.wf(),
        ensures
            final(self).wf(),
            r matches Ok(w) && w.success_count == adjustments@.len() && w.failures@.len() == 0,
            forall|k: int|
                0 <= k < adjustments@.len() ==> views_of(final(self).spec_latest()).contains_key(
                    (#[trigger] adjustments@[k]).id,
                ),
            forall|k: int|
                0 <= k < adjustments@.len() && (forall|k2: int|
                    k < k2 < adjustments@.len() ==> (#[trigger] adjustments@[k2]).id
                        != adjustments@[k].id) ==> {
                    let stored = views_of(final(self).spec_latest())[(
                    #[trigger] adjustments@[k]).id];
                    &&& stored.value == crate::data::ValueV::Num {
                        n: adjustments@[k].value.n(),
                        d: adjustments@[k].value.d(),
                    }
                    &&& stored.data_type == DataType::Adjustment
                },
            control_frame_ok(
                views_of(old(self).spec_latest()),
                views_of(final(self).spec_latest()),
                adjustments@.map_values(|c: AdjustmentCommand| c.id),
            ),
    {
        let mut batch = DataBatch::new();
        let mut i: usize = 0;
        while i < adjustments.len()
            invariant
                i <= adjustments@.len(),
                *self == *old(self),
                batch.wf(),
                batch.telemetry@.len() == 0,
                batch.signal@.len() == 0,
                batch.control@.len() == 0,
                batch.adjustment@.len() == i,
                forall|k: int|
                    0 <= k < adjustments@.len() ==> (#[trigger] adjustments@[k]).value.wf(),
                forall|k: int|
                    0 <= k < i ==> (#[trigger] batch.adjustment@[k]).id == adjustments@[k].id
                        && batch.adjustment@[k].value == Value::Num(adjustments@[k].value)
                        && batch.adjustment@[k].data_type == DataType::Adjustment,
            decreases adjustments@.len() - i,
        {
            let adj = &adjustments[i];
            batch.add(DataPoint::adjustment(adj.id, Value::Num(adj.value)));
            i += 1;
        }
        let ghost m0 = views_of(self.latest@);
        proof {
            assert(m0 == views_of(old(self).latest@));
        }
        match self.write(&batch) {
            Ok(_) => {},
            Err(_) => {},
        }
        proof {
            assert(batch.spec_points() =~= batch.adjustment@);
            assert forall|k: int|
                0 <= k < adjustments@.len() implies views_of(self.latest@).contains_key(
                (#[trigger] adjustments@[k]).id,
            ) by {
                lemma_store_views_contains(batch.adjustment@, m0, k);
            }
            assert forall|k: int|
                0 <= k < adjustments@.len() && (forall|k2: int|
                    k < k2 < adjustments@.len() ==> (#[trigger] adjustments@[k2]).id
                        != adjustments@[k].id) implies {
                let stored = views_of(self.latest@)[(#[trigger] adjustments@[k]).id];
                &&& stored.value == crate::data::ValueV::Num {
                    n: adjustments@[k].value.n(),
                    d: adjustments@[k].value.d(),
                }
                &&& stored.data_type == DataType::Adjustment
            } by {
                lemma_store_views_last_wins(batch.adjustment@, m0, k);
            }
            let ghost adj_ids = adjustments@.map_values(|c: AdjustmentCommand| c.id);
            assert(control_frame_ok(m0, views_of(self.latest@), adj_ids)) by {
                assert forall|k2: u32|
                    (forall|j: int| 0 <= j < adj_ids.len() ==> (#[trigger] adj_ids[j]) != k2)
                        implies ((#[trigger] views_of(self.latest@).contains_key(k2)
                        <==> m0.contains_key(k2)) && (m0.contains_key(k2) ==> views_of(
                        self.latest@,
                    )[k2] == m0[k2])) by {
                    assert forall|i2: int|
                        0 <= i2 < batch.adjustment@.len() implies (
                    #[trigger] batch.adjustment@[i2]).id != k2 by {
                        assert(adj_ids[i2] != k2);
                    }
                    lemma_store_views_frame(batch.adjustment@, m0, k2);
                }
            }
        }
        Ok(WriteResult::success(adjustments.len()))
    }

    /// Diagnostics snapshot.    /// Diagnostics snapshot.
    pub fn diagnostics(&self) -> (d: Diagnostics)
        ensures
            d.protocol@ == "Virtual"@,
            d.connection_state == ConnectionState::Connected,
            d.read_count == self.spec_read_count(),
            d.write_count == self.spec_write_count(),
            d.error_count == 0,
    {
        let mut d = Diagnostics::new("Virtual");
        d.connection_state = ConnectionState::Connected;
        d.read_count = self.read_count;
        d.write_count = self.write_count;
        let mut extra: Vec<(String, String)> = Vec::new();
        extra.push((String::from_str("name"), self.config.name.clone()));
        d.extra = extra;
        d
    }
}

} // verus!
