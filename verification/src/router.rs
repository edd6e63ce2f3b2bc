//! The data router: point mappings, trigger conditions with per-mapping
//! state, transforms, and fan-out of batches to target channels.

use crate::data::{DataBatch, DataPoint, Value};
use crate::point::TransformConfig;
use crate::quality::Quality;
use crate::rat::{fr, fr_eq, fr_sub, Fr, Rat};
use std::collections::HashMap;
use vstd::prelude::*;

verus! {

broadcast use vstd::std_specs::hash::group_hash_axioms;

/// Trigger condition for conditional forwarding.
#[derive(Debug, Clone, Copy)]
pub enum TriggerCondition {
    /// Always forward.
    Always,
    /// Forward only when the value changed.
    OnChange,
    /// Forward when the numeric value lies in the closed interval; a
    /// missing side is unbounded, non-numeric values always forward.
    Threshold {
        /// Minimum value, inclusive.
        min: Option<Rat>,
        /// Maximum value, inclusive.
        max: Option<Rat>,
    },
    /// Forward at most once per interval.
    Interval {
        /// Minimum interval between forwards in milliseconds.
        min_interval_ms: u64,
    },
    /// Forward when the numeric delta from the last forwarded value
    /// exceeds the deadband; non-numeric values always forward.
    Deadband {
        /// Deadband magnitude.
        deadband: Rat,
    },
}

impl TriggerCondition {
    /// Well-formedness of the carried rationals.
    pub open spec fn wf(self) -> bool {
        match self {
            TriggerCondition::Threshold { min, max } => {
                &&& match min {
                    Some(r) => r.wf(),
                    None => true,
                }
                &&& match max {
                    Some(r) => r.wf(),
                    None => true,
                }
            },
            TriggerCondition::Deadband { deadband } => deadband.wf(),
            _ => true,
        }
    }
}

/// A single point mapping rule.
#[derive(Debug, Clone, Copy)]
pub struct PointMapping {
    /// Source channel identifier.
    pub source_channel: u32,
    /// Source point identifier.
    pub source_point: u32,
    /// Target channel identifier.
    pub target_channel: u32,
    /// Target point identifier; the source's when absent.
    pub target_point: Option<u32>,
    /// Transform applied while forwarding.
    pub transform: TransformConfig,
    /// Whether this mapping is active.
    pub enabled: bool,
    /// Trigger condition; `Always` when absent.
    pub trigger: Option<TriggerCondition>,
}

impl PointMapping {
    /// Well-formedness of the transform and trigger.
    pub open spec fn wf(self) -> bool {
        &&& self.transform.wf()
        &&& match self.trigger {
            Some(t) => t.wf(),
            None => true,
        }
    }

    /// The effective trigger: `Always` when none is set.
    pub open spec fn spec_trigger(self) -> TriggerCondition {
        match self.trigger {
            Some(t) => t,
            None => TriggerCondition::Always,
        }
    }

    /// A simple one-to-one mapping with the identity transform.
    pub fn direct(source_channel: u32, source_point: u32, target_channel: u32, target_point: u32)
        -> (m: PointMapping)
        ensures
            m.source_channel == source_channel,
            m.source_point == source_point,
            m.target_channel == target_channel,
            m.target_point == Some(target_point),
            m.transform == crate::point::spec_identity_transform(),
            m.enabled,
            m.trigger is None,
            m.wf(),
    {
        PointMapping {
            source_channel,
            source_point,
            target_channel,
            target_point: Some(target_point),
            transform: TransformConfig::default(),
            enabled: true,
            trigger: None,
        }
    }

    /// A mapping keeping the same point identifier on both ends.
    pub fn same_id(source_channel: u32, point_id: u32, target_channel: u32) -> (m: PointMapping)
        ensures
            m.source_channel == source_channel,
            m.source_point == point_id,
            m.target_channel == target_channel,
            m.target_point == Some(point_id),
            m.transform == crate::point::spec_identity_transform(),
            m.enabled,
            m.trigger is None,
            m.wf(),
    {
        Self::direct(source_channel, point_id, target_channel, point_id)
    }

    /// Replace the transform.
    pub fn with_transform(self, transform: TransformConfig) -> (m: PointMapping)
        ensures
            m == (PointMapping { transform, ..self }),
    {
        PointMapping { transform, ..self }
    }

    /// Attach a trigger condition.
    pub fn with_trigger(self, trigger: TriggerCondition) -> (m: PointMapping)
        ensures
            m == (PointMapping { trigger: Some(trigger), ..self }),
    {
        PointMapping { trigger: Some(trigger), ..self }
    }

    /// Set the enabled state.
    pub fn with_enabled(self, enabled: bool) -> (m: PointMapping)
        ensures
            m == (PointMapping { enabled, ..self }),
    {
        PointMapping { enabled, ..self }
    }

    /// The effective target point identifier.
    pub fn effective_target_point(&self) -> (id: u32)
        ensures
            id == (match self.target_point {
                Some(t) => t,
                None => self.source_point,
            }),
    {
        match self.target_point {
            Some(t) => t,
            None => self.source_point,
        }
    }
}

/// Whether a mapping is an enabled route for the given source.
pub open spec fn mapping_matches(m: PointMapping, channel_id: u32, point_id: u32) -> bool {
    m.enabled && m.source_channel == channel_id && m.source_point == point_id
}

/// Routing table: an ordered list of point mappings.
#[derive(Debug, Clone)]
pub struct RoutingTable {
    /// The mappings, in evaluation order.
    pub mappings: Vec<PointMapping>,
}

impl RoutingTable {
    /// Well-formedness of every mapping.
    pub open spec fn wf(self) -> bool {
        forall|i: int| 0 <= i < self.mappings@.len() ==> (#[trigger] self.mappings@[i]).wf()
    }

    /// An empty table.
    pub fn new() -> (t: RoutingTable)
        ensures
            t.mappings@ =~= Seq::<PointMapping>::empty(),
            t.wf(),
    {
        RoutingTable { mappings: Vec::new() }
    }

    /// Append a mapping.
    pub fn add(&mut self, mapping: PointMapping)
        ensures
            final(self).mappings@ == old(self).mappings@.push(mapping),
    {
        self.mappings.push(mapping);
    }

    /// Append several mappings in order.
    pub fn add_all(&mut self, mappings: Vec<PointMapping>)
        ensures
            final(self).mappings@ == old(self).mappings@ + mappings@,
    {
        let mut rest = mappings;
        self.mappings.append(&mut rest);
    }

    /// The enabled mappings routing the given source point, in table
    /// order.
    pub fn find_by_source(&self, channel_id: u32, point_id: u32) -> (r: Vec<PointMapping>)
        requires
            self.wf(),
        ensures
            r@ == self.mappings@.filter(|m: PointMapping| mapping_matches(m, channel_id, point_id)),
            forall|i: int| 0 <= i < r@.len() ==> (#[trigger] r@[i]).wf(),
            forall|j: int|
                0 <= j < self.mappings@.len() && mapping_matches(
                    #[trigger] self.mappings@[j],
                    channel_id,
                    point_id,
                ) ==> r@.contains(self.mappings@[j]),
    {
        let mut out: Vec<PointMapping> = Vec::new();
        let mut i: usize = 0;
        while i < self.mappings.len()
            invariant
                self.wf(),
                i <= self.mappings@.len(),
                out@ == self.mappings@.take(i as int).filter(
                    |m: PointMapping| mapping_matches(m, channel_id, point_id),
                ),
                forall|k: int| 0 <= k < out@.len() ==> (#[trigger] out@[k]).wf(),
            decreases self.mappings@.len() - i,
        {
            let m = self.mappings[i];
            if m.enabled && m.source_channel == channel_id && m.source_point == point_id {
                out.push(m);
            }
            proof {
                reveal_with_fuel(Seq::filter, 2);
                assert(self.mappings@.take(i + 1).drop_last() =~= self.mappings@.take(i as int));
                assert(self.mappings@.take(i + 1).last() == self.mappings@[i as int]);
            }
            i += 1;
        }
        proof {
            assert(self.mappings@.take(self.mappings@.len() as int) =~= self.mappings@);
            assert forall|j: int|
                0 <= j < self.mappings@.len() && mapping_matches(
                    #[trigger] self.mappings@[j],
                    channel_id,
                    point_id,
                ) implies out@.contains(self.mappings@[j]) by {
                self.mappings@.lemma_filter_contains(
                    |m: PointMapping| mapping_matches(m, channel_id, point_id),
                    j,
                );
            }
        }
        out
    }

    /// The enabled mappings targeting a channel, in table order.
    pub fn targets_for_channel(&self, channel_id: u32) -> (r: Vec<PointMapping>)
        ensures
            r@ == self.mappings@.filter(
                |m: PointMapping| m.enabled && m.target_channel == channel_id,
            ),
    {
        let mut out: Vec<PointMapping> = Vec::new();
        let mut i: usize = 0;
        while i < self.mappings.len()
            invariant
                i <= self.mappings@.len(),
                out@ == self.mappings@.take(i as int).filter(
                    |m: PointMapping| m.enabled && m.target_channel == channel_id,
                ),
            decreases self.mappings@.len() - i,
        {
            let m = self.mappings[i];
            if m.enabled && m.target_channel == channel_id {
                out.push(m);
            }
            proof {
                reveal_with_fuel(Seq::filter, 2);
                assert(self.mappings@.take(i + 1).drop_last() =~= self.mappings@.take(i as int));
                assert(self.mappings@.take(i + 1).last() == self.mappings@[i as int]);
            }
            i += 1;
        }
        proof {
            assert(self.mappings@.take(self.mappings@.len() as int) =~= self.mappings@);
        }
        out
    }

    /// All enabled mappings, in table order.
    pub fn enabled_mappings(&self) -> (r: Vec<PointMapping>)
        ensures
            r@ == self.mappings@.filter(|m: PointMapping| m.enabled),
    {
        let mut out: Vec<PointMapping> = Vec::new();
        let mut i: usize = 0;
        while i < self.mappings.len()
            invariant
                i <= self.mappings@.len(),
                out@ == self.mappings@.take(i as int).filter(|m: PointMapping| m.enabled),
            decreases self.mappings@.len() - i,
        {
            let m = self.mappings[i];
            if m.enabled {
                out.push(m);
            }
            proof {
                reveal_with_fuel(Seq::filter, 2);
                assert(self.mappings@.take(i + 1).drop_last() =~= self.mappings@.take(i as int));
                assert(self.mappings@.take(i + 1).last() == self.mappings@[i as int]);
            }
            i += 1;
        }
        proof {
            assert(self.mappings@.take(self.mappings@.len() as int) =~= self.mappings@);
        }
        out
    }

    /// The number of mappings.
    pub fn len(&self) -> (n: usize)
        ensures
            n == self.mappings@.len(),
    {
        self.mappings.len()
    }

    /// Whether the table is empty.
    pub fn is_empty(&self) -> (r: bool)
        ensures
            r == (self.mappings@.len() == 0),
    {
        self.mappings.is_empty()
    }

    /// Remove all mappings.
    pub fn clear(&mut self)
        ensures
            final(self).mappings@ =~= Seq::<PointMapping>::empty(),
    {
        self.mappings.clear();
    }
}

/// Router configuration.
#[derive(Debug, Clone)]
pub struct RouterConfig {
    /// Routing table.
    pub routing_table: RoutingTable,
    /// Buffer size for event processing.
    pub buffer_size: usize,
    /// Whether to continue on individual mapping errors.
    pub continue_on_error: bool,
}

impl Default for RouterConfig {
    /// An empty table with a buffer of 1024, tolerant of errors.
    fn default() -> (c: RouterConfig)
        ensures
            c.routing_table.mappings@ =~= Seq::<PointMapping>::empty(),
            c.buffer_size == 1024,
            c.continue_on_error,
    {
        RouterConfig { routing_table: RoutingTable::new(), buffer_size: 1024, continue_on_error: true }
    }
}

impl RouterConfig {
    /// A configuration around a routing table.
    pub fn new(routing_table: RoutingTable) -> (c: RouterConfig)
        ensures
            c.routing_table == routing_table,
            c.buffer_size == 1024,
            c.continue_on_error,
    {
        RouterConfig { routing_table, buffer_size: 1024, continue_on_error: true }
    }
}

/// The state key of a source point: channel and point identifier packed
/// into one word.
pub open spec fn spec_route_key(channel_id: u32, point_id: u32) -> u64 {
    (channel_id * 0x1_0000_0000 + point_id) as u64
}

/// Pack a source key.
fn route_key(channel_id: u32, point_id: u32) -> (k: u64)
    ensures
        k == spec_route_key(channel_id, point_id),
{
    (channel_id as u64) * 0x1_0000_0000 + (point_id as u64)
}

/// Per-mapping trigger state: last seen values and last forward times by
/// source key.
#[derive(Debug)]
pub struct RouterState {
    /// Last values for change detection.
    last_values: HashMap<u64, Value>,
    /// Last forward time for interval triggers, in milliseconds.
    last_forward: HashMap<u64, u64>,
}

impl RouterState {
    /// All stored values are well-formed.
    pub closed spec fn wf(self) -> bool {
        forall|k: u64|
            self.last_values@.contains_key(k) ==> (#[trigger] self.last_values@[k]).wf()
    }

    /// The stored last values.
    pub closed spec fn spec_last_values(self) -> Map<u64, Value> {
        self.last_values@
    }

    /// The stored last forward times.
    pub closed spec fn spec_last_forward(self) -> Map<u64, u64> {
        self.last_forward@
    }

    /// Empty state.
    pub fn new() -> (s: RouterState)
        ensures
            s.wf(),
            s.spec_last_values() == Map::<u64, Value>::empty(),
            s.spec_last_forward() == Map::<u64, u64>::empty(),
    {
        RouterState { last_values: HashMap::new(), last_forward: HashMap::new() }
    }
}

/// The numeric reading of a stored value, as a fraction.
pub open spec fn value_fr(v: crate::data::ValueV) -> Option<Fr> {
    match v {
        crate::data::ValueV::Num { n, d } => Some(Fr { n, d }),
        crate::data::ValueV::Int(x) => Some(Fr { n: x, d: 1 }),
        crate::data::ValueV::Bool(b) => Some(
            Fr {
                n: if b {
                    1
                } else {
                    0
                },
                d: 1,
            },
        ),
        _ => None,
    }
}

/// Whether the magnitude of `x` strictly exceeds `d`, both fractions with
/// positive denominators.
pub open spec fn fr_abs_gt(x: Fr, d: Fr) -> bool {
    x.n * d.d > d.n * x.d || (-x.n) * d.d > d.n * x.d
}

/// Magnitude comparison of a rational against a deadband.
fn rat_abs_gt(x: &Rat, d: &Rat) -> (r: bool)
    requires
        x.wf(),
        d.wf(),
    ensures
        r == fr_abs_gt(fr(*x), fr(*d)),
{
    let xn: i128 = x.num as i128;
    let xd: i128 = x.den as i128;
    let dn: i128 = d.num as i128;
    let dd: i128 = d.den as i128;
    proof {
        crate::rat::lemma_rat_prod_pub(xn as int, dd as int);
        crate::rat::lemma_rat_prod_pub(dn as int, xd as int);
        lemma_neg_prod_bound(xn as int, dd as int);
    }
    xn * dd > dn * xd || (-xn) * dd > dn * xd
}

/// The forwarding decision of a trigger, over the mapping state:
///
/// - `Always` forwards;
/// - `OnChange` forwards when no equal value is stored for the source key;
/// - `Threshold` forwards numeric values inside the closed interval and
///   non-numeric values always;
/// - `Interval` forwards when at least the interval has passed since the
///   last forward;
/// - `Deadband` forwards when the exact delta from the stored value
///   strictly exceeds the deadband, with no stored or non-numeric value
///   always forwarding. A delta too wide to represent also forwards.
pub open spec fn spec_should_forward(
    m: PointMapping,
    p: DataPoint,
    lv: Map<u64, Value>,
    lf: Map<u64, u64>,
    now: u64,
) -> bool {
    let key = spec_route_key(m.source_channel, m.source_point);
    match m.spec_trigger() {
        TriggerCondition::Always => true,
        TriggerCondition::OnChange => !(lv.contains_key(key) && lv[key]@.eq_val(p.value@)),
        TriggerCondition::Threshold { min, max } => match value_fr(p.value@) {
            Some(v) => {
                &&& match min {
                    Some(lo) => fr(lo).n * v.d <= v.n * fr(lo).d,
                    None => true,
                }
                &&& match max {
                    Some(hi) => v.n * fr(hi).d <= fr(hi).n * v.d,
                    None => true,
                }
            },
            None => true,
        },
        TriggerCondition::Interval { min_interval_ms } => !lf.contains_key(key) || now - lf[key]
            >= min_interval_ms,
        TriggerCondition::Deadband { deadband } => match value_fr(p.value@) {
            Some(v) => {
                if lv.contains_key(key) && value_fr(lv[key]@) is Some {
                    let last = value_fr(lv[key]@).unwrap();
                    let dn = v.n * last.d - last.n * v.d;
                    let dd = v.d * last.d;
                    ||| !crate::rat::representable(dn, dd)
                    ||| fr_abs_gt(Fr { n: dn, d: dd }, fr(deadband))
                } else {
                    true
                }
            },
            None => true,
        },
    }
}

/// Whether `lv2` is `lv` with `key` now holding a value that denotes `v`,
/// all other keys untouched.
pub open spec fn map_updated_view(
    lv: Map<u64, Value>,
    lv2: Map<u64, Value>,
    key: u64,
    v: crate::data::ValueV,
) -> bool {
    &&& lv2.dom() == lv.dom().insert(key)
    &&& lv2.contains_key(key) && lv2[key]@ == v
    &&& forall|k: u64| lv.contains_key(k) && k != key ==> lv2[k] == #[trigger] lv[k]
}

/// How the last-value store evolves over one decision: `OnChange` stores
/// the value on forwarding, `Deadband` stores numeric values on
/// forwarding, everything else leaves the store alone.
pub open spec fn spec_lv_after(
    m: PointMapping,
    p: DataPoint,
    lv: Map<u64, Value>,
    fwd: bool,
    lv2: Map<u64, Value>,
) -> bool {
    let key = spec_route_key(m.source_channel, m.source_point);
    match m.spec_trigger() {
        TriggerCondition::OnChange => if fwd {
            map_updated_view(lv, lv2, key, p.value@)
        } else {
            lv2 == lv
        },
        TriggerCondition::Deadband { deadband } => if fwd && value_fr(p.value@) is Some {
            map_updated_view(lv, lv2, key, p.value@)
        } else {
            lv2 == lv
        },
        _ => lv2 == lv,
    }
}

/// The last-forward store after one decision: `Interval` stamps the time
/// on forwarding, everything else leaves the store alone.
pub open spec fn spec_lf_after(
    m: PointMapping,
    p: DataPoint,
    lf: Map<u64, u64>,
    fwd: bool,
    now: u64,
) -> Map<u64, u64> {
    let key = spec_route_key(m.source_channel, m.source_point);
    match m.spec_trigger() {
        TriggerCondition::Interval { min_interval_ms } => if fwd {
            lf.insert(key, now)
        } else {
            lf
        },
        _ => lf,
    }
}

/// The abstract contents of a last-value store.
pub open spec fn lv_views(m: Map<u64, Value>) -> Map<u64, crate::data::ValueV> {
    Map::new(|k: u64| m.contains_key(k), |k: u64| m[k]@)
}

/// The forwarding decision over the abstract store: the same rules as
/// [`spec_should_forward`], phrased over value views.
pub open spec fn spec_decide(
    m: PointMapping,
    p: DataPoint,
    vv: Map<u64, crate::data::ValueV>,
    lf: Map<u64, u64>,
    now: u64,
) -> bool {
    let key = spec_route_key(m.source_channel, m.source_point);
    match m.spec_trigger() {
        TriggerCondition::Always => true,
        TriggerCondition::OnChange => !(vv.contains_key(key) && vv[key].eq_val(p.value@)),
        TriggerCondition::Threshold { min, max } => match value_fr(p.value@) {
            Some(v) => {
                &&& match min {
                    Some(lo) => fr(lo).n * v.d <= v.n * fr(lo).d,
                    None => true,
                }
                &&& match max {
                    Some(hi) => v.n * fr(hi).d <= fr(hi).n * v.d,
                    None => true,
                }
            },
            None => true,
        },
        TriggerCondition::Interval { min_interval_ms } => !lf.contains_key(key) || now - lf[key]
            >= min_interval_ms,
        TriggerCondition::Deadband { deadband } => match value_fr(p.value@) {
            Some(v) => {
                if vv.contains_key(key) && value_fr(vv[key]) is Some {
                    let last = value_fr(vv[key]).unwrap();
                    let dn = v.n * last.d - last.n * v.d;
                    let dd = v.d * last.d;
                    ||| !crate::rat::representable(dn, dd)
                    ||| fr_abs_gt(Fr { n: dn, d: dd }, fr(deadband))
                } else {
                    true
                }
            },
            None => true,
        },
    }
}

/// The abstract store after one decision.
pub open spec fn spec_vv_after(
    m: PointMapping,
    p: DataPoint,
    vv: Map<u64, crate::data::ValueV>,
    fwd: bool,
) -> Map<u64, crate::data::ValueV> {
    let key = spec_route_key(m.source_channel, m.source_point);
    match m.spec_trigger() {
        TriggerCondition::OnChange => if fwd {
            vv.insert(key, p.value@)
        } else {
            vv
        },
        TriggerCondition::Deadband { deadband } => if fwd && value_fr(p.value@) is Some {
            vv.insert(key, p.value@)
        } else {
            vv
        },
        _ => vv,
    }
}

/// The decision over the concrete store equals the decision over its
/// views.
proof fn lemma_decide_views(
    m: PointMapping,
    p: DataPoint,
    lv: Map<u64, Value>,
    lf: Map<u64, u64>,
    now: u64,
)
    ensures
        spec_should_forward(m, p, lv, lf, now) == spec_decide(m, p, lv_views(lv), lf, now),
{
    let key = spec_route_key(m.source_channel, m.source_point);
    if lv.contains_key(key) {
        assert(lv_views(lv)[key] == lv[key]@);
    }
}

/// A relational store update projects to the functional view update.
proof fn lemma_lv_after_views(
    m: PointMapping,
    p: DataPoint,
    lv: Map<u64, Value>,
    fwd: bool,
    lv2: Map<u64, Value>,
)
    requires
        spec_lv_after(m, p, lv, fwd, lv2),
    ensures
        lv_views(lv2) == spec_vv_after(m, p, lv_views(lv), fwd),
{
    let key = spec_route_key(m.source_channel, m.source_point);
    match m.spec_trigger() {
        TriggerCondition::OnChange => {
            if fwd {
                assert(lv_views(lv2) =~= lv_views(lv).insert(key, p.value@));
            } else {
                assert(lv_views(lv2) =~= lv_views(lv));
            }
        },
        TriggerCondition::Deadband { deadband } => {
            if fwd && value_fr(p.value@) is Some {
                assert(lv_views(lv2) =~= lv_views(lv).insert(key, p.value@));
            } else {
                assert(lv_views(lv2) =~= lv_views(lv));
            }
        },
        _ => {
            assert(lv_views(lv2) =~= lv_views(lv));
        },
    }
}

/// Whether a mapping routes a point: enabled, matching source point, and
/// matching source channel when one is known.
pub open spec fn mapping_applies(m: PointMapping, source: Option<u32>, id: u32) -> bool {
    &&& m.enabled
    &&& m.source_point == id
    &&& match source {
        Some(c) => m.source_channel == c,
        None => true,
    }
}

/// Run one point over the whole mapping table in order: the number of
/// forwards and the trigger state afterwards.
pub open spec fn spec_run_table(
    ms: Seq<PointMapping>,
    p: DataPoint,
    source: Option<u32>,
    vv: Map<u64, crate::data::ValueV>,
    lf: Map<u64, u64>,
    now: u64,
) -> (int, Map<u64, crate::data::ValueV>, Map<u64, u64>)
    decreases ms.len(),
{
    if ms.len() == 0 {
        (0, vv, lf)
    } else if !mapping_applies(ms[0], source, p.id) {
        spec_run_table(ms.subrange(1, ms.len() as int), p, source, vv, lf, now)
    } else {
        let d = spec_decide(ms[0], p, vv, lf, now);
        let vv1 = spec_vv_after(ms[0], p, vv, d);
        let lf1 = spec_lf_after(ms[0], p, lf, d, now);
        let rest = spec_run_table(ms.subrange(1, ms.len() as int), p, source, vv1, lf1, now);
        ((if d {
            1int
        } else {
            0int
        }) + rest.0, rest.1, rest.2)
    }
}

/// Run a point list over the mapping table in order.
pub open spec fn spec_run_points(
    ps: Seq<DataPoint>,
    ms: Seq<PointMapping>,
    source: Option<u32>,
    vv: Map<u64, crate::data::ValueV>,
    lf: Map<u64, u64>,
    now: u64,
) -> (int, Map<u64, crate::data::ValueV>, Map<u64, u64>)
    decreases ps.len(),
{
    if ps.len() == 0 {
        (0, vv, lf)
    } else {
        let one = spec_run_table(ms, ps[0], source, vv, lf, now);
        let rest = spec_run_points(
            ps.subrange(1, ps.len() as int),
            ms,
            source,
            one.1,
            one.2,
            now,
        );
        (one.0 + rest.0, rest.1, rest.2)
    }
}

/// Total number of points across the per-target batches.
pub open spec fn total_out_points(out: Seq<(u32, DataBatch)>) -> int
    decreases out.len(),
{
    if out.len() == 0 {
        0
    } else {
        total_out_points(out.drop_last()) + out.last().1.spec_len()
    }
}

/// Replacing one entry changes the total by the difference of that
/// entry's batch length.
proof fn lemma_total_out_update(s: Seq<(u32, DataBatch)>, i: int, x: (u32, DataBatch))
    requires
        0 <= i < s.len(),
    ensures
        total_out_points(s.update(i, x)) == total_out_points(s) - s[i].1.spec_len()
            + x.1.spec_len(),
    decreases s.len(),
{
    if i == s.len() - 1 {
        assert(s.update(i, x).drop_last() =~= s.drop_last());
    } else {
        assert(s.update(i, x).drop_last() =~= s.drop_last().update(i, x));
        lemma_total_out_update(s.drop_last(), i, x);
    }
}

/// Decide whether a point passes a mapping's trigger, updating the
/// trigger state exactly as [`spec_should_forward`], [`spec_lv_after`] and
/// [`spec_lf_after`] describe.
pub fn should_forward(
    mapping: &PointMapping,
    point: &DataPoint,
    state: &mut RouterState,
    now_ms: u64,
) -> (fwd: bool)
    requires
        mapping.wf(),
        point.wf(),
        old(state).wf(),
    ensures
        final(state).wf(),
        fwd == spec_should_forward(
            *mapping,
            *point,
            old(state).spec_last_values(),
            old(state).spec_last_forward(),
            now_ms,
        ),
        spec_lv_after(
            *mapping,
            *point,
            old(state).spec_last_values(),
            fwd,
            final(state).spec_last_values(),
        ),
        final(state).spec_last_forward() == spec_lf_after(
            *mapping,
            *point,
            old(state).spec_last_forward(),
            fwd,
            now_ms,
        ),
{
    let key = route_key(mapping.source_channel, mapping.source_point);
    let trigger = match &mapping.trigger {
        Some(t) => *t,
        None => TriggerCondition::Always,
    };
    match trigger {
        TriggerCondition::Always => true,
        TriggerCondition::OnChange => {
            let changed = match state.last_values.get(&key) {
                Some(last) => !last.eq_val(&point.value),
                None => true,
            };
            if changed {
                state.last_values.insert(key, point.value.clone());
            }
            changed
        },
        TriggerCondition::Threshold { min, max } => {
            match point.value.as_num() {
                Some(v) => {
                    let above_min = match &min {
                        Some(lo) => lo.le(&v),
                        None => true,
                    };
                    let below_max = match &max {
                        Some(hi) => v.le(hi),
                        None => true,
                    };
                    above_min && below_max
                },
                None => true,
            }
        },
        TriggerCondition::Interval { min_interval_ms } => {
            let pass = match state.last_forward.get(&key) {
                Some(last) => *last <= now_ms && now_ms - *last >= min_interval_ms,
                None => true,
            };
            if pass {
                state.last_forward.insert(key, now_ms);
            }
            pass
        },
        TriggerCondition::Deadband { deadband } => {
            match point.value.as_num() {
                Some(v) => {
                    let fwd = match state.last_values.get(&key) {
                        Some(lastv) => match lastv.as_num() {
                            Some(last) => match v.checked_sub(last) {
                                Some(diff) => {
                                    let r = rat_abs_gt(&diff, &deadband);
                                    proof {
                                        assert(fr_sub(fr(v), fr(last)).d >= 1) by (nonlinear_arith)
                                            requires
                                                v.den >= 1,
                                                last.den >= 1,
                                                fr_sub(fr(v), fr(last)).d == v.den as int
                                                    * last.den as int,
                                        ;
                                        lemma_abs_gt_congr(
                                            fr(diff),
                                            fr_sub(fr(v), fr(last)),
                                            fr(deadband),
                                        );
                                    }
                                    r
                                },
                                None => true,
                            },
                            None => true,
                        },
                        None => true,
                    };
                    if fwd {
                        state.last_values.insert(key, point.value.clone());
                    }
                    fwd
                },
                None => true,
            }
        },
    }
}

/// Negated product bound for the magnitude comparison.
proof fn lemma_neg_prod_bound(x: int, y: int)
    by (nonlinear_arith)
    requires
        -0x8000_0000_0000_0000 <= x <= 0x7FFF_FFFF_FFFF_FFFF,
        1 <= y <= 0x7FFF_FFFF_FFFF_FFFF,
    ensures
        -0x7FFF_FFFF_FFFF_FFFF_FFFF_FFFF_FFFF_FFFF <= (-x) * y
            <= 0x7FFF_FFFF_FFFF_FFFF_FFFF_FFFF_FFFF_FFFF,
{
}

/// Magnitude comparison respects fraction equality: two equal deltas
/// either both exceed the deadband or neither does.
proof fn lemma_abs_gt_congr(x1: Fr, x2: Fr, d: Fr)
    requires
        x1.d >= 1,
        x2.d >= 1,
        d.d >= 1,
        fr_eq(x1, x2),
    ensures
        fr_abs_gt(x1, d) == fr_abs_gt(x2, d),
{
    lemma_cross_gt(x1.n, x1.d, x2.n, x2.d, d.n, d.d);
    assert((-x1.n) * x2.d == (-x2.n) * x1.d) by (nonlinear_arith)
        requires
            x1.n * x2.d == x2.n * x1.d,
    ;
    lemma_cross_gt(-x1.n, x1.d, -x2.n, x2.d, d.n, d.d);
}

/// Cross-multiplied strict comparison is invariant under fraction
/// equality.
proof fn lemma_cross_gt(a: int, b: int, c: int, e: int, p: int, q: int)
    requires
        b >= 1,
        e >= 1,
        a * e == c * b,
    ensures
        (a * q > p * b) == (c * q > p * e),
{
    assert(((a * q) * e == (c * q) * b) && ((p * b) * e == (p * e) * b)) by (nonlinear_arith)
        requires
            a * e == c * b,
    ;
    assert((a * q > p * b) ==> ((a * q) * e > (p * b) * e)) by (nonlinear_arith)
        requires
            e >= 1,
    ;
    assert((a * q <= p * b) ==> ((a * q) * e <= (p * b) * e)) by (nonlinear_arith)
        requires
            e >= 1,
    ;
    assert(((c * q) * b > (p * e) * b) ==> (c * q > p * e)) by (nonlinear_arith)
        requires
            b >= 1,
    ;
    assert(((c * q) * b <= (p * e) * b) ==> (c * q <= p * e)) by (nonlinear_arith)
        requires
            b >= 1,
    ;
}

/// Replaying the same point twice through an `OnChange` mapping forwards
/// it exactly once: the second decision always refuses, and the first
/// forwards whenever the store held no equal value for the source key.
pub proof fn lemma_on_change_forwards_once(
    m: PointMapping,
    p: DataPoint,
    lv: Map<u64, Value>,
    lv1: Map<u64, Value>,
    lf: Map<u64, u64>,
    now1: u64,
    now2: u64,
)
    requires
        m.spec_trigger() == TriggerCondition::OnChange,
        spec_lv_after(
            m,
            p,
            lv,
            spec_should_forward(m, p, lv, lf, now1),
            lv1,
        ),
    ensures
        ({
            let f1 = spec_should_forward(m, p, lv, lf, now1);
            let f2 = spec_should_forward(m, p, lv1, lf, now2);
            &&& !f2
            &&& (!(lv.contains_key(spec_route_key(m.source_channel, m.source_point))
                && lv[spec_route_key(m.source_channel, m.source_point)]@.eq_val(p.value@)) ==> f1)
        }),
{
    let key = spec_route_key(m.source_channel, m.source_point);
    let f1 = spec_should_forward(m, p, lv, lf, now1);
    if f1 {
        assert(lv1.contains_key(key));
        assert(lv1[key]@ == p.value@);
    }
}

/// The deadband trigger forwards exactly the strict band crossings: with
/// a stored numeric value, a delta equal to the deadband does not forward
/// and a strictly larger delta does.
pub proof fn lemma_deadband_boundary(
    m: PointMapping,
    p: DataPoint,
    lv: Map<u64, Value>,
    lf: Map<u64, u64>,
    now: u64,
    d: Rat,
    v: Fr,
    last: Fr,
)
    requires
        m.spec_trigger() == (TriggerCondition::Deadband { deadband: d }),
        d.wf(),
        d.num >= 0,
        value_fr(p.value@) == Some(v),
        lv.contains_key(spec_route_key(m.source_channel, m.source_point)),
        value_fr(lv[spec_route_key(m.source_channel, m.source_point)]@) == Some(last),
        v.d >= 1,
        last.d >= 1,
        crate::rat::representable(v.n * last.d - last.n * v.d, v.d * last.d),
    ensures
        // a delta of exactly the deadband, either way, does not forward
        fr_eq(fr_sub(v, last), fr(d)) ==> !spec_should_forward(m, p, lv, lf, now),
        fr_eq(fr_sub(last, v), fr(d)) ==> !spec_should_forward(m, p, lv, lf, now),
        // a delta strictly beyond the deadband forwards
        fr_abs_gt(fr_sub(v, last), fr(d)) ==> spec_should_forward(m, p, lv, lf, now),
{
    let key = spec_route_key(m.source_channel, m.source_point);
    let diff = fr_sub(v, last);
    assert(diff.d >= 1) by (nonlinear_arith)
        requires
            v.d >= 1,
            last.d >= 1,
            diff.d == v.d * last.d,
    ;
    if fr_eq(diff, fr(d)) {
        // diff == d exactly: neither strict comparison holds
        assert(!(diff.n * d.den > d.num * diff.d)) by (nonlinear_arith)
            requires
                diff.n * d.den as int == d.num * diff.d,
        ;
        assert(!((-diff.n) * d.den > d.num * diff.d)) by (nonlinear_arith)
            requires
                diff.n * d.den as int == d.num * diff.d,
                d.num >= 0,
                d.den >= 1,
                diff.d >= 1,
        ;
    }
    if fr_eq(fr_sub(last, v), fr(d)) {
        assert(fr_sub(last, v).n == -diff.n && fr_sub(last, v).d == v.d * last.d) by (nonlinear_arith)
            requires
                diff.n == v.n * last.d - last.n * v.d,
                fr_sub(last, v).n == last.n * v.d - v.n * last.d,
                fr_sub(last, v).d == last.d * v.d,
                diff.d == v.d * last.d,
        ;
        assert(!((-diff.n) * d.den > d.num * diff.d)) by (nonlinear_arith)
            requires
                (-diff.n) * d.den as int == d.num * diff.d,
        ;
        assert(!(diff.n * d.den > d.num * diff.d)) by (nonlinear_arith)
            requires
                (-diff.n) * d.den as int == d.num * diff.d,
                d.num >= 0,
                d.den >= 1,
                diff.d >= 1,
        ;
    }
}

/// Transform a point for a target according to a mapping: numeric values
/// go through the linear transform, booleans through the reverse flag,
/// and everything else is forwarded untouched. The identifier becomes the
/// mapping's effective target point; type, quality and timestamps are
/// kept. A value the transform cannot represent is forwarded as null with
/// overflow quality.
pub fn transform_point(point: &DataPoint, mapping: &PointMapping) -> (r: DataPoint)
    requires
        point.wf(),
        mapping.wf(),
    ensures
        r.wf(),
        r.id == (match mapping.target_point {
            Some(t) => t,
            None => mapping.source_point,
        }),
        r.data_type == point.data_type,
        r.timestamp_ms == point.timestamp_ms,
        r.source_timestamp_ms == point.source_timestamp_ms,
        match point.value {
            Value::Num(x) => match r.value {
                Value::Num(y) => r.quality == point.quality && fr_eq(
                    fr(y),
                    mapping.transform.spec_apply(fr(x)),
                ),
                Value::Null => r.quality == Quality::Overflow,
                _ => false,
            },
            Value::Integer(x) => match r.value {
                Value::Num(y) => r.quality == point.quality && fr_eq(
                    fr(y),
                    mapping.transform.spec_apply(Fr { n: x as int, d: 1 }),
                ),
                Value::Null => r.quality == Quality::Overflow,
                _ => false,
            },
            Value::Bool(b) => r.value == Value::Bool(
                if mapping.transform.reverse {
                    !b
                } else {
                    b
                },
            ) && r.quality == point.quality,
            _ => r.value@ == point.value@ && r.quality == point.quality,
        },
{
    let id = mapping.effective_target_point();
    let (value, quality): (Value, Quality) = match &point.value {
        Value::Num(x) => match mapping.transform.apply(*x) {
            Some(y) => (Value::Num(y), point.quality),
            None => (Value::Null, Quality::Overflow),
        },
        Value::Integer(x) => match mapping.transform.apply(Rat::from_i64(*x)) {
            Some(y) => (Value::Num(y), point.quality),
            None => (Value::Null, Quality::Overflow),
        },
        Value::Bool(b) => (Value::Bool(mapping.transform.apply_bool(*b)), point.quality),
        other => (other.clone(), point.quality),
    };
    DataPoint {
        id,
        data_type: point.data_type,
        value,
        quality,
        timestamp_ms: point.timestamp_ms,
        source_timestamp_ms: point.source_timestamp_ms,
    }
}

/// The data router: evaluates the routing table over incoming batches and
/// groups the transformed points by target channel.
///
/// The router owns the routing decisions only; the caller owns the target
/// writers and performs the actual writes.
#[derive(Debug)]
pub struct DataRouter {
    /// Router configuration.
    pub config: RouterConfig,
    /// Trigger state.
    pub state: RouterState,
}

impl DataRouter {
    /// Well-formedness of table and state.
    pub open spec fn wf(self) -> bool {
        &&& self.config.routing_table.wf()
        &&& self.state.wf()
    }

    /// A new router with empty trigger state.
    pub fn new(config: RouterConfig) -> (r: DataRouter)
        requires
            config.routing_table.wf(),
        ensures
            r.wf(),
            r.config == config,
    {
        DataRouter { config, state: RouterState::new() }
    }

    /// Replace the routing table.
    pub fn set_routing_table(&mut self, table: RoutingTable)
        requires
            table.wf(),
        ensures
            final(self).config.routing_table == table,
            old(self).wf() ==> final(self).wf(),
    {
        self.config.routing_table = table;
    }

    /// The routing table.
    pub fn routing_table(&self) -> (t: &RoutingTable)
        ensures
            *t == self.config.routing_table,
    {
        &self.config.routing_table
    }

    /// Route one batch from a source channel: evaluate every matching
    /// enabled mapping over every point in table order, apply triggers and
    /// transforms, and return the per-target batches in first-use order.
    ///
    /// The total number of forwarded points and the trigger state after
    /// the call are exactly what the decision fold gives for the batch at
    /// the gateway clock's instant; every output batch is nonempty. The
    /// caller writes each returned batch to the channel under its
    /// identifier.
    pub fn route_batch(&mut self, source_channel: u32, batch: DataBatch) -> (out: Vec<
        (u32, DataBatch),
    >)
        requires
            old(self).wf(),
            batch.wf(),
        ensures
            final(self).wf(),
            final(self).config == old(self).config,
            forall|i: int|
                0 <= i < out@.len() ==> (#[trigger] out@[i]).1.wf(),
            forall|i: int|
                0 <= i < out@.len() ==> (#[trigger] out@[i]).1.spec_len() > 0,
            exists|t: u64|
                #[trigger] route_run_matches(
                    out@,
                    lv_views(final(self).state.spec_last_values()),
                    final(self).state.spec_last_forward(),
                    batch.spec_points(),
                    old(self).config.routing_table.mappings@,
                    Some(source_channel),
                    lv_views(old(self).state.spec_last_values()),
                    old(self).state.spec_last_forward(),
                    t,
                ),
    {
        let now = crate::data::now_ms();
        self.route_batch_at(Some(source_channel), batch, now)
    }

    /// Route a batch whose source channel is unknown: evaluate every
    /// enabled mapping whose source point matches each point, as an event
    /// envelope without a channel requires.
    pub fn process_batch(&mut self, batch: DataBatch) -> (out: Vec<(u32, DataBatch)>)
        requires
            old(self).wf(),
            batch.wf(),
        ensures
            final(self).wf(),
            final(self).config == old(self).config,
            forall|i: int|
                0 <= i < out@.len() ==> (#[trigger] out@[i]).1.wf(),
            forall|i: int|
                0 <= i < out@.len() ==> (#[trigger] out@[i]).1.spec_len() > 0,
            exists|t: u64|
                #[trigger] route_run_matches(
                    out@,
                    lv_views(final(self).state.spec_last_values()),
                    final(self).state.spec_last_forward(),
                    batch.spec_points(),
                    old(self).config.routing_table.mappings@,
                    None,
                    lv_views(old(self).state.spec_last_values()),
                    old(self).state.spec_last_forward(),
                    t,
                ),
    {
        let now = crate::data::now_ms();
        self.route_batch_at(None, batch, now)
    }

    /// Route one batch at a given instant: the common engine behind
    /// [`DataRouter::route_batch`] and [`DataRouter::process_batch`].
    fn route_batch_at(&mut self, source: Option<u32>, batch: DataBatch, now: u64) -> (out: Vec<
        (u32, DataBatch),
    >)
        requires
            old(self).wf(),
            batch.wf(),
        ensures
            final(self).wf(),
            final(self).config == old(self).config,
            forall|i: int|
                0 <= i < out@.len() ==> (#[trigger] out@[i]).1.wf(),
            forall|i: int|
                0 <= i < out@.len() ==> (#[trigger] out@[i]).1.spec_len() > 0,
            route_run_matches(
                out@,
                lv_views(final(self).state.spec_last_values()),
                final(self).state.spec_last_forward(),
                batch.spec_points(),
                old(self).config.routing_table.mappings@,
                source,
                lv_views(old(self).state.spec_last_values()),
                old(self).state.spec_last_forward(),
                now,
            ),
    {
        let ghost b0 = batch;
        let points = batch.iter();
        proof {
            lemma_batch_points_wf(b0);
        }
        let ghost table = self.config.routing_table.mappings@;
        let ghost vv0 = lv_views(self.state.spec_last_values());
        let ghost lf0 = self.state.spec_last_forward();
        let ghost full = spec_run_points(b0.spec_points(), table, source, vv0, lf0, now);
        let mut out: Vec<(u32, DataBatch)> = Vec::new();
        proof {
            assert(points@.subrange(0, points@.len() as int) =~= points@);
        }
        let mut i: usize = 0;
        while i < points.len()
            invariant
                self.wf(),
                self.config == old(self).config,
                table == old(self).config.routing_table.mappings@,
                points@ == b0.spec_points(),
                forall|k: int| 0 <= k < points@.len() ==> (#[trigger] points@[k]).wf(),
                forall|k: int| 0 <= k < out@.len() ==> (#[trigger] out@[k]).1.wf(),
                forall|k: int| 0 <= k < out@.len() ==> (#[trigger] out@[k]).1.spec_len() > 0,
                i <= points@.len(),
                spec_run_points(
                    points@.subrange(i as int, points@.len() as int),
                    table,
                    source,
                    lv_views(self.state.spec_last_values()),
                    self.state.spec_last_forward(),
                    now,
                ) == (full.0 - total_out_points(out@), full.1, full.2),
            decreases points@.len() - i,
        {
            let point = &points[i];
            let ghost pt_vv = lv_views(self.state.spec_last_values());
            let ghost pt_lf = self.state.spec_last_forward();
            let ghost pt_run = spec_run_table(
                table,
                points@[i as int],
                source,
                pt_vv,
                pt_lf,
                now,
            );
            let ghost counted0 = total_out_points(out@);
            proof {
                assert(points@.subrange(i as int, points@.len() as int)[0] == points@[i as int]);
                assert(points@.subrange(i as int, points@.len() as int).subrange(
                    1,
                    points@.len() - i,
                ) =~= points@.subrange(i + 1, points@.len() as int));
                assert(table.subrange(0, table.len() as int) =~= table);
            }
            let mut j: usize = 0;
            while j < self.config.routing_table.len()
                invariant
                    self.wf(),
                    self.config == old(self).config,
                    table == old(self).config.routing_table.mappings@,
                    0 <= i < points@.len(),
                    *point == points@[i as int],
                    j <= table.len(),
                    forall|k: int| 0 <= k < points@.len() ==> (#[trigger] points@[k]).wf(),
                    forall|k: int| 0 <= k < out@.len() ==> (#[trigger] out@[k]).1.wf(),
                    forall|k: int| 0 <= k < out@.len() ==> (#[trigger] out@[k]).1.spec_len() > 0,
                    total_out_points(out@) >= counted0,
                    spec_run_table(
                        table.subrange(j as int, table.len() as int),
                        points@[i as int],
                        source,
                        lv_views(self.state.spec_last_values()),
                        self.state.spec_last_forward(),
                        now,
                    ) == (pt_run.0 - (total_out_points(out@) - counted0), pt_run.1, pt_run.2),
                decreases table.len() - j,
            {
                let mapping = self.config.routing_table.mappings[j];
                proof {
                    assert(table.subrange(j as int, table.len() as int)[0] == table[j as int]);
                    assert(table.subrange(j as int, table.len() as int).subrange(
                        1,
                        table.len() - j,
                    ) =~= table.subrange(j + 1, table.len() as int));
                }
                let channel_matches = match source {
                    Some(c) => mapping.source_channel == c,
                    None => true,
                };
                if mapping.enabled && channel_matches && mapping.source_point == point.id {
                    let ghost pre_lv = self.state.spec_last_values();
                    let ghost pre_lf = self.state.spec_last_forward();
                    let fwd = should_forward(&mapping, point, &mut self.state, now);
                    proof {
                        lemma_decide_views(mapping, *point, pre_lv, pre_lf, now);
                        lemma_lv_after_views(
                            mapping,
                            *point,
                            pre_lv,
                            fwd,
                            self.state.spec_last_values(),
                        );
                    }
                    if fwd {
                        let transformed = transform_point(point, &mapping);
                        push_to_target(&mut out, mapping.target_channel, transformed);
                    }
                }
                j += 1;
            }
            proof {
                assert(table.subrange(table.len() as int, table.len() as int)
                    =~= Seq::<PointMapping>::empty());
            }
            i += 1;
        }
        proof {
            assert(points@.subrange(points@.len() as int, points@.len() as int)
                =~= Seq::<DataPoint>::empty());
        }
        out
    }
}

/// Whether a routing pass produced exactly the run the fold describes at
/// time `t`: the output point count and the final trigger state.
pub open spec fn route_run_matches(
    out: Seq<(u32, DataBatch)>,
    vv2: Map<u64, crate::data::ValueV>,
    lf2: Map<u64, u64>,
    ps: Seq<DataPoint>,
    ms: Seq<PointMapping>,
    source: Option<u32>,
    vv0: Map<u64, crate::data::ValueV>,
    lf0: Map<u64, u64>,
    t: u64,
) -> bool {
    let run = spec_run_points(ps, ms, source, vv0, lf0, t);
    &&& total_out_points(out) == run.0
    &&& vv2 == run.1
    &&& lf2 == run.2
}

/// Every point of a well-formed batch, in batch order, is well-formed.
proof fn lemma_batch_points_wf(b: DataBatch)
    requires
        b.wf(),
    ensures
        forall|k: int| 0 <= k < b.spec_points().len() ==> (#[trigger] b.spec_points()[k]).wf(),
{
    let t = b.telemetry@;
    let sg = b.signal@;
    let c = b.control@;
    let a = b.adjustment@;
    assert forall|k: int| 0 <= k < b.spec_points().len() implies (
    #[trigger] b.spec_points()[k]).wf() by {
        if k < t.len() {
            assert(b.spec_points()[k] == t[k]);
        } else if k < t.len() + sg.len() {
            assert(b.spec_points()[k] == sg[k - t.len()]);
        } else if k < t.len() + sg.len() + c.len() {
            assert(b.spec_points()[k] == c[k - t.len() - sg.len()]);
        } else {
            assert(b.spec_points()[k] == a[k - t.len() - sg.len() - c.len()]);
        }
    }
}

/// Append a point to the batch of its target channel/// Append a point to the batch of its target channel, creating the entry
/// in first-use order.
fn push_to_target(out: &mut Vec<(u32, DataBatch)>, channel_id: u32, point: DataPoint)
    requires
        point.wf(),
        forall|i: int| 0 <= i < old(out)@.len() ==> (#[trigger] old(out)@[i]).1.wf(),
        forall|i: int| 0 <= i < old(out)@.len() ==> (#[trigger] old(out)@[i]).1.spec_len() > 0,
    ensures
        forall|i: int| 0 <= i < final(out)@.len() ==> (#[trigger] final(out)@[i]).1.wf(),
        forall|i: int| 0 <= i < final(out)@.len() ==> (#[trigger] final(out)@[i]).1.spec_len() > 0,
        final(out)@.len() >= old(out)@.len(),
        final(out)@.len() >= 1,
        total_out_points(final(out)@) == total_out_points(old(out)@) + 1,
{
    let mut i: usize = 0;
    while i < out.len()
        invariant
            i <= out@.len(),
            point.wf(),
            out@ == old(out)@,
            forall|k: int| 0 <= k < out@.len() ==> (#[trigger] out@[k]).1.wf(),
            forall|k: int| 0 <= k < out@.len() ==> (#[trigger] out@[k]).1.spec_len() > 0,
        decreases out@.len() - i,
    {
        if out[i].0 == channel_id {
            let ghost before = out@;
            let (ch, mut b) = out.remove(i);
            b.add(point);
            out.insert(i, (ch, b));
            proof {
                assert(out@ =~= before.update(i as int, (ch, b)));
                lemma_total_out_update(before, i as int, (ch, b));
            }
            return;
        }
        i += 1;
    }
    let mut b = DataBatch::new();
    b.add(point);
    out.push((channel_id, b));
    proof {
        assert(out@.drop_last() =~= old(out)@);
    }
}

} // verus!
