//! Channel factory: turns a declarative channel configuration into a
//! runnable channel plan with its parsed point list.

use crate::address::{
    gpio_shorthand_addr, gpio_shorthand_valid, iec104_shorthand_addr, iec104_shorthand_valid,
    matches_keyword, modbus_shorthand_addr, modbus_shorthand_valid, opcua_shorthand_addr,
    opcua_shorthand_valid, parse_address,
};
use crate::config::PointDef;
use crate::config::ChannelConfig;
use crate::data::DataType;
use crate::error::GatewayError;
use crate::gpio::{GpioChannelConfig, GpioPinConfig};
use crate::j1939::J1939Config;
use crate::modbus::{ModbusConfig, ModbusConfigBuilder, ModbusMode};
use crate::point::{GpioDirection, PointConfig, ProtocolAddress};
use crate::virtual_channel::VirtualChannelConfig;
use vstd::prelude::*;

verus! {

/// Result of building a channel: the channel value itself, the parsed
/// points, and the points whose addresses failed to parse.
#[derive(Debug)]
pub struct ChannelBuildResult<C> {
    /// The constructed channel value.
    pub channel: C,
    /// Parsed point configurations.
    pub points: Vec<PointConfig>,
    /// Points that failed to parse, with the failure reason.
    pub failed_points: Vec<(u32, String)>,
}

impl<C> ChannelBuildResult<C> {
    /// A result without failures.
    pub fn new(channel: C, points: Vec<PointConfig>) -> (r: ChannelBuildResult<C>)
        ensures
            r.channel == channel,
            r.points == points,
            r.failed_points@.len() == 0,
    {
        ChannelBuildResult { channel, points, failed_points: Vec::new() }
    }

    /// A result with some failed points.
    pub fn with_failures(channel: C, points: Vec<PointConfig>, failures: Vec<(u32, String)>) -> (r:
        ChannelBuildResult<C>)
        ensures
            r.channel == channel,
            r.points == points,
            r.failed_points == failures,
    {
        ChannelBuildResult { channel, points, failed_points: failures }
    }

    /// Whether any point failed to parse.
    pub fn has_failures(&self) -> (r: bool)
        ensures
            r == (self.failed_points@.len() != 0),
    {
        !self.failed_points.is_empty()
    }

    /// The number of successfully parsed points.
    pub fn success_count(&self) -> (n: usize)
        ensures
            n == self.points@.len(),
    {
        self.points.len()
    }

    /// The number of failed points.
    pub fn failure_count(&self) -> (n: usize)
        ensures
            n == self.failed_points@.len(),
    {
        self.failed_points.len()
    }
}

/// A runnable channel plan: the per-protocol configuration the factory
/// produced. The caller owns the transports and wraps each plan in its
/// runtime.
#[derive(Debug)]
pub enum ChannelPlan {
    /// A Modbus TCP client.
    Modbus(ModbusConfig),
    /// A J1939 CAN listener.
    Can(J1939Config),
    /// A GPIO channel.
    Gpio(GpioChannelConfig),
    /// A virtual hub.
    Virtual(VirtualChannelConfig),
}

/// Exact string comparison.
fn str_eq(a: &str, b: &str) -> (r: bool)
    ensures
        r == (a@ == b@),
{
    let n = a.unicode_len();
    if b.unicode_len() != n {
        proof {
            assert(a@.len() != b@.len());
        }
        return false;
    }
    let mut i: usize = 0;
    while i < n
        invariant
            i <= n,
            n == a@.len(),
            a@.len() == b@.len(),
            forall|k: int| 0 <= k < i ==> a@[k] == b@[k],
        decreases n - i,
    {
        if a.get_char(i) != b.get_char(i) {
            proof {
                assert(a@[i as int] != b@[i as int]);
            }
            return false;
        }
        i += 1;
    }
    proof {
        assert(a@ =~= b@);
    }
    true
}

/// Look up a parameter value by key.
fn param_get(params: &Vec<(String, String)>, key: &str) -> (r: Option<String>)
    ensures
        r matches Some(v) ==> exists|i: int|
            0 <= i < params@.len() && (#[trigger] params@[i]).0@ == key@ && params@[i].1@ == v@,
        r is None ==> forall|i: int| 0 <= i < params@.len() ==> (#[trigger] params@[i]).0@ != key@,
{
    let mut i: usize = 0;
    while i < params.len()
        invariant
            i <= params@.len(),
            forall|k: int| 0 <= k < i ==> (#[trigger] params@[k]).0@ != key@,
        decreases params@.len() - i,
    {
        let pair = &params[i];
        if str_eq(pair.0.as_str(), key) {
            return Some(pair.1.clone());
        }
        i += 1;
    }
    None
}

/// Whether the shorthand address is valid for the protocol keyword: the
/// protocol's grammar for the known keywords, nothing for unknown ones.
pub open spec fn addr_ok(protocol: Seq<char>, a: Seq<char>) -> bool {
    if matches_keyword(protocol, "modbus"@) {
        modbus_shorthand_valid(a)
    } else if matches_keyword(protocol, "iec104"@) {
        iec104_shorthand_valid(a)
    } else if matches_keyword(protocol, "opcua"@) {
        opcua_shorthand_valid(a)
    } else if matches_keyword(protocol, "can"@) {
        true
    } else if matches_keyword(protocol, "gpio"@) {
        gpio_shorthand_valid(a)
    } else if matches_keyword(protocol, "virtual"@) {
        true
    } else {
        false
    }
}

/// Whether a parsed address is what the protocol's grammar gives the
/// shorthand.
pub open spec fn addr_matches(protocol: Seq<char>, s: Seq<char>, address: ProtocolAddress) -> bool {
    if matches_keyword(protocol, "modbus"@) {
        address matches ProtocolAddress::Modbus(a) && modbus_shorthand_addr(s, a)
    } else if matches_keyword(protocol, "iec104"@) {
        address matches ProtocolAddress::Iec104(a) && iec104_shorthand_addr(s, a)
    } else if matches_keyword(protocol, "opcua"@) {
        address matches ProtocolAddress::OpcUa(a) && opcua_shorthand_addr(s, a)
    } else if matches_keyword(protocol, "can"@) {
        address matches ProtocolAddress::Generic(g) && g@ == s
    } else if matches_keyword(protocol, "gpio"@) {
        address matches ProtocolAddress::Gpio(a) && gpio_shorthand_addr(s, a)
    } else if matches_keyword(protocol, "virtual"@) {
        address matches ProtocolAddress::Virtual(v) && v.group is None && v.tag@ == s
    } else {
        false
    }
}

/// The indices below `n` of the enabled definitions whose shorthand is
/// valid for the protocol, in order.
pub open spec fn parsed_def_idxs(defs: Seq<PointDef>, protocol: Seq<char>, n: int) -> Seq<int>
    decreases n,
{
    if n <= 0 {
        Seq::empty()
    } else {
        parsed_def_idxs(defs, protocol, n - 1) + (if defs[n - 1].enabled && addr_ok(
            protocol,
            defs[n - 1].address@,
        ) {
            seq![n - 1]
        } else {
            Seq::<int>::empty()
        })
    }
}

/// The indices below `n` of the enabled definitions whose shorthand is
/// invalid for the protocol, in order.
pub open spec fn failed_def_idxs(defs: Seq<PointDef>, protocol: Seq<char>, n: int) -> Seq<int>
    decreases n,
{
    if n <= 0 {
        Seq::empty()
    } else {
        failed_def_idxs(defs, protocol, n - 1) + (if defs[n - 1].enabled && !addr_ok(
            protocol,
            defs[n - 1].address@,
        ) {
            seq![n - 1]
        } else {
            Seq::<int>::empty()
        })
    }
}

/// Convert the enabled point definitions into point configurations by
/// parsing their shorthand addresses.
///
/// One configuration comes out per enabled definition whose shorthand is
/// valid, in order, carrying the definition's identifier, name and
/// transform and the grammar's address; every other enabled definition
/// becomes a `(point_id, reason)` warning. Disabled points are skipped
/// and failures do not abort the channel.
pub fn build_point_configs(config: &ChannelConfig) -> (r: (Vec<PointConfig>, Vec<(u32, String)>))
    requires
        config.wf(),
    ensures
        forall|i: int| 0 <= i < r.0@.len() ==> (#[trigger] r.0@[i]).wf() && r.0@[i].enabled,
        ({
            let parsed = parsed_def_idxs(
                config.points@,
                config.protocol@,
                config.points@.len() as int,
            );
            &&& r.0@.len() == parsed.len()
            &&& forall|k: int|
                0 <= k < parsed.len() ==> {
                    let def = config.points@[parsed[k]];
                    &&& (#[trigger] r.0@[k]).id == def.id
                    &&& r.0@[k].name matches Some(nm) && nm@ == def.name@
                    &&& r.0@[k].transform == def.transform
                    &&& addr_matches(config.protocol@, def.address@, r.0@[k].address)
                }
        }),
        ({
            let bad = failed_def_idxs(
                config.points@,
                config.protocol@,
                config.points@.len() as int,
            );
            &&& r.1@.len() == bad.len()
            &&& forall|k: int|
                0 <= k < bad.len() ==> (#[trigger] r.1@[k]).0 == config.points@[bad[k]].id
        }),
{
    let mut points: Vec<PointConfig> = Vec::new();
    let mut failed: Vec<(u32, String)> = Vec::new();
    let mut i: usize = 0;
    while i < config.points.len()
        invariant
            i <= config.points@.len(),
            config.wf(),
            forall|k: int| 0 <= k < points@.len() ==> (#[trigger] points@[k]).wf()
                && points@[k].enabled,
            ({
                let parsed = parsed_def_idxs(config.points@, config.protocol@, i as int);
                &&& points@.len() == parsed.len()
                &&& forall|k: int|
                    0 <= k < parsed.len() ==> {
                        let def = config.points@[parsed[k]];
                        &&& (#[trigger] points@[k]).id == def.id
                        &&& points@[k].name matches Some(nm) && nm@ == def.name@
                        &&& points@[k].transform == def.transform
                        &&& addr_matches(config.protocol@, def.address@, points@[k].address)
                    }
            }),
            ({
                let bad = failed_def_idxs(config.points@, config.protocol@, i as int);
                &&& failed@.len() == bad.len()
                &&& forall|k: int|
                    0 <= k < bad.len() ==> (#[trigger] failed@[k]).0 == config.points@[bad[k]].id
            }),
        decreases config.points@.len() - i,
    {
        let def = &config.points[i];
        if def.enabled {
            match parse_address(config.protocol.as_str(), def.address.as_str()) {
                Ok(address) => {
                    proof {
                        lemma_parse_matches_grammar(config.protocol@, def.address@, address);
                    }
                    // digital pins are signals or controls; everything
                    // else defaults to telemetry
                    let data_type = match &address {
                        ProtocolAddress::Gpio(a) => match a.direction {
                            GpioDirection::Input => DataType::Signal,
                            GpioDirection::Output => DataType::Control,
                        },
                        _ => DataType::Telemetry,
                    };
                    points.push(
                        PointConfig {
                            id: def.id,
                            name: Some(def.name.clone()),
                            data_type,
                            address,
                            transform: def.transform,
                            poll_group: None,
                            enabled: true,
                        },
                    );
                },
                Err(_) => {
                    failed.push((def.id, String::from_str("invalid point address")));
                },
            }
        }
        i += 1;
    }
    (points, failed)
}

/// A successful parse under a known keyword yields the grammar's address
/// for that keyword, the first matching one deciding.
proof fn lemma_parse_matches_grammar(protocol: Seq<char>, s: Seq<char>, address: ProtocolAddress)
    requires
        matches_keyword(protocol, "modbus"@) ==> (address matches ProtocolAddress::Modbus(a)
            && modbus_shorthand_addr(s, a)) && modbus_shorthand_valid(s),
        matches_keyword(protocol, "iec104"@) ==> (address matches ProtocolAddress::Iec104(a)
            && iec104_shorthand_addr(s, a)) && iec104_shorthand_valid(s),
        matches_keyword(protocol, "opcua"@) ==> (address matches ProtocolAddress::OpcUa(a)
            && opcua_shorthand_addr(s, a)) && opcua_shorthand_valid(s),
        matches_keyword(protocol, "can"@) ==> (address matches ProtocolAddress::Generic(g) && g@
            == s),
        matches_keyword(protocol, "gpio"@) ==> (address matches ProtocolAddress::Gpio(a)
            && gpio_shorthand_addr(s, a)) && gpio_shorthand_valid(s),
        matches_keyword(protocol, "virtual"@) ==> (address matches ProtocolAddress::Virtual(v)
            && v.group is None && v.tag@ == s),
        matches_keyword(protocol, "modbus"@) || matches_keyword(protocol, "iec104"@)
            || matches_keyword(protocol, "opcua"@) || matches_keyword(protocol, "can"@)
            || matches_keyword(protocol, "gpio"@) || matches_keyword(protocol, "virtual"@),
    ensures
        addr_ok(protocol, s),
        addr_matches(protocol, s, address),
{
}

/// Create a channel plan from a channel configuration.
///
/// The protocol keyword is matched case-insensitively. Modbus channels
/// require an `address` parameter; CAN channels take an optional
/// `interface` and `source_address`; GPIO channels derive their pin table
/// from the parsed points; virtual channels take the channel name.
/// Protocols without a built-in transport, and unknown protocols, are
/// configuration errors.
pub fn create_channel(config: &ChannelConfig) -> (r: Result<
    ChannelBuildResult<ChannelPlan>,
    GatewayError,
>)
    requires
        config.wf(),
    ensures
        r matches Ok(b) ==> (forall|i: int|
            0 <= i < b.points@.len() ==> (#[trigger] b.points@[i]).wf() && b.points@[i].enabled),
        r matches Ok(b) ==> {
            let parsed = parsed_def_idxs(
                config.points@,
                config.protocol@,
                config.points@.len() as int,
            );
            &&& b.points@.len() == parsed.len()
            &&& forall|k: int|
                0 <= k < parsed.len() ==> {
                    let def = config.points@[parsed[k]];
                    &&& (#[trigger] b.points@[k]).id == def.id
                    &&& b.points@[k].transform == def.transform
                    &&& addr_matches(config.protocol@, def.address@, b.points@[k].address)
                }
        },
        (matches_keyword(config.protocol@, "modbus"@) && r is Ok) ==> (r matches Ok(b) && (b.channel
            matches ChannelPlan::Modbus(c) && c.mode == ModbusMode::Tcp && exists|j: int|
            0 <= j < config.parameters@.len() && (#[trigger] config.parameters@[j]).0@
                == "address"@ && c.address@ == config.parameters@[j].1@)),
        (matches_keyword(config.protocol@, "modbus"@) && (exists|j: int|
            0 <= j < config.parameters@.len() && (#[trigger] config.parameters@[j]).0@
                == "address"@)) ==> r is Ok,
        (matches_keyword(config.protocol@, "modbus"@) && (forall|j: int|
            0 <= j < config.parameters@.len() ==> (#[trigger] config.parameters@[j]).0@
                != "address"@)) ==> (r matches Err(e) && e is Config),
        (matches_keyword(config.protocol@, "can"@) && r is Ok) ==> (r matches Ok(b) && b.channel
            is Can),
        (matches_keyword(config.protocol@, "can"@) && (forall|j: int|
            0 <= j < config.parameters@.len() ==> (#[trigger] config.parameters@[j]).0@
                != "source_address"@)) ==> (r matches Ok(b) && (b.channel
            matches ChannelPlan::Can(c) && c.source_address == 0)),
        matches_keyword(config.protocol@, "gpio"@) ==> (r matches Ok(b) && b.channel is Gpio),
        matches_keyword(config.protocol@, "virtual"@) ==> (r matches Ok(b) && (b.channel
            matches ChannelPlan::Virtual(c) && c.name@ == config.name@)),
        matches_keyword(config.protocol@, "iec104"@) || matches_keyword(config.protocol@, "opcua"@)
            ==> (r matches Err(e) && e is Config),
        r matches Err(e) ==> e is Config,
{
    proof {
        reveal_strlit("modbus");
        reveal_strlit("iec104");
        reveal_strlit("opcua");
        reveal_strlit("can");
        reveal_strlit("gpio");
        reveal_strlit("virtual");
        lemma_keywords_disjoint(config.protocol@);
    }
    let protocol = config.protocol.as_str();
    if crate::address::str_matches_keyword(protocol, "modbus") {
        let (points, failed) = build_point_configs(config);
        let address = match param_get(&config.parameters, "address") {
            Some(a) => a,
            None => {
                return Err(GatewayError::config("a Modbus channel requires an address parameter"));
            },
        };
        let plan = ModbusConfigBuilder::new().tcp(address).points(
            clone_point_list(&points),
        ).build();
        Ok(ChannelBuildResult::with_failures(ChannelPlan::Modbus(plan), points, failed))
    } else if crate::address::str_matches_keyword(protocol, "can") {
        let (points, failed) = build_point_configs(config);
        let interface = match param_get(&config.parameters, "interface") {
            Some(a) => a,
            None => String::from_str("can0"),
        };
        let source_address: u8 = match param_get(&config.parameters, "source_address") {
            Some(a) => {
                let t = a.as_str();
                match crate::address::parse_number(t, 0, t.unicode_len(), 255) {
                    Some(v) => v as u8,
                    None => {
                        return Err(GatewayError::config("invalid CAN source address"));
                    },
                }
            },
            None => 0,
        };
        let plan = J1939Config {
            can_interface: interface,
            source_address,
            our_address: 0xFE,
            request_interval_ms: 1000,
        };
        Ok(ChannelBuildResult::with_failures(ChannelPlan::Can(plan), points, failed))
    } else if crate::address::str_matches_keyword(protocol, "gpio") {
        let (points, failed) = build_point_configs(config);
        let mut pins: Vec<GpioPinConfig> = Vec::new();
        let mut i: usize = 0;
        while i < points.len()
            invariant
                i <= points@.len(),
            decreases points@.len() - i,
        {
            let p = &points[i];
            match &p.address {
                ProtocolAddress::Gpio(a) => {
                    pins.push(
                        GpioPinConfig {
                            chip: a.chip.clone(),
                            pin: a.pin,
                            direction: a.direction,
                            point_id: p.id,
                            active_low: a.active_low,
                            debounce_us: if matches!(a.direction, GpioDirection::Input) {
                                Some(1000)
                            } else {
                                None
                            },
                        },
                    );
                },
                _ => {},
            }
            i += 1;
        }
        let mut gc = GpioChannelConfig::new();
        let mut j: usize = 0;
        while j < pins.len()
            invariant
                j <= pins@.len(),
            decreases pins@.len() - j,
        {
            gc = gc.add_pin(pins[j].clone_pin());
            j += 1;
        }
        Ok(ChannelBuildResult::with_failures(ChannelPlan::Gpio(gc), points, failed))
    } else if crate::address::str_matches_keyword(protocol, "virtual") {
        let (points, failed) = build_point_configs(config);
        let plan = VirtualChannelConfig::new(config.name.clone()).with_points(
            clone_point_list(&points),
        );
        Ok(ChannelBuildResult::with_failures(ChannelPlan::Virtual(plan), points, failed))
    } else if crate::address::str_matches_keyword(protocol, "iec104")
        || crate::address::str_matches_keyword(protocol, "opcua") {
        Err(GatewayError::config("protocol without a built-in transport"))
    } else {
        Err(GatewayError::config("unsupported protocol"))
    }
}

/// Copy a list of point configurations.
fn clone_point_list(points: &Vec<PointConfig>) -> (r: Vec<PointConfig>)
    requires
        forall|i: int| 0 <= i < points@.len() ==> (#[trigger] points@[i]).wf(),
    ensures
        r@.len() == points@.len(),
        forall|i: int| 0 <= i < r@.len() ==> (#[trigger] r@[i]).wf(),
{
    let mut out: Vec<PointConfig> = Vec::new();
    let mut i: usize = 0;
    while i < points.len()
        invariant
            i <= points@.len(),
            out@.len() == i,
            forall|k: int| 0 <= k < points@.len() ==> (#[trigger] points@[k]).wf(),
            forall|k: int| 0 <= k < out@.len() ==> (#[trigger] out@[k]).wf(),
        decreases points@.len() - i,
    {
        out.push(points[i].clone_cfg());
        i += 1;
    }
    out
}

/// A protocol string matches at most one of the six keywords.
proof fn lemma_keywords_disjoint(p: Seq<char>)
    ensures
        !(matches_keyword(p, "modbus"@) && matches_keyword(p, "iec104"@)),
{
    reveal_strlit("modbus");
    reveal_strlit("iec104");
    if matches_keyword(p, "modbus"@) && matches_keyword(p, "iec104"@) {
        assert(crate::address::char_matches_lower(p[0], "modbus"@[0]));
        assert(crate::address::char_matches_lower(p[0], "iec104"@[0]));
    }
}

} // verus!
