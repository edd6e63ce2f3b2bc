//! Tests of address parsing, transforms, the router and the factory.

use igw::address::{parse_address, parse_iec104_address, parse_modbus_address, parse_opcua_address};
use igw::config::{parse_decimal, ChannelConfig, ChannelModeConfig, GatewayGlobalConfig, PointDef};
use igw::data::{DataBatch, DataPoint, Value};
use igw::factory::{create_channel, ChannelBuildResult, ChannelPlan};
use igw::point::{DataFormat, ProtocolAddress, TransformConfig};
use igw::rat::Rat;
use igw::router::{DataRouter, PointMapping, RouterConfig, RoutingTable, TriggerCondition};
use igw::state::{ConnectionState, ReadRequest};
use igw::gpio::{GpioChannel, GpioChannelConfig, GpioPinConfig};
use igw::state::ControlCommand;
use igw::virtual_channel::{VirtualChannel, VirtualChannelConfig};

#[test]
fn test_parse_modbus_address() {
    let addr = parse_modbus_address("1:100").unwrap();
    if let ProtocolAddress::Modbus(m) = addr {
        assert_eq!(m.slave_id, 1);
        assert_eq!(m.register, 100);
        assert_eq!(m.function_code, 3);
    } else {
        panic!("Expected Modbus address");
    }
}

#[test]
fn test_parse_modbus_address_with_function() {
    let addr = parse_modbus_address("2:200:4").unwrap();
    if let ProtocolAddress::Modbus(m) = addr {
        assert_eq!(m.slave_id, 2);
        assert_eq!(m.register, 200);
        assert_eq!(m.function_code, 4);
    } else {
        panic!("Expected Modbus address");
    }
}

#[test]
fn test_parse_iec104_address() {
    let addr = parse_iec104_address("1001").unwrap();
    if let ProtocolAddress::Iec104(i) = addr {
        assert_eq!(i.ioa, 1001);
    } else {
        panic!("Expected IEC104 address");
    }
}

#[test]
fn test_parse_opcua_address() {
    let addr = parse_opcua_address("ns=2;i=1234").unwrap();
    if let ProtocolAddress::OpcUa(o) = addr {
        assert_eq!(o.namespace_index, 2);
        assert_eq!(o.node_id, "i=1234");
    } else {
        panic!("Expected OPC UA address");
    }
}

#[test]
fn test_parse_opcua_address_no_namespace() {
    let addr = parse_opcua_address("i=1234").unwrap();
    if let ProtocolAddress::OpcUa(o) = addr {
        assert_eq!(o.namespace_index, 0);
        assert_eq!(o.node_id, "i=1234");
    } else {
        panic!("Expected OPC UA address");
    }
}

#[test]
fn test_parse_virtual_address() {
    let addr = parse_address("virtual", "temperature").unwrap();
    if let ProtocolAddress::Virtual(v) = addr {
        assert_eq!(v.tag, "temperature");
    } else {
        panic!("Expected Virtual address");
    }
}

#[test]
fn opcua_string_name_scenario() {
    let addr = parse_address("opcua", "ns=2;s=Temperature").unwrap();
    if let ProtocolAddress::OpcUa(o) = addr {
        assert_eq!(o.namespace_index, 2);
        assert_eq!(o.node_id, "s=Temperature");
    } else {
        panic!("Expected OPC UA address");
    }
}

#[test]
fn malformed_modbus_address_is_a_config_error() {
    assert!(matches!(
        parse_address("modbus", "x:y"),
        Err(igw::error::GatewayError::Config(_))
    ));
    assert!(matches!(
        parse_address("modbus", "100"),
        Err(igw::error::GatewayError::Config(_))
    ));
    assert!(matches!(
        parse_address("nosuch", "1"),
        Err(igw::error::GatewayError::Config(_))
    ));
}

#[test]
fn gpio_address_grammar() {
    if let ProtocolAddress::Gpio(a) = parse_address("gpio", "17").unwrap() {
        assert_eq!(a.chip, "gpiochip0");
        assert_eq!(a.pin, 17);
        assert_eq!(a.direction, igw::point::GpioDirection::Input);
    } else {
        panic!("Expected GPIO address");
    }
    if let ProtocolAddress::Gpio(a) = parse_address("gpio", "chipA:18:OUT").unwrap() {
        assert_eq!(a.chip, "chipA");
        assert_eq!(a.pin, 18);
        assert_eq!(a.direction, igw::point::GpioDirection::Output);
    } else {
        panic!("Expected GPIO address");
    }
}

#[test]
fn test_modbus_address() {
    let addr = igw::point::ModbusAddress::holding_register(1, 100, DataFormat::Float32);
    assert_eq!(addr.slave_id, 1);
    assert_eq!(addr.function_code, 3);
    assert_eq!(addr.register, 100);
    assert_eq!(addr.register_count(), 2);
}

#[test]
fn test_transform() {
    let t = TransformConfig::linear(Rat::new(1, 10).unwrap(), Rat::from_i64(10));
    assert_eq!(t.apply(Rat::from_i64(100)).unwrap(), Rat::from_i64(20));
    assert_eq!(t.reverse_apply(Rat::from_i64(20)).unwrap(), Rat::from_i64(100));
}

#[test]
fn transform_reverse_apply_inverts_apply() {
    let t = TransformConfig::linear(Rat::new(-3, 7).unwrap(), Rat::new(5, 2).unwrap());
    for v in [-12i64, 0, 7, 1000] {
        let x = Rat::from_i64(v);
        let y = t.apply(x).unwrap();
        assert_eq!(t.reverse_apply(y).unwrap(), x);
    }
}

#[test]
fn transform_with_zero_scale_has_no_inverse() {
    let t = TransformConfig::linear(Rat::from_i64(0), Rat::from_i64(1));
    assert!(t.reverse_apply(Rat::from_i64(5)).is_none());
}

#[test]
fn test_data_format_register_count() {
    assert_eq!(DataFormat::UInt16.register_count(), 1);
    assert_eq!(DataFormat::Float32.register_count(), 2);
    assert_eq!(DataFormat::Float64.register_count(), 4);
}

#[test]
fn test_point_mapping_direct() {
    let mapping = PointMapping::direct(1, 100, 2, 104);
    assert_eq!(mapping.source_channel, 1);
    assert_eq!(mapping.source_point, 100);
    assert_eq!(mapping.target_channel, 2);
    assert_eq!(mapping.effective_target_point(), 104);
}

#[test]
fn test_point_mapping_same_id() {
    let mapping = PointMapping::same_id(1, 200, 2);
    assert_eq!(mapping.effective_target_point(), 200);
}

#[test]
fn test_routing_table() {
    let mut table = RoutingTable::new();
    table.add(PointMapping::direct(1, 1, 2, 1));
    table.add(PointMapping::direct(1, 2, 2, 2));
    table.add(PointMapping::direct(1, 1, 3, 1));

    let mappings = table.find_by_source(1, 1);
    assert_eq!(mappings.len(), 2);

    let targets = table.targets_for_channel(2);
    assert_eq!(targets.len(), 2);
}

fn telemetry(id: u32, num: i64, den: i64) -> DataPoint {
    DataPoint::telemetry(id, Value::Num(Rat::new(num, den).unwrap()))
}

#[test]
fn router_route_batch_direct() {
    let mut table = RoutingTable::new();
    table.add(PointMapping::direct(1, 100, 2, 104));
    let mut router = DataRouter::new(RouterConfig::new(table));

    let mut batch = DataBatch::new();
    batch.add(telemetry(100, 51, 2));

    let out = router.route_batch(1, batch);
    assert_eq!(out.len(), 1);
    let (channel, forwarded) = &out[0];
    assert_eq!(*channel, 2);
    assert_eq!(forwarded.telemetry.len(), 1);
    assert_eq!(forwarded.telemetry[0].id, 104);
}

#[test]
fn router_ignores_other_channels_and_disabled_mappings() {
    let mut table = RoutingTable::new();
    table.add(PointMapping::direct(1, 100, 2, 104));
    table.add(PointMapping::direct(1, 100, 3, 105).with_enabled(false));
    let mut router = DataRouter::new(RouterConfig::new(table));

    let mut batch = DataBatch::new();
    batch.add(telemetry(100, 1, 1));
    let out = router.route_batch(9, batch);
    assert!(out.is_empty());

    let mut batch = DataBatch::new();
    batch.add(telemetry(100, 1, 1));
    let out = router.route_batch(1, batch);
    assert_eq!(out.len(), 1);
    assert_eq!(out[0].0, 2);
}

#[test]
fn router_on_change_forwards_once() {
    let mut table = RoutingTable::new();
    table.add(PointMapping::same_id(1, 7, 2).with_trigger(TriggerCondition::OnChange));
    let mut router = DataRouter::new(RouterConfig::new(table));

    let mut batch = DataBatch::new();
    batch.add(telemetry(7, 10, 1));
    let out = router.route_batch(1, batch);
    assert_eq!(out.len(), 1);

    // the same value again is not forwarded
    let mut batch = DataBatch::new();
    batch.add(telemetry(7, 10, 1));
    let out = router.route_batch(1, batch);
    assert!(out.is_empty());

    // a changed value is forwarded
    let mut batch = DataBatch::new();
    batch.add(telemetry(7, 11, 1));
    let out = router.route_batch(1, batch);
    assert_eq!(out.len(), 1);
}

#[test]
fn router_deadband_sequence() {
    // deadband one half: of 10, 10.3, 10.6, 10.6, 11.2 only the band
    // crossings 10, 10.6 and 11.2 are forwarded
    let mut table = RoutingTable::new();
    table.add(
        PointMapping::same_id(1, 5, 2).with_trigger(TriggerCondition::Deadband {
            deadband: Rat::new(1, 2).unwrap(),
        }),
    );
    let mut router = DataRouter::new(RouterConfig::new(table));

    let inputs = [(100i64, 10i64), (103, 10), (106, 10), (106, 10), (112, 10)];
    let mut forwarded: Vec<Rat> = Vec::new();
    for (num, den) in inputs {
        let mut batch = DataBatch::new();
        batch.add(telemetry(5, num, den));
        for (_, b) in router.route_batch(1, batch) {
            for p in b.telemetry {
                match p.value {
                    Value::Num(r) => forwarded.push(r),
                    _ => panic!("expected numeric"),
                }
            }
        }
    }
    assert_eq!(
        forwarded,
        vec![
            Rat::from_i64(10),
            Rat::new(53, 5).unwrap(),
            Rat::new(56, 5).unwrap(),
        ]
    );
}

#[test]
fn router_deadband_boundary_is_strict() {
    let mut table = RoutingTable::new();
    table.add(
        PointMapping::same_id(1, 5, 2).with_trigger(TriggerCondition::Deadband {
            deadband: Rat::from_i64(1),
        }),
    );
    let mut router = DataRouter::new(RouterConfig::new(table));

    let mut batch = DataBatch::new();
    batch.add(telemetry(5, 10, 1));
    assert_eq!(router.route_batch(1, batch).len(), 1);

    // a delta of exactly the deadband does not forward
    let mut batch = DataBatch::new();
    batch.add(telemetry(5, 11, 1));
    assert!(router.route_batch(1, batch).is_empty());

    // a delta strictly beyond does
    let mut batch = DataBatch::new();
    batch.add(telemetry(5, 111, 10));
    assert_eq!(router.route_batch(1, batch).len(), 1);
}

#[test]
fn router_threshold_window() {
    let mut table = RoutingTable::new();
    table.add(
        PointMapping::same_id(1, 5, 2).with_trigger(TriggerCondition::Threshold {
            min: Some(Rat::from_i64(0)),
            max: Some(Rat::from_i64(100)),
        }),
    );
    let mut router = DataRouter::new(RouterConfig::new(table));

    let mut batch = DataBatch::new();
    batch.add(telemetry(5, 50, 1));
    assert_eq!(router.route_batch(1, batch).len(), 1);

    let mut batch = DataBatch::new();
    batch.add(telemetry(5, 101, 1));
    assert!(router.route_batch(1, batch).is_empty());

    // non-numeric values always forward
    let mut batch = DataBatch::new();
    batch.add(DataPoint::telemetry(5, Value::Text(String::from("x"))));
    assert_eq!(router.route_batch(1, batch).len(), 1);
}

#[test]
fn router_applies_transforms() {
    let mut table = RoutingTable::new();
    table.add(PointMapping::direct(1, 1, 2, 1).with_transform(TransformConfig::linear(
        Rat::from_i64(2),
        Rat::from_i64(1),
    )));
    let mut router = DataRouter::new(RouterConfig::new(table));

    let mut batch = DataBatch::new();
    batch.add(telemetry(1, 10, 1));
    let out = router.route_batch(1, batch);
    match &out[0].1.telemetry[0].value {
        Value::Num(r) => assert_eq!(*r, Rat::from_i64(21)),
        _ => panic!("expected numeric"),
    }
}

#[test]
fn parse_decimal_is_exact() {
    assert_eq!(parse_decimal("0.1").unwrap(), Rat::new(1, 10).unwrap());
    assert_eq!(parse_decimal("-2.5").unwrap(), Rat::new(-5, 2).unwrap());
    assert_eq!(parse_decimal("42").unwrap(), Rat::from_i64(42));
    assert_eq!(parse_decimal("0.125").unwrap(), Rat::new(1, 8).unwrap());
    assert!(parse_decimal("").is_none());
    assert!(parse_decimal("1.").is_none());
    assert!(parse_decimal("1.2.3").is_none());
    assert!(parse_decimal("abc").is_none());
}

#[test]
fn test_channel_mode_default() {
    let mode = ChannelModeConfig::default();
    assert_eq!(mode, ChannelModeConfig::Polling);
}

#[test]
fn gateway_global_defaults() {
    let g = GatewayGlobalConfig::default();
    assert_eq!(g.name, "IGW");
    assert_eq!(g.default_poll_interval_ms, 1000);
    assert_eq!(g.diagnostics_interval_ms, 5000);
    assert!(!g.jsonl_output);
}

#[test]
fn test_channel_build_result() {
    let result: ChannelBuildResult<()> = ChannelBuildResult::new((), vec![]);
    assert!(!result.has_failures());
    assert_eq!(result.success_count(), 0);
    assert_eq!(result.failure_count(), 0);

    let result: ChannelBuildResult<()> =
        ChannelBuildResult::with_failures((), vec![], vec![(1, String::from("test error"))]);
    assert!(result.has_failures());
    assert_eq!(result.failure_count(), 1);
}

fn channel_config(protocol: &str, params: Vec<(&str, &str)>, points: Vec<PointDef>) -> ChannelConfig {
    ChannelConfig {
        id: 1,
        name: String::from("test channel"),
        protocol: String::from(protocol),
        enabled: true,
        mode: ChannelModeConfig::Polling,
        poll_interval_ms: None,
        parameters: params
            .into_iter()
            .map(|(k, v)| (String::from(k), String::from(v)))
            .collect(),
        points,
    }
}

fn point_def(id: u32, address: &str) -> PointDef {
    PointDef {
        id,
        name: String::from("p"),
        address: String::from(address),
        transform: TransformConfig::default(),
        enabled: true,
    }
}

#[test]
fn factory_builds_modbus_plan() {
    let config = channel_config(
        "modbus",
        vec![("address", "10.0.0.1:502")],
        vec![point_def(1, "1:100"), point_def(2, "bad address")],
    );
    let built = create_channel(&config).unwrap();
    match built.channel {
        ChannelPlan::Modbus(c) => assert_eq!(c.address, "10.0.0.1:502"),
        _ => panic!("expected a Modbus plan"),
    }
    assert_eq!(built.points.len(), 1);
    assert_eq!(built.failed_points.len(), 1);
    assert_eq!(built.failed_points[0].0, 2);
}

#[test]
fn factory_assigns_digital_types_to_gpio_points() {
    let config = channel_config("gpio", vec![], vec![point_def(1, "17"), point_def(2, "chipA:18:out")]);
    let built = create_channel(&config).unwrap();
    assert_eq!(built.points.len(), 2);
    assert_eq!(built.points[0].data_type, igw::data::DataType::Signal);
    assert_eq!(built.points[1].data_type, igw::data::DataType::Control);
}

#[test]
fn factory_requires_modbus_address() {
    let config = channel_config("modbus", vec![], vec![]);
    assert!(matches!(
        create_channel(&config),
        Err(igw::error::GatewayError::Config(_))
    ));
}

#[test]
fn factory_builds_can_and_virtual_plans() {
    let config = channel_config("can", vec![("source_address", "3")], vec![]);
    match create_channel(&config).unwrap().channel {
        ChannelPlan::Can(c) => {
            assert_eq!(c.can_interface, "can0");
            assert_eq!(c.source_address, 3);
        },
        _ => panic!("expected a CAN plan"),
    }

    let config = channel_config("virtual", vec![], vec![point_def(7, "tag7")]);
    match create_channel(&config).unwrap().channel {
        ChannelPlan::Virtual(c) => assert_eq!(c.name, "test channel"),
        _ => panic!("expected a virtual plan"),
    }
}

#[test]
fn factory_rejects_protocols_without_transport() {
    for p in ["iec104", "opcua", "dnp3"] {
        let config = channel_config(p, vec![], vec![]);
        assert!(matches!(
            create_channel(&config),
            Err(igw::error::GatewayError::Config(_))
        ));
    }
}

#[test]
fn virtual_channel_write_then_read() {
    let mut channel = VirtualChannel::new(VirtualChannelConfig::new(String::from("hub")), 1);
    channel.write_point(telemetry(3, 51, 2)).unwrap();

    let response = channel.read(&ReadRequest::all()).unwrap();
    assert_eq!(response.data.len(), 1);
    assert_eq!(response.data.telemetry[0].id, 3);
}

#[test]
fn virtual_channel_always_connected() {
    let channel = VirtualChannel::new(VirtualChannelConfig::new(String::from("t")), 1);
    assert_eq!(channel.connection_state(), ConnectionState::Connected);
}

#[test]
fn virtual_channel_diagnostics_count_writes() {
    let mut channel = VirtualChannel::new(VirtualChannelConfig::new(String::from("d")), 1);
    channel.write_point(telemetry(1, 1, 1)).unwrap();
    channel.write_point(telemetry(2, 2, 1)).unwrap();
    let diag = channel.diagnostics();
    assert_eq!(diag.write_count, 2);
    assert_eq!(diag.protocol, "Virtual");
}

#[test]
fn gpio_channel_lifecycle_and_writes() {
    let config = GpioChannelConfig::new()
        .add_pin(GpioPinConfig::digital_input(String::from("gpiochip0"), 17, 1))
        .add_pin(GpioPinConfig::digital_output(String::from("gpiochip0"), 18, 2));
    let mut gpio = GpioChannel::new(config, 1);

    assert_eq!(gpio.connection_state(), ConnectionState::Disconnected);
    gpio.connect();
    assert_eq!(gpio.connection_state(), ConnectionState::Connected);

    let result = gpio
        .write_control(&vec![ControlCommand::latching(2, true), ControlCommand::latching(9, true)])
        .unwrap();
    assert_eq!(result.success_count, 1);
    assert_eq!(result.failures.len(), 1);
    assert_eq!(gpio.read_output_state(2), Some(true));

    gpio.disconnect();
    assert_eq!(gpio.connection_state(), ConnectionState::Disconnected);
}
