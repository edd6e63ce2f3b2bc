//! Tests of the register codec, the Modbus decode pipeline and the J1939
//! engine.

use igw::codec;
use igw::data::{DataType, Value};
use igw::j1939::{
    build_pgn_database, database_stats, decode_spn, get_spn_def, get_spns_for_pgn, parse_can_id,
    J1939Client, J1939Config, SpnDataType, SpnDef,
};
use igw::j1939_table::spn_definitions;
use igw::modbus::{
    decode_plan_response, decode_point_value, plan_requests, rat_from_f32_bits, rat_from_f64_bits,
    ExceptionCode, FunctionCode, ModbusConfigBuilder, ModbusMode, ModbusTcpClient,
};
use igw::point::{PointConfig, ProtocolAddress};
use igw::point::{ByteOrder, DataFormat, ModbusAddress};
use igw::rat::Rat;
use igw::state::{ConnectionState, ReadRequest};

const ORDERS: [ByteOrder; 4] = [ByteOrder::Abcd, ByteOrder::Dcba, ByteOrder::Badc, ByteOrder::Cdab];

#[test]
fn codec_u16_round_trip() {
    for order in ORDERS {
        for v in [0u16, 1, 0x1234, 0xFFFF, 0x8000] {
            let regs = codec::encode_u16(v, order);
            assert_eq!(codec::decode_u16(&regs, 0, order), v);
        }
    }
}

#[test]
fn codec_u32_round_trip() {
    for order in ORDERS {
        for v in [0u32, 1, 0x12345678, 0xFFFF_FFFF, 0x8000_0000] {
            let regs = codec::encode_u32(v, order);
            assert_eq!(codec::decode_u32(&regs, 0, order), v);
        }
    }
}

#[test]
fn codec_u64_round_trip() {
    for order in ORDERS {
        for v in [0u64, 1, 0x0123_4567_89AB_CDEF, u64::MAX] {
            let regs = codec::encode_u64(v, order);
            assert_eq!(codec::decode_u64(&regs, 0, order), v);
        }
    }
}

#[test]
fn codec_float_round_trip() {
    // the codec moves bit patterns; IEEE interpretation happens outside
    for order in ORDERS {
        for v in [0.0f32, 1.5, -25.0, 3.14159, f32::MIN_POSITIVE] {
            let regs = codec::encode_f32_bits(v.to_bits(), order);
            assert_eq!(f32::from_bits(codec::decode_f32_bits(&regs, 0, order)), v);
        }
        for v in [0.0f64, 2.5, -1e9, 0.1] {
            let regs = codec::encode_f64_bits(v.to_bits(), order);
            assert_eq!(f64::from_bits(codec::decode_f64_bits(&regs, 0, order)), v);
        }
    }
}

#[test]
fn codec_known_byte_orders() {
    // value 0x12345678 laid out as [A,B,C,D] = [12,34,56,78]
    let v = 0x12345678u32;
    assert_eq!(codec::encode_u32(v, ByteOrder::Abcd), vec![0x1234, 0x5678]);
    assert_eq!(codec::encode_u32(v, ByteOrder::Dcba), vec![0x7856, 0x3412]);
    assert_eq!(codec::encode_u32(v, ByteOrder::Badc), vec![0x3412, 0x7856]);
    assert_eq!(codec::encode_u32(v, ByteOrder::Cdab), vec![0x5678, 0x1234]);
}

#[test]
fn modbus_f32_abcd_scenario() {
    // registers [0x41C8, 0x0000] as F32 big-endian decode to 25.0
    let addr = ModbusAddress::holding_register(1, 200, DataFormat::Float32);
    let regs = vec![0x41C8u16, 0x0000];
    let value = decode_point_value(&regs, &addr).unwrap();
    match value {
        Value::Num(r) => assert_eq!(r, Rat::from_i64(25)),
        _ => panic!("expected a numeric value"),
    }
}

#[test]
fn modbus_u32_cdab_scenario() {
    // registers [0x5678, 0x1234] under CDAB decode to 0x12345678
    let mut addr = ModbusAddress::holding_register(1, 100, DataFormat::UInt32);
    addr.byte_order = ByteOrder::Cdab;
    let regs = vec![0x5678u16, 0x1234];
    let value = decode_point_value(&regs, &addr).unwrap();
    match value {
        Value::Integer(v) => assert_eq!(v, 305419896),
        _ => panic!("expected an integer value"),
    }
}

#[test]
fn modbus_decode_rejects_short_input() {
    let addr = ModbusAddress::holding_register(1, 0, DataFormat::Float64);
    let regs = vec![0u16, 0];
    assert!(matches!(
        decode_point_value(&regs, &addr),
        Err(igw::error::GatewayError::InvalidData(_))
    ));
}

#[test]
fn modbus_bool_bit_position() {
    let mut addr = ModbusAddress::holding_register(1, 0, DataFormat::Bool);
    addr.bit_position = Some(3);
    let regs = vec![0b0000_1000u16];
    assert!(matches!(decode_point_value(&regs, &addr), Ok(Value::Bool(true))));
    let regs = vec![0b0000_0111u16];
    assert!(matches!(decode_point_value(&regs, &addr), Ok(Value::Bool(false))));
}

#[test]
fn modbus_coil_reads_registers_as_booleans() {
    let addr = ModbusAddress::coil(1, 0);
    assert!(matches!(decode_point_value(&vec![1u16], &addr), Ok(Value::Bool(true))));
    assert!(matches!(decode_point_value(&vec![0u16], &addr), Ok(Value::Bool(false))));
}

#[test]
fn float_bit_patterns_convert_exactly() {
    assert_eq!(rat_from_f32_bits(25.0f32.to_bits()).unwrap(), Rat::from_i64(25));
    assert_eq!(rat_from_f32_bits(0.5f32.to_bits()).unwrap(), Rat::new(1, 2).unwrap());
    assert_eq!(rat_from_f32_bits((-0.125f32).to_bits()).unwrap(), Rat::new(-1, 8).unwrap());
    assert_eq!(rat_from_f32_bits(0.0f32.to_bits()).unwrap(), Rat::from_i64(0));
    assert!(rat_from_f32_bits(f32::INFINITY.to_bits()).is_none());
    assert!(rat_from_f32_bits(f32::NAN.to_bits()).is_none());

    assert_eq!(rat_from_f64_bits(62.5f64.to_bits()).unwrap(), Rat::new(125, 2).unwrap());
    assert_eq!(rat_from_f64_bits((-40.0f64).to_bits()).unwrap(), Rat::from_i64(-40));
    assert!(rat_from_f64_bits(f64::NAN.to_bits()).is_none());
}

#[test]
fn modbus_pipeline_plans_and_decodes() {
    // two contiguous points at one slave coalesce into a single plan
    let p1 = PointConfig::new(
        100,
        igw::data::DataType::Telemetry,
        ProtocolAddress::Modbus(ModbusAddress::holding_register(1, 200, DataFormat::Float32)),
    );
    let p2 = PointConfig::new(
        101,
        igw::data::DataType::Telemetry,
        ProtocolAddress::Modbus(ModbusAddress::holding_register(1, 202, DataFormat::UInt16)),
    );
    let points = vec![p1, p2];
    let plans = plan_requests(&points);
    assert_eq!(plans.len(), 1);
    assert_eq!(plans[0].start, 200);
    assert_eq!(plans[0].count, 3);

    // the device answers with the F32 for 25.0 followed by the word 7
    let regs = vec![0x41C8u16, 0x0000, 0x0007];
    let (decoded, failed) =
        decode_plan_response(&plans[0], &regs, &points, igw::data::DataType::Telemetry);
    assert_eq!(failed, 0);
    assert_eq!(decoded.len(), 2);
    assert_eq!(decoded[0].id, 100);
    match &decoded[0].value {
        Value::Num(r) => assert_eq!(*r, Rat::from_i64(25)),
        _ => panic!("expected a numeric value"),
    }
    assert_eq!(decoded[1].id, 101);
    match &decoded[1].value {
        Value::Num(r) => assert_eq!(*r, Rat::from_i64(7)),
        _ => panic!("expected a numeric value"),
    }
}

#[test]
fn test_function_code() {
    assert!(FunctionCode::ReadHoldingRegisters.is_read());
    assert!(!FunctionCode::ReadHoldingRegisters.is_write());
    assert!(FunctionCode::WriteSingleRegister.is_write());
}

#[test]
fn exception_codes_have_canonical_descriptions() {
    assert_eq!(ExceptionCode::IllegalFunction.description(), "Illegal Function");
    assert_eq!(ExceptionCode::from_u8(2).description(), "Illegal Data Address");
    assert_eq!(
        ExceptionCode::from_u8(11).description(),
        "Gateway Target Device Failed to Respond"
    );
    assert_eq!(ExceptionCode::from_u8(99), ExceptionCode::SlaveDeviceFailure);
}

#[test]
fn test_modbus_config_builder() {
    let config = ModbusConfigBuilder::new()
        .tcp(String::from("192.168.1.1:502"))
        .io_timeout(5000)
        .max_retries(5)
        .build();

    assert_eq!(config.mode, ModbusMode::Tcp);
    assert_eq!(config.address, "192.168.1.1:502");
    assert_eq!(config.max_retries, 5);
}

#[test]
fn test_modbus_client_creation() {
    let client = ModbusTcpClient::new(String::from("127.0.0.1:502")).unwrap();
    assert_eq!(client.name(), "modbus_tcp");
    assert_eq!(client.connection_state(), ConnectionState::Disconnected);
}

#[test]
fn test_modbus_connect_disconnect() {
    let mut client = ModbusTcpClient::new(String::from("127.0.0.1:502")).unwrap();

    client.connect();
    assert_eq!(client.connection_state(), ConnectionState::Connected);

    client.disconnect();
    assert_eq!(client.connection_state(), ConnectionState::Disconnected);
}

#[test]
fn test_read_requires_connection() {
    let mut client = ModbusTcpClient::new(String::from("127.0.0.1:502")).unwrap();
    let result = client.read(&ReadRequest::all());
    assert!(matches!(result, Err(igw::error::GatewayError::NotConnected)));
}

#[test]
fn modbus_client_rejects_rtu_config() {
    let config = ModbusConfigBuilder::new().rtu(String::from("/dev/ttyUSB0")).build();
    assert!(matches!(
        ModbusTcpClient::with_config(config),
        Err(igw::error::GatewayError::Config(_))
    ));
}

#[test]
fn test_parse_can_id() {
    // engine controller frame from source address 0
    let (priority, pgn, _ps, sa) = parse_can_id(0x0CF00400);
    assert_eq!(priority, 3);
    assert_eq!(pgn, 61444);
    assert_eq!(sa, 0x00);

    // engine temperature frame from source address 0
    let (priority, pgn, _ps, sa) = parse_can_id(0x18FEEE00);
    assert_eq!(priority, 6);
    assert_eq!(pgn, 65262);
    assert_eq!(sa, 0x00);
}

fn coolant_temp_def() -> SpnDef {
    SpnDef {
        spn: 110,
        name: String::from("coolant_temp"),
        pgn: 65262,
        start_byte: 0,
        start_bit: 0,
        bit_length: 8,
        scale_num: 1,
        scale_den: 1,
        offset: -40,
        unit: String::from("degC"),
        data_type: SpnDataType::Uint8,
    }
}

#[test]
fn test_decode_spn() {
    // coolant temperature 90 degrees: raw 130, offset -40
    let data = vec![130u8, 0, 0, 0, 0, 0, 0, 0];
    let value = decode_spn(&data, &coolant_temp_def());
    assert_eq!(value, Some(Rat::from_i64(90)));
}

#[test]
fn decode_spn_not_available_sentinels() {
    // raw 255 and 254 are the not-available patterns for an 8-bit field
    let def = coolant_temp_def();
    assert_eq!(decode_spn(&vec![255u8, 0, 0, 0, 0, 0, 0, 0], &def), None);
    assert_eq!(decode_spn(&vec![254u8, 0, 0, 0, 0, 0, 0, 0], &def), None);
    assert!(decode_spn(&vec![253u8, 0, 0, 0, 0, 0, 0, 0], &def).is_some());
}

#[test]
fn decode_spn_zero_frame_gives_offset() {
    let zeros = vec![0u8; 8];
    for def in spn_definitions() {
        if let Some(v) = decode_spn(&zeros, &def) {
            assert_eq!(
                v,
                Rat::from_i64(def.offset as i64),
                "zero frame must decode to the offset"
            );
        }
    }
}

#[test]
fn engine_speed_scenario() {
    // frame for the engine controller group: speed raw 0x01F4 = 500 at
    // byte 3, scaled by 1/8 to 62.5 rpm
    let data = vec![0x00u8, 0x00, 0x00, 0xF4, 0x01, 0x00, 0x00, 0x00];
    // the identifier carries the group and source address
    let mut client = J1939Client::new(J1939Config::default());
    client.connect();
    let batch = client.handle_frame(0x0CF00400, &data).expect("a decoded batch");
    let speed = batch.telemetry.iter().find(|p| p.id == 190).expect("engine speed point");
    assert_eq!(speed.data_type, DataType::Telemetry);
    match &speed.value {
        Value::Num(r) => assert_eq!(*r, Rat::new(125, 2).unwrap()),
        _ => panic!("expected a numeric value"),
    }
}

#[test]
fn coolant_temperature_unavailable_scenario() {
    // temperature group with the first byte at the sentinel: no point 110
    let mut data = vec![0u8; 8];
    data[0] = 0xFF;
    let mut client = J1939Client::new(J1939Config::default());
    client.connect();
    match client.handle_frame(0x18FEEE00, &data) {
        Some(batch) => {
            assert!(batch.telemetry.iter().all(|p| p.id != 110));
        },
        None => {},
    }
}

#[test]
fn frames_from_other_sources_are_ignored() {
    let data = vec![130u8, 0, 0, 0, 0, 0, 0, 0];
    let mut client = J1939Client::new(J1939Config::default());
    client.connect();
    // source address 5 does not match the configured 0
    assert!(client.handle_frame(0x18FEEE05, &data).is_none());
}

#[test]
fn test_config_default() {
    let config = J1939Config::default();
    assert_eq!(config.can_interface, "can0");
    assert_eq!(config.source_address, 0x00);
    assert_eq!(config.our_address, 0xFE);
}

#[test]
fn test_client_creation() {
    let config = J1939Config::default();
    let client = J1939Client::new(config);
    assert_eq!(client.name(), "J1939");
    assert_eq!(
        client.supported_modes(),
        vec![igw::state::CommunicationMode::EventDriven]
    );
}

#[test]
fn test_database_stats() {
    let (pgn_count, spn_count) = database_stats();
    assert!(pgn_count > 10, "Should have at least 10 PGNs");
    assert!(spn_count > 60, "Should have at least 60 SPNs");
}

#[test]
fn test_get_spns_for_pgn() {
    // the first engine controller group has several SPNs
    let spns = get_spns_for_pgn(61444);
    assert!(spns.is_some());
    let spns = spns.unwrap();
    assert!(spns.len() >= 5, "EEC1 should have at least 5 SPNs");

    assert!(spns.iter().any(|s| s.spn == 190), "Should have SPN 190 (engine_speed)");
}

#[test]
fn test_get_spn_def() {
    // engine speed
    let spn = get_spn_def(190);
    assert!(spn.is_some());
    let spn = spn.unwrap();
    assert_eq!(spn.name, "engine_speed");
    assert_eq!(spn.pgn, 61444);
    assert_eq!(spn.scale_num, 1);
    assert_eq!(spn.scale_den, 8);

    // coolant temperature
    let spn = get_spn_def(110);
    assert!(spn.is_some());
    let spn = spn.unwrap();
    assert_eq!(spn.name, "engine_coolant_temperature");
    assert_eq!(spn.offset, -40);
}

#[test]
fn test_spn_uniqueness() {
    let mut seen = std::collections::HashSet::new();
    for spn in spn_definitions() {
        assert!(seen.insert(spn.spn), "Duplicate SPN found: {} ({})", spn.spn, spn.name);
    }
}

#[test]
fn test_all_pgns_present() {
    let pgn_map = build_pgn_database();

    let expected_pgns = [
        61444u32, 61443, 65247, // engine controllers
        65262, 65263, // temperature, fluid pressures
        65270, 65271, // intake, electrical
        65266, 65253, // fuel economy, hours
    ];

    for pgn in expected_pgns {
        assert!(pgn_map.contains_key(&pgn), "Missing PGN: {}", pgn);
    }
}
