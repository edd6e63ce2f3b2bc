//! Tests of the core data model: types, values, quality, errors, state.

use igw::data::{DataBatch, DataPoint, DataType, Value};
use igw::error::GatewayError;
use igw::quality::Quality;
use igw::rat::Rat;
use igw::state::{ChannelEvent, ConnectionState, ControlCommand, ReadRequest, WriteResult};

#[test]
fn test_data_type() {
    assert!(DataType::Telemetry.is_input());
    assert!(DataType::Signal.is_input());
    assert!(DataType::Control.is_output());
    assert!(DataType::Adjustment.is_output());

    assert!(DataType::Telemetry.is_analog());
    assert!(DataType::Signal.is_digital());
}

#[test]
fn test_value_conversions() {
    let v = Value::Num(Rat::new(85, 2).unwrap());
    assert_eq!(v.as_num(), Some(Rat::new(85, 2).unwrap()));
    assert_eq!(v.as_i64(), Some(42));

    let v = Value::Bool(true);
    assert_eq!(v.as_bool(), Some(true));
    assert_eq!(v.as_num(), Some(Rat::from_i64(1)));
}

#[test]
fn test_value_text_and_null() {
    let v = Value::Text(String::from("abc"));
    assert_eq!(v.as_string(), Some("abc"));
    assert!(v.as_num().is_none());
    assert!(Value::Null.is_null());
    assert!(!Value::Bool(false).is_null());
}

#[test]
fn test_data_batch() {
    let mut batch = DataBatch::new();
    batch.add(DataPoint::telemetry(1, Value::Num(Rat::new(51, 2).unwrap())));
    batch.add(DataPoint::signal(2, true));

    assert_eq!(batch.len(), 2);
    assert_eq!(batch.telemetry.len(), 1);
    assert_eq!(batch.signal.len(), 1);
}

#[test]
fn batch_iter_orders_by_type() {
    let mut batch = DataBatch::new();
    batch.add(DataPoint::adjustment(4, Value::Integer(4)));
    batch.add(DataPoint::signal(2, true));
    batch.add(DataPoint::telemetry(1, Value::Integer(1)));
    batch.add(DataPoint::control(3, false));
    batch.add(DataPoint::telemetry(5, Value::Integer(5)));

    let points = batch.iter();
    let ids: Vec<u32> = points.iter().map(|p| p.id).collect();
    // telemetry first in insertion order, then signal, control, adjustment
    assert_eq!(ids, vec![1, 5, 2, 3, 4]);
}

#[test]
fn batch_merge_concatenates_listwise() {
    let mut a = DataBatch::new();
    a.add(DataPoint::telemetry(1, Value::Integer(1)));
    let mut b = DataBatch::new();
    b.add(DataPoint::telemetry(2, Value::Integer(2)));
    b.add(DataPoint::signal(3, false));
    a.merge(b);
    assert_eq!(a.telemetry.len(), 2);
    assert_eq!(a.signal.len(), 1);
    assert_eq!(a.telemetry[0].id, 1);
    assert_eq!(a.telemetry[1].id, 2);
}

#[test]
fn test_quality_default() {
    assert_eq!(Quality::default(), Quality::Good);
}

#[test]
fn test_quality_checks() {
    assert!(Quality::Good.is_good());
    assert!(!Quality::Bad.is_good());
    assert!(Quality::Bad.is_bad());
    assert!(Quality::NotConnected.is_connection_problem());
    assert!(Quality::DeviceFailure.is_device_problem());
}

#[test]
fn test_opc_status_conversion() {
    assert_eq!(Quality::from_opc_status(0x00000000), Quality::Good);
    assert_eq!(Quality::from_opc_status(0x40000000), Quality::Uncertain);
    assert_eq!(Quality::from_opc_status(0x80000000), Quality::Bad);
}

#[test]
fn opc_status_round_trip_preserves_severity() {
    // good stays good, uncertain qualities stay uncertain, bad stay bad
    assert_eq!(Quality::from_opc_status(Quality::Good.to_opc_status()), Quality::Good);
    for q in [Quality::Uncertain, Quality::Substituted, Quality::LastKnown] {
        assert_eq!(Quality::from_opc_status(q.to_opc_status()), Quality::Uncertain);
    }
    for q in [
        Quality::Bad,
        Quality::Invalid,
        Quality::NotConnected,
        Quality::DeviceFailure,
        Quality::SensorFailure,
        Quality::CommFailure,
        Quality::OutOfService,
        Quality::Overflow,
        Quality::Underflow,
        Quality::ConfigError,
    ] {
        assert_eq!(Quality::from_opc_status(q.to_opc_status()), Quality::Bad);
    }
}

#[test]
fn test_needs_reconnect() {
    assert!(GatewayError::NotConnected.needs_reconnect());
    assert!(GatewayError::connection("test").needs_reconnect());
    assert!(!GatewayError::protocol("test").needs_reconnect());
}

#[test]
fn test_is_retryable() {
    assert!(GatewayError::ReadTimeout.is_retryable());
    assert!(GatewayError::WriteTimeout.is_retryable());
    assert!(!GatewayError::NotConnected.is_retryable());
}

#[test]
fn error_constructors_carry_their_variant() {
    assert!(matches!(GatewayError::io("x"), GatewayError::Io(_)));
    assert!(matches!(GatewayError::config("x"), GatewayError::Config(_)));
    assert!(matches!(GatewayError::invalid_data("x"), GatewayError::InvalidData(_)));
    assert!(matches!(GatewayError::modbus("x"), GatewayError::Modbus(_)));
    assert!(matches!(GatewayError::internal("x"), GatewayError::Internal(_)));
}

#[test]
fn test_connection_state() {
    assert!(!ConnectionState::Disconnected.is_connected());
    assert!(ConnectionState::Connected.is_connected());
    assert!(ConnectionState::Disconnected.can_retry());
    assert!(!ConnectionState::Connecting.can_retry());
}

#[test]
fn connection_state_steps_follow_the_diagram() {
    let s = ConnectionState::Disconnected;
    let s = s.step(ChannelEvent::ConnectRequested);
    assert_eq!(s, ConnectionState::Connecting);
    let s = s.step(ChannelEvent::Established);
    assert_eq!(s, ConnectionState::Connected);
    let s = s.step(ChannelEvent::IoError);
    assert_eq!(s, ConnectionState::Reconnecting);
    let s = s.step(ChannelEvent::ConnectRequested);
    assert_eq!(s, ConnectionState::Connecting);
    let s = s.step(ChannelEvent::ConnectFailed);
    assert_eq!(s, ConnectionState::Error);
    let s = s.step(ChannelEvent::ConnectRequested);
    assert_eq!(s, ConnectionState::Connecting);
    let s = s.step(ChannelEvent::Established);
    let s = s.step(ChannelEvent::DisconnectRequested);
    assert_eq!(s, ConnectionState::Disconnected);
}

#[test]
fn test_read_request() {
    let req = ReadRequest::telemetry();
    assert_eq!(req.data_type, Some(DataType::Telemetry));
    assert!(req.point_ids.is_none());
}

#[test]
fn test_control_command() {
    let cmd = ControlCommand::latching(1, true);
    assert!(cmd.pulse_duration_ms.is_none());

    let cmd = ControlCommand::pulse(1, true, 500);
    assert_eq!(cmd.pulse_duration_ms, Some(500));
}

#[test]
fn write_result_success_reports_no_failures() {
    let w = WriteResult::success(3);
    assert_eq!(w.success_count, 3);
    assert!(w.is_success());
}

#[test]
fn rational_arithmetic_is_exact() {
    let a = Rat::new(1, 3).unwrap();
    let b = Rat::new(1, 6).unwrap();
    let sum = a.checked_add(b).unwrap();
    assert_eq!(sum, Rat::new(1, 2).unwrap());
    let prod = a.checked_mul(b).unwrap();
    assert_eq!(prod, Rat::new(1, 18).unwrap());
    let quot = a.checked_div(b).unwrap();
    assert_eq!(quot, Rat::from_i64(2));
    let diff = a.checked_sub(b).unwrap();
    assert_eq!(diff, Rat::new(1, 6).unwrap());
    assert!(Rat::new(1, 0).is_none());
    assert_eq!(Rat::new(-10, 4).unwrap(), Rat::new(-5, 2).unwrap());
}

#[test]
fn rational_truncation_rounds_toward_zero() {
    assert_eq!(Rat::new(7, 2).unwrap().trunc(), 3);
    assert_eq!(Rat::new(-7, 2).unwrap().trunc(), -3);
    assert_eq!(Rat::from_i64(-9).trunc(), -9);
}
