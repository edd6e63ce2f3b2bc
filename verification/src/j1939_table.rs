//! The built-in SPN parameter table: the common engine and generator
//! parameter groups of the SAE J1939 standard.
//!
//! Every scale factor in the standard table is an exact binary or decimal
//! fraction, carried here as a numerator and denominator; every offset is
//! an integer. Where the standard lists the same suspect parameter number
//! under two parameter groups, the first listing is kept, so each SPN
//! appears at most once.

use crate::j1939::{SpnDataType, SpnDef};
use vstd::prelude::*;

verus! {

/// Append one definition to the table.
fn push_def(
    defs: &mut Vec<SpnDef>,
    spn: u32,
    name: &str,
    pgn: u32,
    start_byte: u8,
    start_bit: u8,
    bit_length: u8,
    scale_num: u32,
    scale_den: u32,
    offset: i32,
    unit: &str,
    data_type: SpnDataType,
)
    requires
        forall|i: int| 0 <= i < old(defs)@.len() ==> (#[trigger] old(defs)@[i]).wf(),
        1 <= scale_num <= 100000,
        1 <= scale_den <= 100000,
        start_byte <= 7,
        match data_type {
            SpnDataType::Uint8 | SpnDataType::Int8 => 1 <= bit_length <= 8 && start_bit
                + bit_length <= 8,
            SpnDataType::Uint16 | SpnDataType::Int16 => bit_length == 16 && start_bit == 0,
            SpnDataType::Uint32 | SpnDataType::Int32 => bit_length == 32 && start_bit == 0,
        },
    ensures
        final(defs)@.len() == old(defs)@.len() + 1,
        forall|i: int| 0 <= i < final(defs)@.len() ==> (#[trigger] final(defs)@[i]).wf(),
{
    let def = SpnDef {
        spn,
        name: name.to_owned(),
        pgn,
        start_byte,
        start_bit,
        bit_length,
        scale_num,
        scale_den,
        offset,
        unit: unit.to_owned(),
        data_type,
    };
    proof {
        assert(def.wf());
    }
    defs.push(def);
}

/// The full parameter table.
///
/// Covers the electronic engine controllers, temperatures, fluid levels
/// and pressures, fuel economy, hours, shutdown, fuel consumption, vehicle
/// hours, torque/speed control, cruise control and ambient condition
/// groups.
pub fn spn_definitions() -> (defs: Vec<SpnDef>)
    ensures
        forall|i: int| 0 <= i < defs@.len() ==> (#[trigger] defs@[i]).wf(),
        defs@.len() == 86,
{
    let mut d: Vec<SpnDef> = Vec::new();
    let defs = &mut d;
    push_def(defs, 899, "engine_torque_mode", 61444, 0, 0, 4, 1, 1, 0, "", SpnDataType::Uint8);
    push_def(defs, 4154, "actual_engine_retarder_percent", 61444, 1, 0, 8, 1, 1, -125, "%", SpnDataType::Uint8);
    push_def(defs, 512, "drivers_demand_engine_percent", 61444, 1, 0, 8, 1, 1, -125, "%", SpnDataType::Uint8);
    push_def(defs, 513, "actual_engine_percent_torque", 61444, 2, 0, 8, 1, 1, -125, "%", SpnDataType::Uint8);
    push_def(defs, 190, "engine_speed", 61444, 3, 0, 16, 1, 8, 0, "RPM", SpnDataType::Uint16);
    push_def(defs, 1483, "eec1_source_address", 61444, 5, 0, 8, 1, 1, 0, "", SpnDataType::Uint8);
    push_def(defs, 1675, "engine_starter_mode", 61444, 6, 0, 4, 1, 1, 0, "", SpnDataType::Uint8);
    push_def(defs, 2432, "engine_demand_percent_torque", 61444, 7, 0, 8, 1, 1, -125, "%", SpnDataType::Uint8);
    push_def(defs, 558, "accelerator_pedal_1_low_switch", 61443, 0, 0, 2, 1, 1, 0, "", SpnDataType::Uint8);
    push_def(defs, 559, "accelerator_pedal_kickdown", 61443, 0, 2, 2, 1, 1, 0, "", SpnDataType::Uint8);
    push_def(defs, 1437, "road_speed_limit_status", 61443, 0, 4, 2, 1, 1, 0, "", SpnDataType::Uint8);
    push_def(defs, 2970, "accelerator_pedal_2_low_switch", 61443, 0, 6, 2, 1, 1, 0, "", SpnDataType::Uint8);
    push_def(defs, 91, "accelerator_pedal_position_1", 61443, 1, 0, 8, 2, 5, 0, "%", SpnDataType::Uint8);
    push_def(defs, 92, "percent_load_current_speed", 61443, 2, 0, 8, 1, 1, 0, "%", SpnDataType::Uint8);
    push_def(defs, 974, "remote_accelerator_position", 61443, 3, 0, 8, 2, 5, 0, "%", SpnDataType::Uint8);
    push_def(defs, 29, "accelerator_pedal_position_2", 61443, 4, 0, 8, 2, 5, 0, "%", SpnDataType::Uint8);
    push_def(defs, 2979, "vehicle_acceleration_rate_limit", 61443, 5, 0, 8, 1, 1, 0, "", SpnDataType::Uint8);
    push_def(defs, 5021, "momentary_engine_max_power_enable", 61443, 6, 0, 2, 1, 1, 0, "", SpnDataType::Uint8);
    push_def(defs, 514, "nominal_friction_percent_torque", 65247, 0, 0, 8, 1, 1, -125, "%", SpnDataType::Uint8);
    push_def(defs, 515, "engine_desired_operating_speed", 65247, 1, 0, 16, 1, 8, 0, "RPM", SpnDataType::Uint16);
    push_def(defs, 519, "engine_operating_speed_asymmetry_adjust", 65247, 3, 0, 8, 1, 1, 0, "", SpnDataType::Uint8);
    push_def(defs, 2978, "estimated_engine_parasitic_losses", 65247, 4, 0, 8, 1, 1, -125, "%", SpnDataType::Uint8);
    push_def(defs, 6595, "aftertreatment_1_exhaust_gas_mass_flow", 65247, 5, 0, 16, 1, 5, 0, "kg/h", SpnDataType::Uint16);
    push_def(defs, 110, "engine_coolant_temperature", 65262, 0, 0, 8, 1, 1, -40, "°C", SpnDataType::Uint8);
    push_def(defs, 174, "fuel_temperature", 65262, 1, 0, 8, 1, 1, -40, "°C", SpnDataType::Uint8);
    push_def(defs, 175, "engine_oil_temperature_1", 65262, 2, 0, 16, 1, 32, -273, "°C", SpnDataType::Uint16);
    push_def(defs, 176, "turbo_oil_temperature", 65262, 4, 0, 16, 1, 32, -273, "°C", SpnDataType::Uint16);
    push_def(defs, 52, "engine_intercooler_temperature", 65262, 6, 0, 8, 1, 1, -40, "°C", SpnDataType::Uint8);
    push_def(defs, 1134, "engine_intercooler_thermostat_opening", 65262, 7, 0, 8, 2, 5, 0, "%", SpnDataType::Uint8);
    push_def(defs, 94, "fuel_delivery_pressure", 65263, 0, 0, 8, 4, 1, 0, "kPa", SpnDataType::Uint8);
    push_def(defs, 22, "extended_crankcase_blowby_pressure", 65263, 1, 0, 8, 1, 20, 0, "kPa", SpnDataType::Uint8);
    push_def(defs, 98, "engine_oil_level", 65263, 2, 0, 8, 2, 5, 0, "%", SpnDataType::Uint8);
    push_def(defs, 100, "engine_oil_pressure", 65263, 3, 0, 8, 4, 1, 0, "kPa", SpnDataType::Uint8);
    push_def(defs, 101, "crankcase_pressure", 65263, 4, 0, 16, 1, 128, -250, "kPa", SpnDataType::Uint16);
    push_def(defs, 109, "coolant_pressure", 65263, 6, 0, 8, 2, 1, 0, "kPa", SpnDataType::Uint8);
    push_def(defs, 111, "coolant_level", 65263, 7, 0, 8, 2, 5, 0, "%", SpnDataType::Uint8);
    push_def(defs, 81, "particulate_trap_inlet_pressure", 65270, 0, 0, 8, 1, 2, 0, "kPa", SpnDataType::Uint8);
    push_def(defs, 102, "boost_pressure", 65270, 1, 0, 8, 2, 1, 0, "kPa", SpnDataType::Uint8);
    push_def(defs, 105, "intake_manifold_temperature", 65270, 2, 0, 8, 1, 1, -40, "°C", SpnDataType::Uint8);
    push_def(defs, 106, "air_inlet_pressure", 65270, 3, 0, 8, 2, 1, 0, "kPa", SpnDataType::Uint8);
    push_def(defs, 107, "air_filter_differential_pressure", 65270, 4, 0, 8, 1, 20, 0, "kPa", SpnDataType::Uint8);
    push_def(defs, 173, "exhaust_gas_temperature", 65270, 5, 0, 16, 1, 32, -273, "°C", SpnDataType::Uint16);
    push_def(defs, 112, "coolant_filter_differential_pressure", 65270, 7, 0, 8, 1, 2, 0, "kPa", SpnDataType::Uint8);
    push_def(defs, 114, "net_battery_current", 65271, 0, 0, 16, 1, 1, -125, "A", SpnDataType::Int16);
    push_def(defs, 115, "alternator_current", 65271, 2, 0, 16, 1, 1, 0, "A", SpnDataType::Uint16);
    push_def(defs, 168, "battery_potential", 65271, 4, 0, 16, 1, 20, 0, "V", SpnDataType::Uint16);
    push_def(defs, 158, "keyswitch_battery_potential", 65271, 6, 0, 16, 1, 20, 0, "V", SpnDataType::Uint16);
    push_def(defs, 108, "barometric_pressure", 65269, 0, 0, 8, 1, 2, 0, "kPa", SpnDataType::Uint8);
    push_def(defs, 170, "cab_interior_temperature", 65269, 1, 0, 16, 1, 32, -273, "°C", SpnDataType::Uint16);
    push_def(defs, 171, "ambient_air_temperature", 65269, 3, 0, 16, 1, 32, -273, "°C", SpnDataType::Uint16);
    push_def(defs, 172, "air_inlet_temperature", 65269, 5, 0, 8, 1, 1, -40, "°C", SpnDataType::Uint8);
    push_def(defs, 79, "road_surface_temperature", 65269, 6, 0, 16, 1, 32, -273, "°C", SpnDataType::Uint16);
    push_def(defs, 183, "fuel_rate", 65266, 0, 0, 16, 1, 20, 0, "L/h", SpnDataType::Uint16);
    push_def(defs, 184, "instantaneous_fuel_economy", 65266, 2, 0, 16, 1, 512, 0, "km/L", SpnDataType::Uint16);
    push_def(defs, 185, "average_fuel_economy", 65266, 4, 0, 16, 1, 512, 0, "km/L", SpnDataType::Uint16);
    push_def(defs, 51, "throttle_position", 65266, 6, 0, 8, 2, 5, 0, "%", SpnDataType::Uint8);
    push_def(defs, 247, "engine_total_hours_of_operation", 65253, 0, 0, 32, 1, 20, 0, "h", SpnDataType::Uint32);
    push_def(defs, 249, "engine_total_revolutions", 65253, 4, 0, 32, 1000, 1, 0, "r", SpnDataType::Uint32);
    push_def(defs, 1081, "engine_wait_to_start_lamp", 65252, 0, 0, 2, 1, 1, 0, "", SpnDataType::Uint8);
    push_def(defs, 3384, "engine_protection_system_timer_state", 65252, 0, 4, 2, 1, 1, 0, "", SpnDataType::Uint8);
    push_def(defs, 3385, "engine_protection_system_configuration", 65252, 0, 6, 2, 1, 1, 0, "", SpnDataType::Uint8);
    push_def(defs, 182, "engine_trip_fuel", 65257, 0, 0, 32, 1, 2, 0, "L", SpnDataType::Uint32);
    push_def(defs, 250, "engine_total_fuel_used", 65257, 4, 0, 32, 1, 2, 0, "L", SpnDataType::Uint32);
    push_def(defs, 246, "engine_total_idle_hours", 65217, 0, 0, 32, 1, 20, 0, "h", SpnDataType::Uint32);
    push_def(defs, 248, "engine_total_pto_hours", 65217, 4, 0, 32, 1, 20, 0, "h", SpnDataType::Uint32);
    push_def(defs, 898, "engine_override_control_mode", 64966, 0, 0, 2, 1, 1, 0, "", SpnDataType::Uint8);
    push_def(defs, 897, "engine_requested_speed_control_conditions", 64966, 0, 2, 2, 1, 1, 0, "", SpnDataType::Uint8);
    push_def(defs, 518, "engine_requested_speed_speed_limit", 64966, 1, 0, 16, 1, 8, 0, "RPM", SpnDataType::Uint16);
    push_def(defs, 3349, "tsc1_transmission_rate", 64966, 4, 0, 3, 1, 1, 0, "", SpnDataType::Uint8);
    push_def(defs, 3563, "engine_fuel_filter_differential_pressure", 65243, 0, 0, 8, 2, 1, 0, "kPa", SpnDataType::Uint8);
    push_def(defs, 3564, "engine_oil_filter_differential_pressure", 65243, 1, 0, 8, 1, 2, 0, "kPa", SpnDataType::Uint8);
    push_def(defs, 5578, "engine_turbocharger_compressor_inlet_pressure", 65243, 2, 0, 16, 1, 128, 0, "kPa", SpnDataType::Uint16);
    push_def(defs, 441, "auxiliary_temperature_1", 65188, 0, 0, 16, 1, 32, -273, "°C", SpnDataType::Uint16);
    push_def(defs, 442, "auxiliary_temperature_2", 65188, 2, 0, 16, 1, 32, -273, "°C", SpnDataType::Uint16);
    push_def(defs, 1638, "engine_oil_temperature_2", 65189, 0, 0, 16, 1, 32, -273, "°C", SpnDataType::Uint16);
    push_def(defs, 1639, "engine_exhaust_gas_recirculation_1_temperature", 65189, 2, 0, 16, 1, 32, -273, "°C", SpnDataType::Uint16);
    push_def(defs, 3237, "engine_charge_air_cooler_2_outlet_temperature", 65189, 4, 0, 16, 1, 32, -273, "°C", SpnDataType::Uint16);
    push_def(defs, 244, "trip_distance", 65248, 0, 0, 32, 1, 8, 0, "km", SpnDataType::Uint32);
    push_def(defs, 245, "total_vehicle_distance", 65248, 4, 0, 32, 1, 8, 0, "km", SpnDataType::Uint32);
    push_def(defs, 69, "two_speed_axle_switch", 65265, 0, 0, 2, 1, 1, 0, "", SpnDataType::Uint8);
    push_def(defs, 70, "parking_brake_switch", 65265, 0, 2, 2, 1, 1, 0, "", SpnDataType::Uint8);
    push_def(defs, 84, "wheel_based_vehicle_speed", 65265, 1, 0, 16, 1, 256, 0, "km/h", SpnDataType::Uint16);
    push_def(defs, 595, "cruise_control_active", 65265, 3, 0, 2, 1, 1, 0, "", SpnDataType::Uint8);
    push_def(defs, 596, "cruise_control_enable_switch", 65265, 3, 2, 2, 1, 1, 0, "", SpnDataType::Uint8);
    push_def(defs, 86, "cruise_control_set_speed", 65265, 5, 0, 8, 1, 1, 0, "km/h", SpnDataType::Uint8);
    push_def(defs, 976, "pto_state", 65265, 6, 0, 5, 1, 1, 0, "", SpnDataType::Uint8);
    d
}

} // verus!
