//! Data quality codes, compatible with OPC UA status codes.

use vstd::prelude::*;

verus! {

/// Quality of a data point, independent of its value.
///
/// The variants follow the OPC UA status-code taxonomy: the top two bits of
/// the mapped 32-bit status code carry the severity (`00` good, `01`
/// uncertain, `10`/`11` bad), the next sixteen bits a sub-code.
#[derive(Debug, Clone, Copy, PartialEq, Eq, Structural)]
pub enum Quality {
    /// Value is good and reliable.
    Good,
    /// Value is bad or unreliable.
    Bad,
    /// Value quality is uncertain.
    Uncertain,
    /// Value is invalid (not applicable).
    Invalid,
    /// Communication with the device was lost.
    NotConnected,
    /// Device failure detected.
    DeviceFailure,
    /// Sensor failure detected.
    SensorFailure,
    /// Communication failure.
    CommFailure,
    /// Point is out of service.
    OutOfService,
    /// Value has been manually substituted.
    Substituted,
    /// Value overflowed its range.
    Overflow,
    /// Value underflowed its range.
    Underflow,
    /// Configuration error.
    ConfigError,
    /// Last known value, cached across a lost connection.
    LastKnown,
}

impl Default for Quality {
    /// A fresh point is assumed good until something says otherwise.
    fn default() -> (q: Quality)
        ensures
            q == Quality::Good,
    {
        Quality::Good
    }
}

/// The severity class encoded in the top two bits of an OPC UA status code.
#[derive(Debug, Clone, Copy, PartialEq, Eq, Structural)]
pub enum Severity {
    /// Top bits `00`.
    Good,
    /// Top bits `01`.
    Uncertain,
    /// Top bits `10` or `11`.
    Bad,
}

/// Severity class of an OPC UA status code: its top two bits.
pub open spec fn spec_status_severity(status: u32) -> Severity {
    if status & 0xC000_0000 == 0 {
        Severity::Good
    } else if status & 0xC000_0000 == 0x4000_0000 {
        Severity::Uncertain
    } else {
        Severity::Bad
    }
}

impl Quality {
    /// The severity class this quality belongs to.
    pub open spec fn spec_severity(self) -> Severity {
        match self {
            Quality::Good => Severity::Good,
            Quality::Uncertain => Severity::Uncertain,
            Quality::Substituted => Severity::Uncertain,
            Quality::LastKnown => Severity::Uncertain,
            _ => Severity::Bad,
        }
    }

    /// True only of `Good`.
    pub fn is_good(&self) -> (r: bool)
        ensures
            r == (*self == Quality::Good),
    {
        matches!(self, Quality::Good)
    }

    /// True of every quality but `Good`.
    pub fn is_bad(&self) -> (r: bool)
        ensures
            r == (*self != Quality::Good),
    {
        !self.is_good()
    }

    /// True of the qualities that indicate a connection problem.
    pub fn is_connection_problem(&self) -> (r: bool)
        ensures
            r == (*self == Quality::NotConnected || *self == Quality::CommFailure || *self
                == Quality::LastKnown),
    {
        matches!(self, Quality::NotConnected | Quality::CommFailure | Quality::LastKnown)
    }

    /// True of the qualities that indicate a device problem.
    pub fn is_device_problem(&self) -> (r: bool)
        ensures
            r == (*self == Quality::DeviceFailure || *self == Quality::SensorFailure),
    {
        matches!(self, Quality::DeviceFailure | Quality::SensorFailure)
    }

    /// The OPC UA status code for this quality, as a spec-level table.
    pub open spec fn spec_opc_status(self) -> u32 {
        match self {
            Quality::Good => 0x0000_0000,
            Quality::Bad => 0x8000_0000,
            Quality::Uncertain => 0x4000_0000,
            Quality::Invalid => 0x8001_0000,
            Quality::NotConnected => 0x8008_0000,
            Quality::DeviceFailure => 0x8010_0000,
            Quality::SensorFailure => 0x8011_0000,
            Quality::CommFailure => 0x8013_0000,
            Quality::OutOfService => 0x8087_0000,
            Quality::Substituted => 0x4092_0000,
            Quality::Overflow => 0x8078_0000,
            Quality::Underflow => 0x8078_0000,
            Quality::ConfigError => 0x8089_0000,
            Quality::LastKnown => 0x408F_0000,
        }
    }

    /// Convert to an OPC UA status code.
    pub fn to_opc_status(&self) -> (status: u32)
        ensures
            status == self.spec_opc_status(),
    {
        match self {
            Quality::Good => 0x0000_0000,
            Quality::Bad => 0x8000_0000,
            Quality::Uncertain => 0x4000_0000,
            Quality::Invalid => 0x8001_0000,
            Quality::NotConnected => 0x8008_0000,
            Quality::DeviceFailure => 0x8010_0000,
            Quality::SensorFailure => 0x8011_0000,
            Quality::CommFailure => 0x8013_0000,
            Quality::OutOfService => 0x8087_0000,
            Quality::Substituted => 0x4092_0000,
            Quality::Overflow => 0x8078_0000,
            Quality::Underflow => 0x8078_0000,
            Quality::ConfigError => 0x8089_0000,
            Quality::LastKnown => 0x408F_0000,
        }
    }

    /// Create from an OPC UA status code.
    ///
    /// Unknown sub-codes collapse to the plain quality of their severity
    /// class: `Good`, `Uncertain` or `Bad`.
    pub fn from_opc_status(status: u32) -> (q: Quality)
        ensures
            spec_status_severity(status) == Severity::Good ==> q == Quality::Good,
            spec_status_severity(status) == Severity::Uncertain ==> q == Quality::Uncertain,
            spec_status_severity(status) == Severity::Bad ==> q == Quality::Bad,
    {
        let severity = status & 0xC000_0000;
        if severity == 0x0000_0000 {
            Quality::Good
        } else if severity == 0x4000_0000 {
            Quality::Uncertain
        } else {
            Quality::Bad
        }
    }

    /// A short human-readable description of this quality.
    pub fn description(&self) -> (s: &'static str)
        ensures
            self.is_description(s@),
    {
        match self {
            Quality::Good => "Good",
            Quality::Bad => "Bad",
            Quality::Uncertain => "Uncertain",
            Quality::Invalid => "Invalid",
            Quality::NotConnected => "Not Connected",
            Quality::DeviceFailure => "Device Failure",
            Quality::SensorFailure => "Sensor Failure",
            Quality::CommFailure => "Communication Failure",
            Quality::OutOfService => "Out of Service",
            Quality::Substituted => "Substituted",
            Quality::Overflow => "Overflow",
            Quality::Underflow => "Underflow",
            Quality::ConfigError => "Configuration Error",
            Quality::LastKnown => "Last Known Value",
        }
    }

    /// Whether `s` is the description text of this quality.
    pub open spec fn is_description(self, s: Seq<char>) -> bool {
        match self {
            Quality::Good => s == "Good"@,
            Quality::Bad => s == "Bad"@,
            Quality::Uncertain => s == "Uncertain"@,
            Quality::Invalid => s == "Invalid"@,
            Quality::NotConnected => s == "Not Connected"@,
            Quality::DeviceFailure => s == "Device Failure"@,
            Quality::SensorFailure => s == "Sensor Failure"@,
            Quality::CommFailure => s == "Communication Failure"@,
            Quality::OutOfService => s == "Out of Service"@,
            Quality::Substituted => s == "Substituted"@,
            Quality::Overflow => s == "Overflow"@,
            Quality::Underflow => s == "Underflow"@,
            Quality::ConfigError => s == "Configuration Error"@,
            Quality::LastKnown => s == "Last Known Value"@,
        }
    }
}

/// Mapping a quality to its OPC UA status code and back preserves the
/// severity class: good stays good, uncertain stays uncertain, bad stays bad.
pub proof fn lemma_opc_status_round_trip_severity(q: Quality)
    ensures
        spec_status_severity(q.spec_opc_status()) == q.spec_severity(),
{
    assert((0x0000_0000u32 & 0xC000_0000 == 0x0000_0000) && (0x4000_0000u32 & 0xC000_0000
        == 0x4000_0000) && (0x4092_0000u32 & 0xC000_0000 == 0x4000_0000) && (0x408F_0000u32
        & 0xC000_0000 == 0x4000_0000) && (0x8000_0000u32 & 0xC000_0000 == 0x8000_0000) && (
    0x8001_0000u32 & 0xC000_0000 == 0x8000_0000) && (0x8008_0000u32 & 0xC000_0000 == 0x8000_0000)
        && (0x8010_0000u32 & 0xC000_0000 == 0x8000_0000) && (0x8011_0000u32 & 0xC000_0000
        == 0x8000_0000) && (0x8013_0000u32 & 0xC000_0000 == 0x8000_0000) && (0x8087_0000u32
        & 0xC000_0000 == 0x8000_0000) && (0x8078_0000u32 & 0xC000_0000 == 0x8000_0000) && (
    0x8089_0000u32 & 0xC000_0000 == 0x8000_0000)) by (bit_vector);
}

} // verus!
