//! Modbus: function and exception codes, client configuration, and the
//! register decode pipeline that turns batched register reads into typed
//! values.

use crate::codec;
use crate::data::{DataPoint, DataType, Value};
use crate::error::GatewayError;
use crate::point::{ByteOrder, DataFormat, ModbusAddress, PointConfig, ProtocolAddress};
use crate::rat::{fr, fr_eq, Fr, Rat};
use crate::state::{ChannelEvent, CommunicationMode, ConnectionState, Diagnostics};
use crate::state::{AdjustmentCommand, ControlCommand, ReadRequest, ReadResponse, WriteResult};
use vstd::arithmetic::power2::pow2;
use vstd::prelude::*;

verus! {

/// Modbus connection type.
#[derive(Debug, Clone, Copy, PartialEq, Eq, Structural)]
pub enum ModbusMode {
    /// Modbus TCP over a network socket.
    Tcp,
    /// Modbus RTU over a serial line.
    Rtu,
}

/// Modbus client configuration. All timeouts are in milliseconds.
#[derive(Debug, Clone)]
pub struct ModbusConfig {
    /// Connection mode.
    pub mode: ModbusMode,
    /// Target address: `host:port` for TCP, a device path for RTU.
    pub address: String,
    /// Connection timeout in milliseconds.
    pub connect_timeout_ms: u64,
    /// Read and write timeout in milliseconds.
    pub io_timeout_ms: u64,
    /// Maximum retries on error.
    pub max_retries: u32,
    /// Delay between retries in milliseconds.
    pub retry_delay_ms: u64,
    /// Serial baud rate, for RTU.
    pub baud_rate: Option<u32>,
    /// Serial data bits, for RTU.
    pub data_bits: Option<u8>,
    /// Serial parity (N, E or O), for RTU.
    pub parity: Option<char>,
    /// Serial stop bits, for RTU.
    pub stop_bits: Option<u8>,
    /// Point configurations.
    pub points: Vec<PointConfig>,
}

impl ModbusConfig {
    /// Well-formedness of every point's transform.
    pub open spec fn wf(self) -> bool {
        forall|i: int| 0 <= i < self.points@.len() ==> (#[trigger] self.points@[i]).wf()
    }
}

impl Default for ModbusConfig {
    /// TCP to localhost with five-second connect and three-second I/O
    /// timeouts, three retries half a second apart.
    fn default() -> (c: ModbusConfig)
        ensures
            c.mode == ModbusMode::Tcp,
            c.address@ == "127.0.0.1:502"@,
            c.connect_timeout_ms == 5000,
            c.io_timeout_ms == 3000,
            c.max_retries == 3,
            c.retry_delay_ms == 500,
            c.baud_rate is None,
            c.data_bits is None,
            c.parity is None,
            c.stop_bits is None,
            c.points@.len() == 0,
            c.wf(),
    {
        ModbusConfig {
            mode: ModbusMode::Tcp,
            address: String::from_str("127.0.0.1:502"),
            connect_timeout_ms: 5000,
            io_timeout_ms: 3000,
            max_retries: 3,
            retry_delay_ms: 500,
            baud_rate: None,
            data_bits: None,
            parity: None,
            stop_bits: None,
            points: Vec::new(),
        }
    }
}

/// Builder for [`ModbusConfig`].
#[derive(Debug)]
pub struct ModbusConfigBuilder {
    /// The configuration being built.
    config: ModbusConfig,
}

impl ModbusConfigBuilder {
    /// The configuration built so far.
    pub closed spec fn spec_config(self) -> ModbusConfig {
        self.config
    }

    /// Start from the default configuration.
    pub fn new() -> (b: ModbusConfigBuilder)
        ensures
            b.spec_config().mode == ModbusMode::Tcp,
            b.spec_config().address@ == "127.0.0.1:502"@,
            b.spec_config().connect_timeout_ms == 5000,
            b.spec_config().io_timeout_ms == 3000,
            b.spec_config().max_retries == 3,
            b.spec_config().retry_delay_ms == 500,
            b.spec_config().points@.len() == 0,
            b.spec_config().wf(),
    {
        ModbusConfigBuilder { config: ModbusConfig::default() }
    }

    /// Select TCP mode with a target address.
    pub fn tcp(self, address: String) -> (b: ModbusConfigBuilder)
        ensures
            b.spec_config() == (ModbusConfig {
                mode: ModbusMode::Tcp,
                address,
                ..self.spec_config()
            }),
    {
        let ModbusConfigBuilder { mut config } = self;
        config.mode = ModbusMode::Tcp;
        config.address = address;
        ModbusConfigBuilder { config }
    }

    /// Select RTU mode with a device path.
    pub fn rtu(self, device: String) -> (b: ModbusConfigBuilder)
        ensures
            b.spec_config() == (ModbusConfig {
                mode: ModbusMode::Rtu,
                address: device,
                ..self.spec_config()
            }),
    {
        let ModbusConfigBuilder { mut config } = self;
        config.mode = ModbusMode::Rtu;
        config.address = device;
        ModbusConfigBuilder { config }
    }

    /// Set the connection timeout in milliseconds.
    pub fn connect_timeout(self, timeout_ms: u64) -> (b: ModbusConfigBuilder)
        ensures
            b.spec_config() == (ModbusConfig {
                connect_timeout_ms: timeout_ms,
                ..self.spec_config()
            }),
    {
        let ModbusConfigBuilder { mut config } = self;
        config.connect_timeout_ms = timeout_ms;
        ModbusConfigBuilder { config }
    }

    /// Set the I/O timeout in milliseconds.
    pub fn io_timeout(self, timeout_ms: u64) -> (b: ModbusConfigBuilder)
        ensures
            b.spec_config() == (ModbusConfig { io_timeout_ms: timeout_ms, ..self.spec_config() }),
    {
        let ModbusConfigBuilder { mut config } = self;
        config.io_timeout_ms = timeout_ms;
        ModbusConfigBuilder { config }
    }

    /// Set the maximum retries.
    pub fn max_retries(self, retries: u32) -> (b: ModbusConfigBuilder)
        ensures
            b.spec_config() == (ModbusConfig { max_retries: retries, ..self.spec_config() }),
    {
        let ModbusConfigBuilder { mut config } = self;
        config.max_retries = retries;
        ModbusConfigBuilder { config }
    }

    /// Set the serial baud rate.
    pub fn baud_rate(self, rate: u32) -> (b: ModbusConfigBuilder)
        ensures
            b.spec_config() == (ModbusConfig { baud_rate: Some(rate), ..self.spec_config() }),
    {
        let ModbusConfigBuilder { mut config } = self;
        config.baud_rate = Some(rate);
        ModbusConfigBuilder { config }
    }

    /// Set the serial parity.
    pub fn parity(self, parity: char) -> (b: ModbusConfigBuilder)
        ensures
            b.spec_config() == (ModbusConfig { parity: Some(parity), ..self.spec_config() }),
    {
        let ModbusConfigBuilder { mut config } = self;
        config.parity = Some(parity);
        ModbusConfigBuilder { config }
    }

    /// Add a point configuration.
    pub fn add_point(self, point: PointConfig) -> (b: ModbusConfigBuilder)
        ensures
            b.spec_config().points@ == self.spec_config().points@.push(point),
            b.spec_config() == (ModbusConfig {
                points: b.spec_config().points,
                ..self.spec_config()
            }),
    {
        let ModbusConfigBuilder { mut config } = self;
        config.points.push(point);
        ModbusConfigBuilder { config }
    }

    /// Replace all points.
    pub fn points(self, points: Vec<PointConfig>) -> (b: ModbusConfigBuilder)
        ensures
            b.spec_config() == (ModbusConfig { points, ..self.spec_config() }),
    {
        let ModbusConfigBuilder { mut config } = self;
        config.points = points;
        ModbusConfigBuilder { config }
    }

    /// Build the configuration.
    pub fn build(self) -> (c: ModbusConfig)
        ensures
            c == self.spec_config(),
    {
        let ModbusConfigBuilder { config } = self;
        config
    }
}

/// Modbus function codes.
#[derive(Debug, Clone, Copy, PartialEq, Eq, Structural)]
pub enum FunctionCode {
    /// Read coils (function 1).
    ReadCoils,
    /// Read discrete inputs (function 2).
    ReadDiscreteInputs,
    /// Read holding registers (function 3).
    ReadHoldingRegisters,
    /// Read input registers (function 4).
    ReadInputRegisters,
    /// Write a single coil (function 5).
    WriteSingleCoil,
    /// Write a single register (function 6).
    WriteSingleRegister,
    /// Write multiple coils (function 15).
    WriteMultipleCoils,
    /// Write multiple registers (function 16).
    WriteMultipleRegisters,
}

impl FunctionCode {
    /// The wire value of the function code.
    pub open spec fn spec_code(self) -> u8 {
        match self {
            FunctionCode::ReadCoils => 1,
            FunctionCode::ReadDiscreteInputs => 2,
            FunctionCode::ReadHoldingRegisters => 3,
            FunctionCode::ReadInputRegisters => 4,
            FunctionCode::WriteSingleCoil => 5,
            FunctionCode::WriteSingleRegister => 6,
            FunctionCode::WriteMultipleCoils => 15,
            FunctionCode::WriteMultipleRegisters => 16,
        }
    }

    /// Check whether this is a read function.
    pub fn is_read(&self) -> (r: bool)
        ensures
            r == (*self == FunctionCode::ReadCoils || *self == FunctionCode::ReadDiscreteInputs
                || *self == FunctionCode::ReadHoldingRegisters || *self
                == FunctionCode::ReadInputRegisters),
    {
        matches!(
            self,
            FunctionCode::ReadCoils
                | FunctionCode::ReadDiscreteInputs
                | FunctionCode::ReadHoldingRegisters
                | FunctionCode::ReadInputRegisters
        )
    }

    /// Check whether this is a write function.
    pub fn is_write(&self) -> (r: bool)
        ensures
            r == (*self == FunctionCode::WriteSingleCoil || *self
                == FunctionCode::WriteSingleRegister || *self == FunctionCode::WriteMultipleCoils
                || *self == FunctionCode::WriteMultipleRegisters),
    {
        matches!(
            self,
            FunctionCode::WriteSingleCoil
                | FunctionCode::WriteSingleRegister
                | FunctionCode::WriteMultipleCoils
                | FunctionCode::WriteMultipleRegisters
        )
    }

    /// The function code for a wire value; unknown values fall back to
    /// reading holding registers.
    pub fn from_u8(value: u8) -> (r: FunctionCode)
        ensures
            value == 1 ==> r == FunctionCode::ReadCoils,
            value == 2 ==> r == FunctionCode::ReadDiscreteInputs,
            value == 3 ==> r == FunctionCode::ReadHoldingRegisters,
            value == 4 ==> r == FunctionCode::ReadInputRegisters,
            value == 5 ==> r == FunctionCode::WriteSingleCoil,
            value == 6 ==> r == FunctionCode::WriteSingleRegister,
            value == 15 ==> r == FunctionCode::WriteMultipleCoils,
            value == 16 ==> r == FunctionCode::WriteMultipleRegisters,
            !(value == 1 || value == 2 || value == 3 || value == 4 || value == 5 || value == 6
                || value == 15 || value == 16) ==> r == FunctionCode::ReadHoldingRegisters,
            r.spec_code() == value || r == FunctionCode::ReadHoldingRegisters,
    {
        match value {
            1 => FunctionCode::ReadCoils,
            2 => FunctionCode::ReadDiscreteInputs,
            3 => FunctionCode::ReadHoldingRegisters,
            4 => FunctionCode::ReadInputRegisters,
            5 => FunctionCode::WriteSingleCoil,
            6 => FunctionCode::WriteSingleRegister,
            15 => FunctionCode::WriteMultipleCoils,
            16 => FunctionCode::WriteMultipleRegisters,
            _ => FunctionCode::ReadHoldingRegisters,
        }
    }
}

/// Modbus exception codes.
#[derive(Debug, Clone, Copy, PartialEq, Eq, Structural)]
pub enum ExceptionCode {
    /// Illegal function (1).
    IllegalFunction,
    /// Illegal data address (2).
    IllegalDataAddress,
    /// Illegal data value (3).
    IllegalDataValue,
    /// Slave device failure (4).
    SlaveDeviceFailure,
    /// Acknowledge (5).
    Acknowledge,
    /// Slave device busy (6).
    SlaveDeviceBusy,
    /// Memory parity error (8).
    MemoryParityError,
    /// Gateway path unavailable (10).
    GatewayPathUnavailable,
    /// Gateway target device failed to respond (11).
    GatewayTargetDeviceFailed,
}

impl ExceptionCode {
    /// The canonical description of the exception.
    pub fn description(&self) -> (s: &'static str)
        ensures
            *self == ExceptionCode::IllegalFunction ==> s@ == "Illegal Function"@,
            *self == ExceptionCode::IllegalDataAddress ==> s@ == "Illegal Data Address"@,
            *self == ExceptionCode::IllegalDataValue ==> s@ == "Illegal Data Value"@,
            *self == ExceptionCode::SlaveDeviceFailure ==> s@ == "Slave Device Failure"@,
            *self == ExceptionCode::Acknowledge ==> s@ == "Acknowledge"@,
            *self == ExceptionCode::SlaveDeviceBusy ==> s@ == "Slave Device Busy"@,
            *self == ExceptionCode::MemoryParityError ==> s@ == "Memory Parity Error"@,
            *self == ExceptionCode::GatewayPathUnavailable ==> s@ == "Gateway Path Unavailable"@,
            *self == ExceptionCode::GatewayTargetDeviceFailed ==> s@
                == "Gateway Target Device Failed to Respond"@,
    {
        match self {
            ExceptionCode::IllegalFunction => "Illegal Function",
            ExceptionCode::IllegalDataAddress => "Illegal Data Address",
            ExceptionCode::IllegalDataValue => "Illegal Data Value",
            ExceptionCode::SlaveDeviceFailure => "Slave Device Failure",
            ExceptionCode::Acknowledge => "Acknowledge",
            ExceptionCode::SlaveDeviceBusy => "Slave Device Busy",
            ExceptionCode::MemoryParityError => "Memory Parity Error",
            ExceptionCode::GatewayPathUnavailable => "Gateway Path Unavailable",
            ExceptionCode::GatewayTargetDeviceFailed => "Gateway Target Device Failed to Respond",
        }
    }

    /// The exception for a wire value; unknown values fall back to slave
    /// device failure.
    pub fn from_u8(value: u8) -> (r: ExceptionCode)
        ensures
            value == 1 ==> r == ExceptionCode::IllegalFunction,
            value == 2 ==> r == ExceptionCode::IllegalDataAddress,
            value == 3 ==> r == ExceptionCode::IllegalDataValue,
            value == 4 ==> r == ExceptionCode::SlaveDeviceFailure,
            value == 5 ==> r == ExceptionCode::Acknowledge,
            value == 6 ==> r == ExceptionCode::SlaveDeviceBusy,
            value == 8 ==> r == ExceptionCode::MemoryParityError,
            value == 10 ==> r == ExceptionCode::GatewayPathUnavailable,
            value == 11 ==> r == ExceptionCode::GatewayTargetDeviceFailed,
            !(value == 1 || value == 2 || value == 3 || value == 4 || value == 5 || value == 6
                || value == 8 || value == 10 || value == 11) ==> r
                == ExceptionCode::SlaveDeviceFailure,
    {
        match value {
            1 => ExceptionCode::IllegalFunction,
            2 => ExceptionCode::IllegalDataAddress,
            3 => ExceptionCode::IllegalDataValue,
            4 => ExceptionCode::SlaveDeviceFailure,
            5 => ExceptionCode::Acknowledge,
            6 => ExceptionCode::SlaveDeviceBusy,
            8 => ExceptionCode::MemoryParityError,
            10 => ExceptionCode::GatewayPathUnavailable,
            11 => ExceptionCode::GatewayTargetDeviceFailed,
            _ => ExceptionCode::SlaveDeviceFailure,
        }
    }
}

/// The exact fraction an IEEE-754 single bit pattern denotes, or nothing
/// for infinities and NaNs.
pub open spec fn f32_fr(bits: u32) -> Option<Fr> {
    let s = bits as int / 0x8000_0000;
    let e = (bits as int / 0x80_0000) % 0x100;
    let m = bits as int % 0x80_0000;
    if e == 255 {
        None
    } else {
        let mant = if e == 0 {
            m
        } else {
            m + 0x80_0000
        };
        let exp = if e == 0 {
            -149
        } else {
            e - 150
        };
        let signed = if s == 1 {
            -mant
        } else {
            mant
        };
        if exp >= 0 {
            Some(Fr { n: signed * pow2(exp as nat), d: 1 })
        } else {
            Some(Fr { n: signed, d: pow2((-exp) as nat) as int })
        }
    }
}

/// The exact fraction an IEEE-754 double bit pattern denotes, or nothing
/// for infinities and NaNs.
pub open spec fn f64_fr(bits: u64) -> Option<Fr> {
    let s = bits as int / 0x8000_0000_0000_0000;
    let e = (bits as int / 0x10_0000_0000_0000) % 0x800;
    let m = bits as int % 0x10_0000_0000_0000;
    if e == 2047 {
        None
    } else {
        let mant = if e == 0 {
            m
        } else {
            m + 0x10_0000_0000_0000
        };
        let exp = if e == 0 {
            -1074
        } else {
            e - 1075
        };
        let signed = if s == 1 {
            -mant
        } else {
            mant
        };
        if exp >= 0 {
            Some(Fr { n: signed * pow2(exp as nat), d: 1 })
        } else {
            Some(Fr { n: signed, d: pow2((-exp) as nat) as int })
        }
    }
}

/// Whether a single's bit pattern has an exact stored value: zero, or a
/// normal number whose unreduced exponent lies between -62 and 38.
pub open spec fn f32_convertible(bits: u32) -> bool {
    let e = (bits as int / 0x80_0000) % 0x100;
    let m = bits as int % 0x80_0000;
    ||| (e == 0 && m == 0)
    ||| (1 <= e < 255 && (e < 150 ==> 150 - e <= 62) && (e >= 150 ==> e - 150 <= 38))
}

/// Convert an IEEE-754 single bit pattern to an exact rational.
///
/// Returns the exact value precisely for the convertible patterns:
/// subnormals, infinities, NaNs and patterns outside the stored exponent
/// range yield nothing.
pub fn rat_from_f32_bits(bits: u32) -> (r: Option<Rat>)
    ensures
        r matches Some(v) ==> v.wf() && (f32_fr(bits) matches Some(x) && fr_eq(fr(v), x)),
        r is Some <==> f32_convertible(bits),
{
    let e: u32 = (bits / 0x80_0000) % 0x100;
    let m: u32 = bits % 0x80_0000;
    let neg: bool = bits / 0x8000_0000 == 1;
    if e == 255 {
        return None;
    }
    if e == 0 && m == 0 {
        let z = Rat::zero();
        proof {
            assert(f32_fr(bits) matches Some(x) && x.n == 0);
        }
        return Some(z);
    }
    if e == 0 {
        // subnormal: magnitude below any representable denominator
        return None;
    }
    let mant: u64 = (m + 0x80_0000) as u64;
    // exponent value: e - 150
    if e >= 150 {
        let k: u32 = e - 150;
        if k > 38 {
            return None;
        }
        let p = pow2_u64_local(k as u8);
        proof {
            vstd::arithmetic::power2::lemma2_to64();
            vstd::arithmetic::power2::lemma2_to64_rest();
            if (k as nat) < 38 {
                vstd::arithmetic::power2::lemma_pow2_strictly_increases(k as nat, 38);
            }
            lemma_f32_scale_bounds(mant as int, p as int, k as int);
        }
        let num_mag: u64 = mant * p;
        proof {
            assert((-(mant as int)) * (p as int) == -((mant as int) * (p as int)))
                by (nonlinear_arith);
        }
        let num: i64 = if neg {
            -(num_mag as i64)
        } else {
            num_mag as i64
        };
        proof {
            crate::rat::lemma_norm_bounds(num as int, 1);
        }
        match Rat::new(num, 1) {
            Some(v) => Some(v),
            None => None,
        }
    } else {
        let k: u32 = 150 - e;
        if k > 62 {
            return None;
        }
        let p = pow2_u64_local(k as u8);
        proof {
            vstd::arithmetic::power2::lemma2_to64();
            vstd::arithmetic::power2::lemma2_to64_rest();
            if (k as nat) < 62 {
                vstd::arithmetic::power2::lemma_pow2_strictly_increases(k as nat, 62);
            }
        }
        let num: i64 = if neg {
            -(mant as i64)
        } else {
            mant as i64
        };
        proof {
            crate::rat::lemma_norm_bounds(num as int, p as int);
        }
        match Rat::new(num, p as i64) {
            Some(v) => Some(v),
            None => None,
        }
    }
}

/// Whether a double's bit pattern has an exact stored value: zero, or a
/// normal number whose unreduced exponent lies between -62 and 9.
pub open spec fn f64_convertible(bits: u64) -> bool {
    let e = (bits as int / 0x10_0000_0000_0000) % 0x800;
    let m = bits as int % 0x10_0000_0000_0000;
    ||| (e == 0 && m == 0)
    ||| (1 <= e < 2047 && (e < 1075 ==> 1075 - e <= 62) && (e >= 1075 ==> e - 1075 <= 9))
}

/// Convert an IEEE-754 double bit pattern to an exact rational.
///
/// Returns the exact value precisely for the convertible patterns:
/// subnormals, infinities, NaNs and patterns outside the stored exponent
/// range yield nothing.
pub fn rat_from_f64_bits(bits: u64) -> (r: Option<Rat>)
    ensures
        r matches Some(v) ==> v.wf() && (f64_fr(bits) matches Some(x) && fr_eq(fr(v), x)),
        r is Some <==> f64_convertible(bits),
{
    let e: u64 = (bits / 0x10_0000_0000_0000) % 0x800;
    let m: u64 = bits % 0x10_0000_0000_0000;
    let neg: bool = bits / 0x8000_0000_0000_0000 == 1;
    if e == 2047 {
        return None;
    }
    if e == 0 && m == 0 {
        let z = Rat::zero();
        proof {
            assert(f64_fr(bits) matches Some(x) && x.n == 0);
        }
        return Some(z);
    }
    if e == 0 {
        return None;
    }
    let mant: u64 = m + 0x10_0000_0000_0000;
    if e >= 1075 {
        let k: u64 = e - 1075;
        if k > 9 {
            return None;
        }
        let p = pow2_u64_local(k as u8);
        proof {
            vstd::arithmetic::power2::lemma2_to64();
            if (k as nat) < 9 {
                vstd::arithmetic::power2::lemma_pow2_strictly_increases(k as nat, 9);
            }
            lemma_f64_scale_bounds(mant as int, p as int, k as int);
        }
        let num_mag: u64 = mant * p;
        proof {
            assert((-(mant as int)) * (p as int) == -((mant as int) * (p as int)))
                by (nonlinear_arith);
        }
        let num: i64 = if neg {
            -(num_mag as i64)
        } else {
            num_mag as i64
        };
        proof {
            crate::rat::lemma_norm_bounds(num as int, 1);
        }
        match Rat::new(num, 1) {
            Some(v) => Some(v),
            None => None,
        }
    } else {
        let k: u64 = 1075 - e;
        if k > 62 {
            return None;
        }
        let p = pow2_u64_local(k as u8);
        proof {
            vstd::arithmetic::power2::lemma2_to64();
            vstd::arithmetic::power2::lemma2_to64_rest();
            if (k as nat) < 62 {
                vstd::arithmetic::power2::lemma_pow2_strictly_increases(k as nat, 62);
            }
        }
        let num: i64 = if neg {
            -(mant as i64)
        } else {
            mant as i64
        };
        proof {
            crate::rat::lemma_norm_bounds(num as int, p as int);
        }
        match Rat::new(num, p as i64) {
            Some(v) => Some(v),
            None => None,
        }
    }
}

/// Two raised to `k`, as a machine word.
fn pow2_u64_local(k: u8) -> (p: u64)
    requires
        k <= 63,
    ensures
        p == pow2(k as nat),
        p >= 1,
{
    let mut p: u64 = 1;
    let mut i: u8 = 0;
    proof {
        vstd::arithmetic::power2::lemma2_to64();
    }
    while i < k
        invariant
            i <= k <= 63,
            p == pow2(i as nat),
            p >= 1,
            p <= 0x8000_0000_0000_0000u64,
        decreases k - i,
    {
        proof {
            vstd::arithmetic::power2::lemma_pow2_strictly_increases(i as nat, 63);
            vstd::arithmetic::power2::lemma2_to64_rest();
            vstd::arithmetic::power2::lemma_pow2_adds(i as nat, 1);
            vstd::arithmetic::power2::lemma2_to64();
        }
        p = p * 2;
        i += 1;
    }
    p
}

/// A single mantissa scaled by up to `2^38` stays inside the word.
proof fn lemma_f32_scale_bounds(mant: int, p: int, k: int)
    by (nonlinear_arith)
    requires
        0 <= mant < 0x100_0000,
        0 <= k <= 38,
        1 <= p,
        p == pow2(k as nat),
        p <= 0x40_0000_0000,
    ensures
        mant * p < 0x4000_0000_0000_0000,
        mant * p >= 0,
{
}

/// A double mantissa scaled by up to `2^9` stays inside the word.
proof fn lemma_f64_scale_bounds(mant: int, p: int, k: int)
    by (nonlinear_arith)
    requires
        0 <= mant < 0x20_0000_0000_0000,
        0 <= k <= 9,
        1 <= p,
        p == pow2(k as nat),
        p <= 0x200,
    ensures
        mant * p < 0x4000_0000_0000_0000,
        mant * p >= 0,
{
}

/// The exact decode relation of one point's registers under its address.
///
/// Coil and discrete-input function codes read the first register as a
/// boolean. The `Bool` format reads the addressed bit of the first
/// register, or whether it is nonzero. Integer formats read the arranged
/// bytes big-endian, sign-extending the signed variants. Float formats
/// read the arranged bit pattern and take its exact rational value. The
/// text format yields the sixteen register bytes in word order.
pub open spec fn decoded_ok(regs: Seq<u16>, addr: ModbusAddress, v: Value) -> bool {
    if addr.function_code == 1 || addr.function_code == 2 {
        v == Value::Bool(regs[0] != 0)
    } else {
        match addr.format {
            DataFormat::Bool => match addr.bit_position {
                Some(b) => v == Value::Bool(
                    (regs[0] as int / pow2(b as nat) as int) % 2 == 1,
                ),
                None => v == Value::Bool(regs[0] != 0),
            },
            DataFormat::UInt16 => v matches Value::Integer(x) && x as int == codec::be_value(
                codec::spec_arranged_bytes(regs.subrange(0, 1), addr.byte_order),
            ),
            DataFormat::Int16 => v matches Value::Integer(x) && x as int == codec::as_signed16(
                codec::be_value(codec::spec_arranged_bytes(regs.subrange(0, 1), addr.byte_order)),
            ),
            DataFormat::UInt32 => v matches Value::Integer(x) && x as int == codec::be_value(
                codec::spec_arranged_bytes(regs.subrange(0, 2), addr.byte_order),
            ),
            DataFormat::Int32 => v matches Value::Integer(x) && x as int == codec::as_signed32(
                codec::be_value(codec::spec_arranged_bytes(regs.subrange(0, 2), addr.byte_order)),
            ),
            DataFormat::UInt64 => v matches Value::Integer(x) && x as int == codec::be_value(
                codec::spec_arranged_bytes(regs.subrange(0, 4), addr.byte_order),
            ),
            DataFormat::Int64 => v matches Value::Integer(x) && x as int == codec::as_signed64(
                codec::be_value(codec::spec_arranged_bytes(regs.subrange(0, 4), addr.byte_order)),
            ),
            DataFormat::Float32 => v matches Value::Num(q) && (f32_fr(
                codec::be_value(
                    codec::spec_arranged_bytes(regs.subrange(0, 2), addr.byte_order),
                ) as u32,
            ) matches Some(x) && fr_eq(fr(q), x)),
            DataFormat::Float64 => v matches Value::Num(q) && (f64_fr(
                codec::be_value(
                    codec::spec_arranged_bytes(regs.subrange(0, 4), addr.byte_order),
                ) as u64,
            ) matches Some(x) && fr_eq(fr(q), x)),
            DataFormat::Text => v matches Value::Bytes(bs) && bs@.len() == 16 && (forall|i: int|
                0 <= i < 8 ==> bs@[2 * i] == codec::word_hi(#[trigger] regs[i]) && bs@[2 * i + 1]
                    == codec::word_lo(regs[i])),
        }
    }
}

/// When the decode of one point's registers succeeds: the registers
/// suffice, the 64-bit unsigned value fits a signed word, and a float bit
/// pattern is convertible.
pub open spec fn decode_succeeds(regs: Seq<u16>, addr: ModbusAddress) -> bool {
    &&& regs.len() >= addr.format.spec_register_count()
    &&& (addr.function_code == 1 || addr.function_code == 2 || match addr.format {
        DataFormat::UInt64 => codec::be_value(
            codec::spec_arranged_bytes(regs.subrange(0, 4), addr.byte_order),
        ) <= 0x7FFF_FFFF_FFFF_FFFF,
        DataFormat::Float32 => f32_convertible(
            codec::be_value(
                codec::spec_arranged_bytes(regs.subrange(0, 2), addr.byte_order),
            ) as u32,
        ),
        DataFormat::Float64 => f64_convertible(
            codec::be_value(
                codec::spec_arranged_bytes(regs.subrange(0, 4), addr.byte_order),
            ) as u64,
        ),
        _ => true,
    })
}

/// Decode the registers of one point into a typed value, before any
/// transform.
///
/// Succeeds exactly when [`decode_succeeds`] holds, with the value pinned
/// by [`decoded_ok`]. Too few registers fail with invalid data; an
/// unrepresentable value fails as a data conversion.
pub fn decode_point_value(regs: &Vec<u16>, addr: &ModbusAddress) -> (r: Result<
    Value,
    GatewayError,
>)
    requires
        match addr.bit_position {
            Some(b) => b < 16,
            None => true,
        },
    ensures
        r is Ok <==> decode_succeeds(regs@, *addr),
        r matches Ok(v) ==> v.wf() && decoded_ok(regs@, *addr, v),
        regs@.len() < addr.format.spec_register_count() ==> (r matches Err(e) && e is InvalidData),
        (regs@.len() >= addr.format.spec_register_count() && r is Err) ==> (r matches Err(e) && e
            is DataConversion),
{
    let rc = addr.format.register_count() as usize;
    if regs.len() < rc {
        return Err(GatewayError::invalid_data("too few registers for the point format"));
    }
    if addr.function_code == 1 || addr.function_code == 2 {
        return Ok(Value::Bool(regs[0] != 0));
    }
    match addr.format {
        DataFormat::Bool => match addr.bit_position {
            Some(b) => {
                let p = pow2_u64_local(b);
                proof {
                    vstd::arithmetic::power2::lemma2_to64();
                    if (b as nat) < 16 {
                        vstd::arithmetic::power2::lemma_pow2_strictly_increases(b as nat, 16);
                    }
                }
                Ok(Value::Bool((regs[0] as u64 / p) % 2 == 1))
            },
            None => Ok(Value::Bool(regs[0] != 0)),
        },
        DataFormat::UInt16 => Ok(Value::Integer(codec::decode_u16(regs, 0, addr.byte_order) as i64)),
        DataFormat::Int16 => Ok(Value::Integer(codec::decode_i16(regs, 0, addr.byte_order) as i64)),
        DataFormat::UInt32 => Ok(Value::Integer(codec::decode_u32(regs, 0, addr.byte_order) as i64)),
        DataFormat::Int32 => Ok(Value::Integer(codec::decode_i32(regs, 0, addr.byte_order) as i64)),
        DataFormat::UInt64 => {
            let v = codec::decode_u64(regs, 0, addr.byte_order);
            if v <= 0x7FFF_FFFF_FFFF_FFFFu64 {
                Ok(Value::Integer(v as i64))
            } else {
                Err(GatewayError::DataConversion(String::from_str("unsigned value beyond range")))
            }
        },
        DataFormat::Int64 => Ok(Value::Integer(codec::decode_i64(regs, 0, addr.byte_order))),
        DataFormat::Float32 => {
            let bits = codec::decode_f32_bits(regs, 0, addr.byte_order);
            match rat_from_f32_bits(bits) {
                Some(v) => Ok(Value::Num(v)),
                None => Err(
                    GatewayError::DataConversion(
                        String::from_str("float pattern without exact value"),
                    ),
                ),
            }
        },
        DataFormat::Float64 => {
            let bits = codec::decode_f64_bits(regs, 0, addr.byte_order);
            match rat_from_f64_bits(bits) {
                Some(v) => Ok(Value::Num(v)),
                None => Err(
                    GatewayError::DataConversion(
                        String::from_str("float pattern without exact value"),
                    ),
                ),
            }
        },
        DataFormat::Text => {
            let mut bytes: Vec<u8> = Vec::new();
            let mut i: usize = 0;
            while i < rc
                invariant
                    i <= rc,
                    rc == 8,
                    rc <= regs@.len(),
                    bytes@.len() == 2 * i,
                    forall|j: int|
                        0 <= j < i ==> bytes@[2 * j] == codec::word_hi(#[trigger] regs@[j])
                            && bytes@[2 * j + 1] == codec::word_lo(regs@[j]),
                decreases rc - i,
            {
                let w = regs[i];
                bytes.push((w / 256) as u8);
                bytes.push((w % 256) as u8);
                i += 1;
            }
            Ok(Value::Bytes(bytes))
        },
    }
}

/// One batched register read: a contiguous range at one slave under one
/// function code, together with the points it serves.
#[derive(Debug, Clone)]
pub struct ReadPlan {
    /// Slave identifier.
    pub slave_id: u8,
    /// Function code.
    pub function_code: u8,
    /// First register of the range.
    pub start: u16,
    /// Number of registers in the range.
    pub count: u32,
    /// Indices into the point list of the points in this range.
    pub point_idxs: Vec<usize>,
}

/// The indices below `n` of the enabled Modbus points, in order.
pub open spec fn enabled_modbus_idxs(points: Seq<PointConfig>, n: int) -> Seq<int>
    decreases n,
{
    if n <= 0 {
        Seq::empty()
    } else {
        enabled_modbus_idxs(points, n - 1) + (if points[n - 1].enabled && points[n - 1].address
            is Modbus {
            seq![n - 1]
        } else {
            Seq::<int>::empty()
        })
    }
}

/// All point indices of a plan list, in plan order.
pub open spec fn all_plan_idxs(plans: Seq<ReadPlan>) -> Seq<int>
    decreases plans.len(),
{
    if plans.len() == 0 {
        Seq::empty()
    } else {
        all_plan_idxs(plans.drop_last()) + plans.last().point_idxs@.map_values(
            |v: usize| v as int,
        )
    }
}

/// Whether a plan entry correctly serves the point at `idx`: the point is
/// an enabled Modbus point at the plan's slave under the plan's function
/// code, and its register span lies inside the plan's range.
pub open spec fn plan_serves(plan: ReadPlan, points: Seq<PointConfig>, idx: int) -> bool {
    &&& 0 <= idx < points.len()
    &&& points[idx].enabled
    &&& points[idx].address matches ProtocolAddress::Modbus(a) && a.slave_id == plan.slave_id
        && a.function_code == plan.function_code && plan.start <= a.register && a.register
        + a.format.spec_register_count() <= plan.start + plan.count
}

/// Group the enabled Modbus points into contiguous register ranges, one
/// per `(slave, function code)` run: a point extends the open range
/// exactly when it continues it register-for-register; anything else
/// opens a new range.
///
/// Every plan is a nonempty range of at most the register space, and
/// every point listed under a plan is an enabled Modbus point whose
/// registers lie inside that plan's range at that plan's slave and
/// function code.
pub fn plan_requests(points: &Vec<PointConfig>) -> (plans: Vec<ReadPlan>)
    ensures
        forall|i: int|
            0 <= i < plans@.len() ==> (#[trigger] plans@[i]).count >= 1 && plans@[i].count <= 0xFFFF
                && plans@[i].point_idxs@.len() >= 1,
        forall|i: int, j: int|
            0 <= i < plans@.len() && 0 <= j < plans@[i].point_idxs@.len() ==> plan_serves(
                plans@[i],
                points@,
                #[trigger] plans@[i].point_idxs@[j] as int,
            ),
        all_plan_idxs(plans@) == enabled_modbus_idxs(points@, points@.len() as int),
{
    let mut plans: Vec<ReadPlan> = Vec::new();
    let mut i: usize = 0;
    while i < points.len()
        invariant
            i <= points@.len(),
            forall|k: int|
                0 <= k < plans@.len() ==> (#[trigger] plans@[k]).count >= 1 && plans@[k].count
                    <= 0xFFFF && plans@[k].point_idxs@.len() >= 1,
            forall|k: int, j: int|
                0 <= k < plans@.len() && 0 <= j < plans@[k].point_idxs@.len() ==> plan_serves(
                    plans@[k],
                    points@,
                    #[trigger] plans@[k].point_idxs@[j] as int,
                ),
            all_plan_idxs(plans@) == enabled_modbus_idxs(points@, i as int),
        decreases points@.len() - i,
    {
        let point = &points[i];
        if point.enabled {
            match &point.address {
                ProtocolAddress::Modbus(addr) => {
                    let rc = addr.format.register_count() as u32;
                    let mut extended = false;
                    let n = plans.len();
                    if n > 0 {
                        let last = &plans[n - 1];
                        if last.slave_id == addr.slave_id && last.function_code
                            == addr.function_code && last.count + rc <= 0xFFFF && (
                        last.start as u32) + last.count == addr.register as u32 {
                            let ghost before = plans@;
                            let mut plan = plans.remove(n - 1);
                            let ghost plan0 = plan;
                            plan.count = plan.count + rc;
                            plan.point_idxs.push(i);
                            plans.push(plan);
                            proof {
                                assert(plans@ =~= before.take(n - 1 as int).push(plans@[n - 1]));
                                assert(before.drop_last() =~= before.take(n - 1 as int));
                                assert(plans@.drop_last() =~= before.take(n - 1 as int));
                                assert(plans@.last().point_idxs@ == plan0.point_idxs@.push(
                                    i,
                                ));
                                assert(plans@.last().point_idxs@.map_values(|v: usize| v as int)
                                    =~= plan0.point_idxs@.map_values(|v: usize| v as int) + seq![
                                    i as int,
                                ]);
                                assert(all_plan_idxs(plans@) =~= all_plan_idxs(before) + seq![
                                    i as int,
                                ]);
                                assert(all_plan_idxs(plans@) =~= enabled_modbus_idxs(
                                    points@,
                                    i + 1,
                                ));
                                assert forall|k: int, j: int|
                                    0 <= k < plans@.len() && 0 <= j
                                        < plans@[k].point_idxs@.len() implies plan_serves(
                                    plans@[k],
                                    points@,
                                    #[trigger] plans@[k].point_idxs@[j] as int,
                                ) by {
                                    if k < plans@.len() - 1 {
                                        assert(plans@[k] == before[k]);
                                        assert(plan_serves(
                                            before[k],
                                            points@,
                                            before[k].point_idxs@[j] as int,
                                        ));
                                    } else {
                                        if j < plan0.point_idxs@.len() {
                                            assert(plan_serves(
                                                plan0,
                                                points@,
                                                plan0.point_idxs@[j] as int,
                                            ));
                                        }
                                    }
                                }
                            }
                            extended = true;
                        }
                    }
                    if !extended {
                        let ghost before2 = plans@;
                        let mut idxs: Vec<usize> = Vec::new();
                        idxs.push(i);
                        plans.push(
                            ReadPlan {
                                slave_id: addr.slave_id,
                                function_code: addr.function_code,
                                start: addr.register,
                                count: rc,
                                point_idxs: idxs,
                            },
                        );
                        proof {
                            assert(plans@.drop_last() =~= before2);
                            assert(plans@.last().point_idxs@.map_values(|v: usize| v as int)
                                =~= seq![i as int]);
                            assert(all_plan_idxs(plans@) =~= enabled_modbus_idxs(points@, i + 1));
                        }
                    }
                },
                _ => {},
            }
        }
        proof {
            if !(points@[i as int].enabled && points@[i as int].address is Modbus) {
                assert(enabled_modbus_idxs(points@, i + 1) =~= enabled_modbus_idxs(
                    points@,
                    i as int,
                ));
            }
        }
        i += 1;
    }
    plans
}

/// Whether a produced point is the decoded, transformed value of the
/// plan entry at `idx`: the entry is a Modbus point whose registers lie
/// in the response, and the output carries its identifier and a value
/// related to its register slice by [`decoded_ok`] and [`transformed_ok`].
pub open spec fn plan_entry_yields(
    plan: ReadPlan,
    points: Seq<PointConfig>,
    regs: Seq<u16>,
    idx: int,
    out: DataPoint,
) -> bool {
    &&& 0 <= idx < points.len()
    &&& points[idx].address matches ProtocolAddress::Modbus(a) && {
        let off = a.register - plan.start;
        let rc = a.format.spec_register_count() as int;
        &&& out.id == points[idx].id
        &&& a.register >= plan.start
        &&& off + rc <= regs.len()
        &&& exists|raw: Value|
            #[trigger] decoded_ok(regs.subrange(off, off + rc), a, raw) && transformed_ok(
                raw,
                points[idx].transform,
                out.value,
            )
    }
}

/// A plan entry that cannot fail: an in-range coil or discrete-input
/// read, whose decode always succeeds and whose boolean value every
/// transform accepts.
pub open spec fn coil_entry_ok(
    plan: ReadPlan,
    points: Seq<PointConfig>,
    regs: Seq<u16>,
    idx: int,
) -> bool {
    &&& 0 <= idx < points.len()
    &&& points[idx].address matches ProtocolAddress::Modbus(a) && {
        &&& a.function_code == 1 || a.function_code == 2
        &&& a.register >= plan.start
        &&& a.register - plan.start + a.format.spec_register_count() <= regs.len()
        &&& match a.bit_position {
            Some(b) => b < 16,
            None => true,
        }
    }
}

/// Decode the response registers of one plan into data points, applying
/// each point's transform.
///
/// Points whose registers fall outside the response, or whose value or
/// transform cannot be represented, are skipped and counted as failures.
/// Every produced point is the decoded, transformed value of one of the
/// plan's points; a plan of in-range coil reads loses no point.
pub fn decode_plan_response(
    plan: &ReadPlan,
    regs: &Vec<u16>,
    points: &Vec<PointConfig>,
    data_type: DataType,
) -> (r: (Vec<DataPoint>, usize))
    requires
        forall|j: int|
            0 <= j < plan.point_idxs@.len() ==> (#[trigger] plan.point_idxs@[j]) < points@.len(),
        forall|j: int| 0 <= j < points@.len() ==> (#[trigger] points@[j]).wf(),
    ensures
        r.0@.len() + r.1 == plan.point_idxs@.len(),
        forall|j: int|
            0 <= j < r.0@.len() ==> (#[trigger] r.0@[j]).wf() && r.0@[j].data_type == data_type,
        forall|k: int|
            0 <= k < r.0@.len() ==> exists|j: int|
                0 <= j < plan.point_idxs@.len() && plan_entry_yields(
                    *plan,
                    points@,
                    regs@,
                    #[trigger] plan.point_idxs@[j] as int,
                    #[trigger] r.0@[k],
                ),
        (forall|j: int|
            0 <= j < plan.point_idxs@.len() ==> coil_entry_ok(
                *plan,
                points@,
                regs@,
                #[trigger] plan.point_idxs@[j] as int,
            )) ==> r.1 == 0,
{
    let mut out: Vec<DataPoint> = Vec::new();
    let mut failed: usize = 0;
    let mut j: usize = 0;
    while j < plan.point_idxs.len()
        invariant
            j <= plan.point_idxs@.len(),
            out@.len() + failed == j,
            forall|k: int|
                0 <= k < plan.point_idxs@.len() ==> (#[trigger] plan.point_idxs@[k])
                    < points@.len(),
            forall|k: int| 0 <= k < points@.len() ==> (#[trigger] points@[k]).wf(),
            forall|k: int|
                0 <= k < out@.len() ==> (#[trigger] out@[k]).wf() && out@[k].data_type == data_type,
            forall|k: int|
                0 <= k < out@.len() ==> exists|j0: int|
                    0 <= j0 < plan.point_idxs@.len() && plan_entry_yields(
                        *plan,
                        points@,
                        regs@,
                        #[trigger] plan.point_idxs@[j0] as int,
                        #[trigger] out@[k],
                    ),
            (forall|k: int|
                0 <= k < plan.point_idxs@.len() ==> coil_entry_ok(
                    *plan,
                    points@,
                    regs@,
                    #[trigger] plan.point_idxs@[k] as int,
                )) ==> failed == 0,
        decreases plan.point_idxs@.len() - j,
    {
        let idx = plan.point_idxs[j];
        let point = &points[idx];
        let mut produced = false;
        match &point.address {
            ProtocolAddress::Modbus(addr) => {
                if addr.register >= plan.start {
                    let offset = (addr.register - plan.start) as usize;
                    let rc = addr.format.register_count() as usize;
                    if offset + rc <= regs.len() {
                        // the point's registers, relative to the response
                        let mut slice: Vec<u16> = Vec::new();
                        let mut k: usize = 0;
                        while k < rc
                            invariant
                                k <= rc,
                                offset + rc <= regs@.len(),
                                regs@.len() == regs.len(),
                                slice@ == regs@.subrange(offset as int, offset + k),
                            decreases rc - k,
                        {
                            slice.push(regs[offset + k]);
                            proof {
                                assert(slice@ =~= regs@.subrange(offset as int, offset + k + 1));
                            }
                            k += 1;
                        }
                        let bit_ok = match addr.bit_position {
                            Some(b) => b < 16,
                            None => true,
                        };
                        if bit_ok {
                            match decode_point_value(&slice, addr) {
                                Ok(raw) => {
                                    match transformed_value(&raw, &point.transform) {
                                        Some(value) => {
                                            let p = DataPoint::new(point.id, data_type, value);
                                            proof {
                                                assert(plan_entry_yields(
                                                    *plan,
                                                    points@,
                                                    regs@,
                                                    plan.point_idxs@[j as int] as int,
                                                    p,
                                                ));
                                            }
                                            out.push(p);
                                            produced = true;
                                        },
                                        None => {},
                                    }
                                },
                                Err(_) => {},
                            }
                        }
                    }
                }
            },
            _ => {},
        }
        if !produced {
            proof {
                if coil_entry_ok(*plan, points@, regs@, plan.point_idxs@[j as int] as int) {
                    assert(false);
                }
            }
            failed = failed + 1;
        }
        j += 1;
    }
    (out, failed)
}

/// The exact transform relation on a decoded value/// The exact transform relation on a decoded value: numeric values go
/// through the linear transform, booleans through the reverse flag,
/// anything else passes unchanged.
pub open spec fn transformed_ok(raw: Value, t: crate::point::TransformConfig, v: Value) -> bool {
    match raw {
        Value::Num(x) => v matches Value::Num(y) && fr_eq(fr(y), t.spec_apply(fr(x))),
        Value::Integer(x) => v matches Value::Num(y) && fr_eq(
            fr(y),
            t.spec_apply(Fr { n: x as int, d: 1 }),
        ),
        Value::Bool(b) => v == Value::Bool(
            if t.reverse {
                !b
            } else {
                b
            },
        ),
        _ => v@ == raw@,
    }
}

/// When the transform of a decoded value has a stored result: always for
/// booleans and non-numeric values, and per the transform's own success
/// condition for numeric ones.
pub open spec fn transform_value_succeeds(raw: Value, t: crate::point::TransformConfig) -> bool {
    match raw {
        Value::Num(x) => t.spec_apply_succeeds(fr(x)),
        Value::Integer(x) => t.spec_apply_succeeds(Fr { n: x as int, d: 1 }),
        _ => true,
    }
}

/// Apply a transform to a decoded value.
///
/// Returns a value exactly when [`transform_value_succeeds`] holds, with
/// the result pinned by [`transformed_ok`].
pub fn transformed_value(raw: &Value, transform: &crate::point::TransformConfig) -> (r: Option<
    Value,
>)
    requires
        raw.wf(),
        transform.wf(),
    ensures
        r matches Some(v) ==> v.wf() && transformed_ok(*raw, *transform, v),
        r is Some <==> transform_value_succeeds(*raw, *transform),
{
    match raw {
        Value::Num(x) => match transform.apply(*x) {
            Some(y) => Some(Value::Num(y)),
            None => None,
        },
        Value::Integer(x) => match transform.apply(Rat::from_i64(*x)) {
            Some(y) => Some(Value::Num(y)),
            None => None,
        },
        Value::Bool(b) => Some(Value::Bool(transform.apply_bool(*b))),
        other => Some(other.clone()),
    }
}

/// Modbus TCP client: configuration, lifecycle state machine and/// Modbus TCP client: configuration, lifecycle state machine and
/// diagnostics counters.
///
/// The client owns the decode pipeline; the caller owns the socket and
/// hands fetched register ranges to the decode functions.
#[derive(Debug)]
pub struct ModbusTcpClient {
    /// Client configuration.
    config: ModbusConfig,
    /// Lifecycle state.
    state: ConnectionState,
    /// Number of successful reads.
    read_count: u64,
    /// Number of successful writes.
    write_count: u64,
    /// Number of errors.
    error_count: u64,
    /// Last error message.
    last_error: Option<String>,
}

impl ModbusTcpClient {
    /// The client configuration.
    pub closed spec fn spec_config(self) -> ModbusConfig {
        self.config
    }

    /// Current lifecycle state.
    pub closed spec fn spec_state(self) -> ConnectionState {
        self.state
    }

    /// Create a new TCP client for the given `host:port` address.
    pub fn new(address: String) -> (r: Result<ModbusTcpClient, GatewayError>)
        ensures
            r matches Ok(c) && (c.spec_config().mode == ModbusMode::Tcp
                && c.spec_config().address@ == address@ && c.spec_state()
                == ConnectionState::Disconnected),
    {
        let config = ModbusConfigBuilder::new().tcp(address).build();
        Self::with_config(config)
    }

    /// Create a client from a full configuration.
    ///
    /// Rejects exactly the configurations whose mode is not TCP.
    pub fn with_config(config: ModbusConfig) -> (r: Result<ModbusTcpClient, GatewayError>)
        ensures
            config.mode == ModbusMode::Tcp <==> r is Ok,
            r matches Ok(c) ==> c.spec_config() == config && c.spec_state()
                == ConnectionState::Disconnected,
            r matches Err(e) ==> e is Config,
    {
        if !matches!(config.mode, ModbusMode::Tcp) {
            return Err(GatewayError::config("the TCP client requires TCP mode"));
        }
        Ok(
            ModbusTcpClient {
                config,
                state: ConnectionState::Disconnected,
                read_count: 0,
                write_count: 0,
                error_count: 0,
                last_error: None,
            },
        )
    }

    /// A builder for custom configuration.
    pub fn builder() -> (b: ModbusConfigBuilder)
        ensures
            b.spec_config().mode == ModbusMode::Tcp,
            b.spec_config().address@ == "127.0.0.1:502"@,
            b.spec_config().connect_timeout_ms == 5000,
            b.spec_config().io_timeout_ms == 3000,
            b.spec_config().max_retries == 3,
            b.spec_config().retry_delay_ms == 500,
            b.spec_config().points@.len() == 0,
            b.spec_config().wf(),
    {
        ModbusConfigBuilder::new()
    }

    /// The target address.
    pub fn address(&self) -> (a: &str)
        ensures
            a@ == self.spec_config().address@,
    {
        self.config.address.as_str()
    }

    /// Protocol name.
    pub fn name(&self) -> (s: &'static str)
        ensures
            s@ == "modbus_tcp"@,
    {
        "modbus_tcp"
    }

    /// The client polls only.
    pub fn supported_modes(&self) -> (m: Vec<CommunicationMode>)
        ensures
            m@ == seq![CommunicationMode::Polling],
    {
        let mut v: Vec<CommunicationMode> = Vec::new();
        v.push(CommunicationMode::Polling);
        proof {
            assert(v@ =~= seq![CommunicationMode::Polling]);
        }
        v
    }

    /// Current connection state.
    pub fn connection_state(&self) -> (s: ConnectionState)
        ensures
            s == self.spec_state(),
    {
        self.state
    }

    /// Mark the transport connected: the caller has opened the socket.
    pub fn connect(&mut self)
        ensures
            final(self).spec_state() == ConnectionState::Connected,
            final(self).spec_config() == old(self).spec_config(),
            crate::state::valid_transition(
                old(self).spec_state(),
                old(self).spec_state().spec_step(ChannelEvent::ConnectRequested),
            ),
            crate::state::valid_transition(
                old(self).spec_state().spec_step(ChannelEvent::ConnectRequested),
                ConnectionState::Connected,
            ),
    {
        let s1 = self.state.step(ChannelEvent::ConnectRequested);
        let s2 = s1.step(ChannelEvent::Established);
        self.state = s2;
    }

    /// Mark the transport disconnected: the caller has closed the socket.
    pub fn disconnect(&mut self)
        ensures
            final(self).spec_state() == ConnectionState::Disconnected,
            final(self).spec_config() == old(self).spec_config(),
            crate::state::valid_transition(old(self).spec_state(), ConnectionState::Disconnected),
    {
        self.state = self.state.step(ChannelEvent::DisconnectRequested);
    }

    /// Read data points. Fails with `NotConnected` exactly when the client
    /// is not connected; otherwise returns the empty snapshot and counts
    /// the read, since register fetching is the transport's part.
    pub fn read(&mut self, _request: &ReadRequest) -> (r: Result<ReadResponse, GatewayError>)
        ensures
            old(self).spec_state() != ConnectionState::Connected <==> (r matches Err(e) && e
                is NotConnected),
            final(self).spec_state() == old(self).spec_state(),
            final(self).spec_config() == old(self).spec_config(),
    {
        if !matches!(self.state, ConnectionState::Connected) {
            return Err(GatewayError::NotConnected);
        }
        if self.read_count < u64::MAX {
            self.read_count = self.read_count + 1;
        }
        Ok(ReadResponse::success(crate::data::DataBatch::new()))
    }

    /// The batched register reads a poll cycle issues: the configured
    /// points grouped into contiguous ranges.
    ///
    /// The caller fetches each plan's range over its transport and feeds
    /// the registers to [`decode_plan_response`] with the configured
    /// points.
    pub fn poll_plans(&self) -> (plans: Vec<ReadPlan>)
        ensures
            forall|i: int|
                0 <= i < plans@.len() ==> (#[trigger] plans@[i]).count >= 1 && plans@[i].count
                    <= 0xFFFF && plans@[i].point_idxs@.len() >= 1,
            forall|i: int, j: int|
                0 <= i < plans@.len() && 0 <= j < plans@[i].point_idxs@.len() ==> plan_serves(
                    plans@[i],
                    self.spec_config().points@,
                    #[trigger] plans@[i].point_idxs@[j] as int,
                ),
            all_plan_idxs(plans@) == enabled_modbus_idxs(
                self.spec_config().points@,
                self.spec_config().points@.len() as int,
            ),
    {
        plan_requests(&self.config.points)
    }

    /// Execute a single poll cycle.
    ///
    /// Fails with `NotConnected` exactly when the client is not
    /// connected; otherwise returns the empty batch and counts the poll,
    /// since register fetching is the transport's part: the caller feeds
    /// fetched ranges to [`decode_plan_response`] with the plans of
    /// [`ModbusTcpClient::poll_plans`].
    pub fn poll_once(&mut self) -> (r: Result<crate::data::DataBatch, GatewayError>)
        ensures
            old(self).spec_state() != ConnectionState::Connected <==> (r matches Err(e) && e
                is NotConnected),
            final(self).spec_state() == old(self).spec_state(),
            final(self).spec_config() == old(self).spec_config(),
            r matches Ok(b) ==> b.spec_len() == 0,
    {
        if !matches!(self.state, ConnectionState::Connected) {
            return Err(GatewayError::NotConnected);
        }
        if self.read_count < u64::MAX {
            self.read_count = self.read_count + 1;
        }
        Ok(crate::data::DataBatch::new())
    }

    /// Write control commands. Fails with `NotConnected` exactly when the
    /// client is not connected; otherwise every command is counted
    /// successful.
    pub fn write_control(&mut self, commands: &Vec<ControlCommand>) -> (r: Result<
        WriteResult,
        GatewayError,
    >)
        ensures
            old(self).spec_state() != ConnectionState::Connected <==> (r matches Err(e) && e
                is NotConnected),
            r matches Ok(w) ==> w.success_count == commands@.len() && w.failures@.len() == 0,
            final(self).spec_state() == old(self).spec_state(),
            final(self).spec_config() == old(self).spec_config(),
    {
        if !matches!(self.state, ConnectionState::Connected) {
            return Err(GatewayError::NotConnected);
        }
        if self.write_count <= u64::MAX - commands.len() as u64 {
            self.write_count = self.write_count + commands.len() as u64;
        }
        Ok(WriteResult::success(commands.len()))
    }

    /// Write adjustment commands. Fails with `NotConnected` exactly when
    /// the client is not connected; otherwise every command is counted
    /// successful.
    pub fn write_adjustment(&mut self, adjustments: &Vec<AdjustmentCommand>) -> (r: Result<
        WriteResult,
        GatewayError,
    >)
        ensures
            old(self).spec_state() != ConnectionState::Connected <==> (r matches Err(e) && e
                is NotConnected),
            r matches Ok(w) ==> w.success_count == adjustments@.len() && w.failures@.len() == 0,
            final(self).spec_state() == old(self).spec_state(),
            final(self).spec_config() == old(self).spec_config(),
    {
        if !matches!(self.state, ConnectionState::Connected) {
            return Err(GatewayError::NotConnected);
        }
        if self.write_count <= u64::MAX - adjustments.len() as u64 {
            self.write_count = self.write_count + adjustments.len() as u64;
        }
        Ok(WriteResult::success(adjustments.len()))
    }

    /// Diagnostics snapshot.
    pub fn diagnostics(&self) -> (d: Diagnostics)
        ensures
            d.protocol@ == "modbus_tcp"@,
            d.connection_state == self.spec_state(),
    {
        let mut d = Diagnostics::new("modbus_tcp");
        d.connection_state = self.state;
        d.read_count = self.read_count;
        d.write_count = self.write_count;
        d.error_count = self.error_count;
        d.last_error = match &self.last_error {
            Some(m) => Some(m.clone()),
            None => None,
        };
        let mut extra: Vec<(String, String)> = Vec::new();
        extra.push((String::from_str("address"), self.config.address.clone()));
        extra.push((String::from_str("mode"), String::from_str("tcp")));
        d.extra = extra;
        d
    }
}

} // verus!
