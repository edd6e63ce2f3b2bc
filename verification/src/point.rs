//! Point configuration: protocol addresses, data formats, byte orders and
//! the linear transform.

use crate::data::DataType;
use crate::rat::{fr, fr_add, fr_div, fr_eq, fr_mul, fr_sub, Fr, Rat};
use crate::rat::{lemma_fr_div_congr, lemma_fr_sub_congr, lemma_fr_trans};
use vstd::prelude::*;

verus! {

/// Data format of a protocol value.
#[derive(Debug, Clone, Copy, PartialEq, Eq, Structural)]
pub enum DataFormat {
    /// Boolean.
    Bool,
    /// Unsigned 16-bit integer.
    UInt16,
    /// Signed 16-bit integer.
    Int16,
    /// Unsigned 32-bit integer.
    UInt32,
    /// Signed 32-bit integer.
    Int32,
    /// Unsigned 64-bit integer.
    UInt64,
    /// Signed 64-bit integer.
    Int64,
    /// 32-bit floating point, carried by its bit pattern.
    Float32,
    /// 64-bit floating point, carried by its bit pattern.
    Float64,
    /// Fixed-length string of sixteen bytes.
    Text,
}

impl Default for DataFormat {
    /// Registers default to unsigned 16-bit words.
    fn default() -> (f: DataFormat)
        ensures
            f == DataFormat::UInt16,
    {
        DataFormat::UInt16
    }
}

impl DataFormat {
    /// The number of 16-bit registers this format occupies.
    pub open spec fn spec_register_count(self) -> u16 {
        match self {
            DataFormat::Bool => 1,
            DataFormat::UInt16 => 1,
            DataFormat::Int16 => 1,
            DataFormat::UInt32 => 2,
            DataFormat::Int32 => 2,
            DataFormat::Float32 => 2,
            DataFormat::UInt64 => 4,
            DataFormat::Int64 => 4,
            DataFormat::Float64 => 4,
            DataFormat::Text => 8,
        }
    }

    /// Get the number of 16-bit registers needed for this format.
    pub fn register_count(&self) -> (n: u16)
        ensures
            n == self.spec_register_count(),
            1 <= n <= 8,
    {
        match self {
            DataFormat::Bool | DataFormat::UInt16 | DataFormat::Int16 => 1,
            DataFormat::UInt32 | DataFormat::Int32 | DataFormat::Float32 => 2,
            DataFormat::UInt64 | DataFormat::Int64 | DataFormat::Float64 => 4,
            DataFormat::Text => 8,
        }
    }

    /// Get the byte size of this format.
    pub fn byte_size(&self) -> (n: usize)
        ensures
            *self == DataFormat::Bool ==> n == 1,
            (*self == DataFormat::UInt16 || *self == DataFormat::Int16) ==> n == 2,
            (*self == DataFormat::UInt32 || *self == DataFormat::Int32 || *self
                == DataFormat::Float32) ==> n == 4,
            (*self == DataFormat::UInt64 || *self == DataFormat::Int64 || *self
                == DataFormat::Float64) ==> n == 8,
            *self == DataFormat::Text ==> n == 16,
    {
        match self {
            DataFormat::Bool => 1,
            DataFormat::UInt16 | DataFormat::Int16 => 2,
            DataFormat::UInt32 | DataFormat::Int32 | DataFormat::Float32 => 4,
            DataFormat::UInt64 | DataFormat::Int64 | DataFormat::Float64 => 8,
            DataFormat::Text => 16,
        }
    }
}

/// Byte order of a multi-register value, named after the lay-out of the
/// four bytes `A B C D` of a 32-bit example.
#[derive(Debug, Clone, Copy, PartialEq, Eq, Structural)]
pub enum ByteOrder {
    /// Big-endian, the identity order.
    Abcd,
    /// Little-endian: full byte reverse.
    Dcba,
    /// Bytes swapped within each 16-bit word.
    Badc,
    /// Words swapped, bytes kept within each word.
    Cdab,
}

impl Default for ByteOrder {
    /// Network byte order.
    fn default() -> (o: ByteOrder)
        ensures
            o == ByteOrder::Abcd,
    {
        ByteOrder::Abcd
    }
}

impl ByteOrder {
    /// Whether the word sequence is reversed.
    pub open spec fn spec_words_reversed(self) -> bool {
        self == ByteOrder::Dcba || self == ByteOrder::Cdab
    }

    /// Whether the two bytes inside each word are swapped.
    pub open spec fn spec_bytes_swapped(self) -> bool {
        self == ByteOrder::Dcba || self == ByteOrder::Badc
    }

    /// The byte order name.
    pub fn as_str(&self) -> (s: &'static str)
        ensures
            *self == ByteOrder::Abcd ==> s@ == "ABCD"@,
            *self == ByteOrder::Dcba ==> s@ == "DCBA"@,
            *self == ByteOrder::Badc ==> s@ == "BADC"@,
            *self == ByteOrder::Cdab ==> s@ == "CDAB"@,
    {
        match self {
            ByteOrder::Abcd => "ABCD",
            ByteOrder::Dcba => "DCBA",
            ByteOrder::Badc => "BADC",
            ByteOrder::Cdab => "CDAB",
        }
    }
}

/// Modbus point address.
#[derive(Debug, Clone)]
pub struct ModbusAddress {
    /// Slave / unit identifier.
    pub slave_id: u8,
    /// Function code: 1 to 4 for reads, 5, 6, 15 and 16 for writes.
    pub function_code: u8,
    /// Register address, zero-based.
    pub register: u16,
    /// Data format.
    pub format: DataFormat,
    /// Byte order for multi-byte values.
    pub byte_order: ByteOrder,
    /// Bit position for boolean values, below 16.
    pub bit_position: Option<u8>,
}

impl ModbusAddress {
    /// A holding-register address (function code 3).
    pub fn holding_register(slave_id: u8, register: u16, format: DataFormat) -> (a: ModbusAddress)
        ensures
            a == (ModbusAddress {
                slave_id,
                function_code: 3u8,
                register,
                format,
                byte_order: ByteOrder::Abcd,
                bit_position: None,
            }),
    {
        ModbusAddress {
            slave_id,
            function_code: 3,
            register,
            format,
            byte_order: ByteOrder::Abcd,
            bit_position: None,
        }
    }

    /// An input-register address (function code 4).
    pub fn input_register(slave_id: u8, register: u16, format: DataFormat) -> (a: ModbusAddress)
        ensures
            a == (ModbusAddress {
                slave_id,
                function_code: 4u8,
                register,
                format,
                byte_order: ByteOrder::Abcd,
                bit_position: None,
            }),
    {
        ModbusAddress {
            slave_id,
            function_code: 4,
            register,
            format,
            byte_order: ByteOrder::Abcd,
            bit_position: None,
        }
    }

    /// A coil address (function code 1).
    pub fn coil(slave_id: u8, register: u16) -> (a: ModbusAddress)
        ensures
            a == (ModbusAddress {
                slave_id,
                function_code: 1u8,
                register,
                format: DataFormat::Bool,
                byte_order: ByteOrder::Abcd,
                bit_position: None,
            }),
    {
        ModbusAddress {
            slave_id,
            function_code: 1,
            register,
            format: DataFormat::Bool,
            byte_order: ByteOrder::Abcd,
            bit_position: None,
        }
    }

    /// A discrete-input address (function code 2).
    pub fn discrete_input(slave_id: u8, register: u16) -> (a: ModbusAddress)
        ensures
            a == (ModbusAddress {
                slave_id,
                function_code: 2u8,
                register,
                format: DataFormat::Bool,
                byte_order: ByteOrder::Abcd,
                bit_position: None,
            }),
    {
        ModbusAddress {
            slave_id,
            function_code: 2,
            register,
            format: DataFormat::Bool,
            byte_order: ByteOrder::Abcd,
            bit_position: None,
        }
    }

    /// The number of registers to read for this address.
    pub fn register_count(&self) -> (n: u16)
        ensures
            n == self.format.spec_register_count(),
            1 <= n <= 8,
    {
        self.format.register_count()
    }
}

/// IEC 60870-5-104 address.
#[derive(Debug, Clone, PartialEq, Eq, Structural)]
pub struct Iec104Address {
    /// Information object address.
    pub ioa: u32,
    /// Type identifier.
    pub type_id: u8,
    /// Common address of the ASDU.
    pub common_address: u16,
}

impl Iec104Address {
    /// Create a new address.
    pub fn new(ioa: u32, type_id: u8, common_address: u16) -> (a: Iec104Address)
        ensures
            a == (Iec104Address { ioa, type_id, common_address }),
    {
        Iec104Address { ioa, type_id, common_address }
    }
}

/// OPC UA address.
#[derive(Debug, Clone)]
pub struct OpcUaAddress {
    /// Node identifier in string form, prefixed `i=`, `s=`, `g=` or `b=`.
    pub node_id: String,
    /// Namespace index.
    pub namespace_index: u16,
}

impl OpcUaAddress {
    /// Create a new address.
    pub fn new(node_id: String, namespace_index: u16) -> (a: OpcUaAddress)
        ensures
            a.node_id@ == node_id@,
            a.namespace_index == namespace_index,
    {
        OpcUaAddress { node_id, namespace_index }
    }
}

/// DNP3 point types.
#[derive(Debug, Clone, Copy, PartialEq, Eq, Structural)]
pub enum Dnp3PointType {
    /// Binary input.
    BinaryInput,
    /// Binary output.
    BinaryOutput,
    /// Analog input.
    AnalogInput,
    /// Analog output.
    AnalogOutput,
    /// Counter.
    Counter,
}

/// DNP3 address.
#[derive(Debug, Clone, PartialEq, Eq, Structural)]
pub struct Dnp3Address {
    /// Point type.
    pub point_type: Dnp3PointType,
    /// Point index.
    pub index: u16,
}

/// GPIO pin direction.
#[derive(Debug, Clone, Copy, PartialEq, Eq, Structural)]
pub enum GpioDirection {
    /// Input pin: a digital input.
    Input,
    /// Output pin: a digital output.
    Output,
}

/// GPIO address for hardware digital input and output.
#[derive(Debug, Clone)]
pub struct GpioAddress {
    /// GPIO chip name, such as `gpiochip0`.
    pub chip: String,
    /// Pin number.
    pub pin: u32,
    /// Pin direction.
    pub direction: GpioDirection,
    /// Invert the pin logic.
    pub active_low: bool,
}

impl GpioAddress {
    /// A digital-input address.
    pub fn digital_input(chip: String, pin: u32) -> (a: GpioAddress)
        ensures
            a.chip@ == chip@,
            a.pin == pin,
            a.direction == GpioDirection::Input,
            !a.active_low,
    {
        GpioAddress { chip, pin, direction: GpioDirection::Input, active_low: false }
    }

    /// A digital-output address.
    pub fn digital_output(chip: String, pin: u32) -> (a: GpioAddress)
        ensures
            a.chip@ == chip@,
            a.pin == pin,
            a.direction == GpioDirection::Output,
            !a.active_low,
    {
        GpioAddress { chip, pin, direction: GpioDirection::Output, active_low: false }
    }

    /// Set active-low mode.
    pub fn with_active_low(self, active_low: bool) -> (a: GpioAddress)
        ensures
            a == (GpioAddress { active_low, ..self }),
    {
        GpioAddress { active_low, ..self }
    }
}

/// Virtual channel address: no physical device behind it.
#[derive(Debug, Clone)]
pub struct VirtualAddress {
    /// Logical group name, if any.
    pub group: Option<String>,
    /// Tag within the group.
    pub tag: String,
}

impl VirtualAddress {
    /// A simple ungrouped virtual address.
    pub fn new(tag: String) -> (a: VirtualAddress)
        ensures
            a.group is None,
            a.tag@ == tag@,
    {
        VirtualAddress { group: None, tag }
    }

    /// A grouped virtual address.
    pub fn grouped(group: String, tag: String) -> (a: VirtualAddress)
        ensures
            a.group matches Some(g) && g@ == group@,
            a.tag@ == tag@,
    {
        VirtualAddress { group: Some(group), tag }
    }
}

/// Protocol-specific address, a closed sum over the supported protocols.
#[derive(Debug, Clone)]
pub enum ProtocolAddress {
    /// Modbus register address.
    Modbus(ModbusAddress),
    /// IEC 60870-5-104 address.
    Iec104(Iec104Address),
    /// OPC UA node address.
    OpcUa(OpcUaAddress),
    /// DNP3 address.
    Dnp3(Dnp3Address),
    /// Virtual channel address.
    Virtual(VirtualAddress),
    /// GPIO pin address.
    Gpio(GpioAddress),
    /// Raw string address for custom protocols.
    Generic(String),
}

/// The identity transform: scale one, offset zero, nothing inverted.
pub open spec fn spec_identity_transform() -> TransformConfig {
    TransformConfig {
        scale: Rat { num: 1, den: 1 },
        offset: Rat { num: 0, den: 1 },
        reverse: false,
        deadband: None,
        min_value: None,
        max_value: None,
    }
}

/// Linear transform with bounds and deadband.
///
/// Forward: `out = raw * scale + offset`. Inverse: `raw = (out - offset) /
/// scale`. Booleans are inverted when `reverse` is set. The bounds are a
/// validity hint for the consumer, not automatic clipping.
#[derive(Debug, Clone, Copy)]
pub struct TransformConfig {
    /// Scale factor.
    pub scale: Rat,
    /// Offset added after scaling.
    pub offset: Rat,
    /// Invert boolean values.
    pub reverse: bool,
    /// Deadband for change detection.
    pub deadband: Option<Rat>,
    /// Minimum valid value.
    pub min_value: Option<Rat>,
    /// Maximum valid value.
    pub max_value: Option<Rat>,
}

impl Default for TransformConfig {
    /// The identity transform.
    fn default() -> (t: TransformConfig)
        ensures
            t == spec_identity_transform(),
            t.wf(),
    {
        TransformConfig {
            scale: Rat::one(),
            offset: Rat::zero(),
            reverse: false,
            deadband: None,
            min_value: None,
            max_value: None,
        }
    }
}

impl TransformConfig {
    /// Well-formedness of all carried rationals.
    pub open spec fn wf(self) -> bool {
        &&& self.scale.wf()
        &&& self.offset.wf()
        &&& match self.deadband {
            Some(r) => r.wf(),
            None => true,
        }
        &&& match self.min_value {
            Some(r) => r.wf(),
            None => true,
        }
        &&& match self.max_value {
            Some(r) => r.wf(),
            None => true,
        }
    }

    /// A simple linear transform.
    pub fn linear(scale: Rat, offset: Rat) -> (t: TransformConfig)
        ensures
            t.scale == scale,
            t.offset == offset,
            !t.reverse,
            t.deadband is None,
            t.min_value is None,
            t.max_value is None,
    {
        TransformConfig {
            scale,
            offset,
            reverse: false,
            deadband: None,
            min_value: None,
            max_value: None,
        }
    }

    /// The exact fraction the forward transform must produce from `x`.
    pub open spec fn spec_apply(self, x: Fr) -> Fr {
        fr_add(fr_mul(x, fr(self.scale)), fr(self.offset))
    }

    /// The exact fraction the inverse transform must produce from `v`.
    pub open spec fn spec_reverse_apply(self, v: Fr) -> Fr {
        fr_div(fr_sub(v, fr(self.offset)), fr(self.scale))
    }

    /// When the forward transform has a stored result: the product with
    /// the scale has a stored form, and so does the offset sum over the
    /// product's reduced form.
    pub open spec fn spec_apply_succeeds(self, x: Fr) -> bool {
        let pn = x.n * self.scale.n();
        let pd = x.d * self.scale.d();
        let mn = crate::rat::norm_num(pn, pd);
        let md = crate::rat::norm_den(pn, pd);
        &&& crate::rat::representable(pn, pd)
        &&& crate::rat::representable(
            mn * self.offset.d() + self.offset.n() * md,
            md * self.offset.d(),
        )
    }

    /// When the inverse transform has a stored result: the scale is
    /// nonzero, the offset difference has a stored form, and so does the
    /// quotient over the difference's reduced form.
    pub open spec fn spec_reverse_succeeds(self, v: Fr) -> bool {
        let sn = v.n * self.offset.d() - self.offset.n() * v.d;
        let sd = v.d * self.offset.d();
        let mn = crate::rat::norm_num(sn, sd);
        let md = crate::rat::norm_den(sn, sd);
        &&& self.scale.num != 0
        &&& crate::rat::representable(sn, sd)
        &&& crate::rat::representable(mn * self.scale.d(), md * self.scale.n())
    }

    /// Apply the forward transform to a raw value: `raw * scale + offset`.
    ///
    /// Returns a value exactly when every intermediate has a stored form.
    pub fn apply(&self, raw: Rat) -> (r: Option<Rat>)
        requires
            self.wf(),
            raw.wf(),
        ensures
            r matches Some(v) ==> v.wf() && fr_eq(fr(v), self.spec_apply(fr(raw))),
            r is Some <==> self.spec_apply_succeeds(fr(raw)),
    {
        let scaled = match raw.checked_mul(self.scale) {
            Some(v) => v,
            None => {
                return None;
            },
        };
        let out = match scaled.checked_add(self.offset) {
            Some(v) => v,
            None => {
                return None;
            },
        };
        proof {
            lemma_fr_add_chain(fr(raw), fr(self.scale), fr(self.offset), fr(scaled), fr(out));
            assert(raw.d() * self.scale.d() >= 1) by (nonlinear_arith)
                requires
                    raw.d() >= 1,
                    self.scale.d() >= 1,
            ;
            assert(scaled.d() * self.offset.d() >= 1) by (nonlinear_arith)
                requires
                    scaled.d() >= 1,
                    self.offset.d() >= 1,
            ;
        }
        Some(out)
    }

    /// Apply the inverse transform to a value: `(value - offset) / scale`.
    ///
    /// Returns a value exactly when the scale is nonzero and every
    /// intermediate has a stored form.
    pub fn reverse_apply(&self, value: Rat) -> (r: Option<Rat>)
        requires
            self.wf(),
            value.wf(),
        ensures
            r matches Some(v) ==> v.wf() && fr_eq(fr(v), self.spec_reverse_apply(fr(value))),
            r is Some <==> self.spec_reverse_succeeds(fr(value)),
            self.scale.num == 0 ==> r is None,
    {
        let shifted = match value.checked_sub(self.offset) {
            Some(v) => v,
            None => {
                return None;
            },
        };
        let out = match shifted.checked_div(self.scale) {
            Some(v) => v,
            None => {
                return None;
            },
        };
        proof {
            lemma_fr_div_chain(fr(value), fr(self.offset), fr(self.scale), fr(shifted), fr(out));
            assert(value.d() * self.offset.d() >= 1) by (nonlinear_arith)
                requires
                    value.d() >= 1,
                    self.offset.d() >= 1,
            ;
            assert(shifted.d() * self.scale.n() != 0) by (nonlinear_arith)
                requires
                    shifted.d() >= 1,
                    self.scale.n() != 0,
            ;
        }
        Some(out)
    }

    /// Apply the boolean reverse, if configured.
    pub fn apply_bool(&self, raw: bool) -> (r: bool)
        ensures
            r == (if self.reverse {
                !raw
            } else {
                raw
            }),
    {
        if self.reverse {
            !raw
        } else {
            raw
        }
    }
}

/// Helper: a value equal to `x * s` carried through an addition of `o`
/// stays equal to `x * s + o`.
proof fn lemma_fr_add_chain(x: Fr, s: Fr, o: Fr, m: Fr, out: Fr)
    requires
        x.d >= 1,
        s.d >= 1,
        o.d >= 1,
        m.d >= 1,
        out.d >= 1,
        fr_eq(m, fr_mul(x, s)),
        fr_eq(out, fr_add(m, o)),
    ensures
        fr_eq(out, fr_add(fr_mul(x, s), o)),
{
    let p = fr_mul(x, s);
    assert(p.d >= 1) by (nonlinear_arith)
        requires
            x.d >= 1,
            s.d >= 1,
            p.d == x.d * s.d,
    ;
    crate::rat::lemma_fr_add_congr(m, p, o);
    let md = fr_add(m, o).d;
    assert(md != 0) by (nonlinear_arith)
        requires
            m.d >= 1,
            o.d >= 1,
            md == m.d * o.d,
    ;
    lemma_fr_trans(out, fr_add(m, o), fr_add(p, o));
}

/// Helper: a value equal to `v - o` carried through a division by `s`
/// stays equal to `(v - o) / s`.
proof fn lemma_fr_div_chain(v: Fr, o: Fr, s: Fr, m: Fr, out: Fr)
    requires
        v.d >= 1,
        o.d >= 1,
        s.d >= 1,
        s.n != 0,
        m.d >= 1,
        out.d >= 1,
        fr_eq(m, fr_sub(v, o)),
        fr_eq(out, fr_div(m, s)),
    ensures
        fr_eq(out, fr_div(fr_sub(v, o), s)),
{
    let p = fr_sub(v, o);
    assert(p.d >= 1) by (nonlinear_arith)
        requires
            v.d >= 1,
            o.d >= 1,
            p.d == v.d * o.d,
    ;
    lemma_fr_div_congr(m, p, s);
    let md = fr_div(m, s).d;
    assert(md != 0) by (nonlinear_arith)
        requires
            m.d >= 1,
            s.n != 0,
            md == m.d * s.n,
    ;
    lemma_fr_trans(out, fr_div(m, s), fr_div(p, s));
}

/// Applying the inverse transform to the result of the forward transform
/// gives back the original value, whenever the scale is nonzero: for every
/// fraction `x`, `reverse_apply(apply(x))` equals `x` as a rational.
///
/// `v` stands for any result of the forward transform on `x` and `w` for
/// any result of the inverse transform on `v`, as the contracts of
/// [`TransformConfig::apply`] and [`TransformConfig::reverse_apply`] state
/// them.
pub proof fn lemma_transform_round_trip(t: TransformConfig, x: Fr, v: Fr, w: Fr)
    requires
        t.wf(),
        t.scale.num != 0,
        x.d >= 1,
        v.d >= 1,
        w.d >= 1,
        fr_eq(v, t.spec_apply(x)),
        fr_eq(w, t.spec_reverse_apply(v)),
    ensures
        fr_eq(w, x),
{
    let s = fr(t.scale);
    let o = fr(t.offset);
    // w == (v - o) / s and v == x * s + o, so w == x.
    let a = t.spec_apply(x);
    assert(a.d >= 1) by (nonlinear_arith)
        requires
            x.d >= 1,
            s.d >= 1,
            o.d >= 1,
            a.d == (x.d * s.d) * o.d,
    ;
    let m1 = fr_sub(v, o);
    let m2 = fr_sub(a, o);
    assert(m1.d >= 1) by (nonlinear_arith)
        requires
            v.d >= 1,
            o.d >= 1,
            m1.d == v.d * o.d,
    ;
    assert(m2.d >= 1) by (nonlinear_arith)
        requires
            a.d >= 1,
            o.d >= 1,
            m2.d == a.d * o.d,
    ;
    lemma_fr_sub_congr(v, a, o);
    lemma_fr_div_congr(m1, m2, s);
    let q1 = fr_div(m1, s);
    let q2 = fr_div(m2, s);
    assert(q1.d != 0) by (nonlinear_arith)
        requires
            m1.d >= 1,
            s.n != 0,
            q1.d == m1.d * s.n,
    ;
    assert(q2.d != 0) by (nonlinear_arith)
        requires
            m2.d >= 1,
            s.n != 0,
            q2.d == m2.d * s.n,
    ;
    lemma_fr_trans(w, q1, q2);
    // algebra: ((x * s + o) - o) / s == x
    lemma_fr_round_trip_algebra(x, s, o);
    lemma_fr_trans(w, q2, x);
}

/// The algebraic core of the round trip: `((x * s + o) - o) / s` equals
/// `x` when `s` is a nonzero fraction.
proof fn lemma_fr_round_trip_algebra(x: Fr, s: Fr, o: Fr)
    requires
        x.d >= 1,
        s.d >= 1,
        o.d >= 1,
        s.n != 0,
    ensures
        fr_eq(fr_div(fr_sub(fr_add(fr_mul(x, s), o), o), s), x),
{
    let p = x.n;
    let q = x.d;
    let u = s.n;
    let w = s.d;
    let c = o.n;
    let e = o.d;
    // numerator of (x*s + o) - o over denominator q*w*e*e
    let num = ((p * u) * e + c * (q * w)) * e - c * ((q * w) * e);
    let den = ((q * w) * e) * e;
    assert(fr_sub(fr_add(fr_mul(x, s), o), o).n == num);
    assert(fr_sub(fr_add(fr_mul(x, s), o), o).d == den);
    // goal: (num * w) * q == p * (den * u)
    assert(num == (p * u) * (e * e)) by (nonlinear_arith)
        requires
            num == ((p * u) * e + c * (q * w)) * e - c * ((q * w) * e),
    ;
    assert(((p * u) * (e * e)) * w * q == p * ((((q * w) * e) * e) * u)) by (nonlinear_arith);
    assert((num * w) * q == p * (den * u)) by (nonlinear_arith)
        requires
            num == (p * u) * (e * e),
            den == ((q * w) * e) * e,
            ((p * u) * (e * e)) * w * q == p * ((((q * w) * e) * e) * u),
    ;
}

/// Protocol-agnostic point configuration.
#[derive(Debug, Clone)]
pub struct PointConfig {
    /// Unique point identifier within its channel.
    pub id: u32,
    /// Human-readable name, if any.
    pub name: Option<String>,
    /// Data type (T/S/C/A).
    pub data_type: DataType,
    /// Protocol-specific address.
    pub address: ProtocolAddress,
    /// Data transformation configuration.
    pub transform: TransformConfig,
    /// Polling group, reserved for batch optimization.
    pub poll_group: Option<String>,
    /// Whether this point is enabled.
    pub enabled: bool,
}

impl PointConfig {
    /// Well-formedness of the carried transform.
    pub open spec fn wf(self) -> bool {
        self.transform.wf()
    }

    /// A new enabled point with the identity transform.
    pub fn new(id: u32, data_type: DataType, address: ProtocolAddress) -> (p: PointConfig)
        ensures
            p.id == id,
            p.name is None,
            p.data_type == data_type,
            p.address == address,
            p.transform == spec_identity_transform(),
            p.poll_group is None,
            p.enabled,
            p.wf(),
    {
        PointConfig {
            id,
            name: None,
            data_type,
            address,
            transform: TransformConfig::default(),
            poll_group: None,
            enabled: true,
        }
    }

    /// Set the point name.
    pub fn with_name(self, name: String) -> (p: PointConfig)
        ensures
            p == (PointConfig { name: Some(name), ..self }),
    {
        PointConfig { name: Some(name), ..self }
    }

    /// Set the transform configuration.
    pub fn with_transform(self, transform: TransformConfig) -> (p: PointConfig)
        ensures
            p == (PointConfig { transform, ..self }),
    {
        PointConfig { transform, ..self }
    }

    /// Set the poll group.
    pub fn with_poll_group(self, group: String) -> (p: PointConfig)
        ensures
            p == (PointConfig { poll_group: Some(group), ..self }),
    {
        PointConfig { poll_group: Some(group), ..self }
    }

    /// Copy a point configuration; the scalar fields are kept exactly and
    /// the transform with them.
    pub fn clone_cfg(&self) -> (p: PointConfig)
        ensures
            p.id == self.id,
            p.data_type == self.data_type,
            p.transform == self.transform,
            p.enabled == self.enabled,
            self.wf() ==> p.wf(),
    {
        PointConfig {
            id: self.id,
            name: match &self.name {
                Some(n) => Some(n.clone()),
                None => None,
            },
            data_type: self.data_type,
            address: clone_address(&self.address),
            transform: self.transform,
            poll_group: match &self.poll_group {
                Some(g) => Some(g.clone()),
                None => None,
            },
            enabled: self.enabled,
        }
    }
}

/// Copy a protocol address, keeping the variant and every plain field.
pub fn clone_address(a: &ProtocolAddress) -> (r: ProtocolAddress)
    ensures
        a is Modbus <==> r is Modbus,
        a is Gpio <==> r is Gpio,
        a is Virtual <==> r is Virtual,
{
    match a {
        ProtocolAddress::Modbus(m) => ProtocolAddress::Modbus(
            ModbusAddress {
                slave_id: m.slave_id,
                function_code: m.function_code,
                register: m.register,
                format: m.format,
                byte_order: m.byte_order,
                bit_position: m.bit_position,
            },
        ),
        ProtocolAddress::Iec104(i) => ProtocolAddress::Iec104(
            Iec104Address { ioa: i.ioa, type_id: i.type_id, common_address: i.common_address },
        ),
        ProtocolAddress::OpcUa(o) => ProtocolAddress::OpcUa(
            OpcUaAddress { node_id: o.node_id.clone(), namespace_index: o.namespace_index },
        ),
        ProtocolAddress::Dnp3(d) => ProtocolAddress::Dnp3(
            Dnp3Address { point_type: d.point_type, index: d.index },
        ),
        ProtocolAddress::Virtual(v) => ProtocolAddress::Virtual(
            VirtualAddress {
                group: match &v.group {
                    Some(g) => Some(g.clone()),
                    None => None,
                },
                tag: v.tag.clone(),
            },
        ),
        ProtocolAddress::Gpio(g) => ProtocolAddress::Gpio(
            GpioAddress {
                chip: g.chip.clone(),
                pin: g.pin,
                direction: g.direction,
                active_low: g.active_low,
            },
        ),
        ProtocolAddress::Generic(s) => ProtocolAddress::Generic(s.clone()),
    }
}

} // verus!
