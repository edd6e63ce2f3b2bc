//! The protocol-agnostic data model: typed values, data points, batches.
//!
//! The model follows the SCADA "four remotes": Telemetry (analog in),
//! Signal (digital in), Control (digital out), Adjustment (analog out).

use crate::quality::Quality;
use crate::rat::Rat;
use vstd::prelude::*;

verus! {

/// The four kinds of remote data in SCADA systems.
#[derive(Debug, Clone, Copy, PartialEq, Eq, Hash, Structural)]
pub enum DataType {
    /// Telemetry: analog input measurement.
    Telemetry,
    /// Signal: digital input status.
    Signal,
    /// Control: digital output command.
    Control,
    /// Adjustment: analog output setpoint.
    Adjustment,
}

impl DataType {
    /// The short code for this data type.
    pub fn as_str(&self) -> (s: &'static str)
        ensures
            *self == DataType::Telemetry ==> s@ == "T"@,
            *self == DataType::Signal ==> s@ == "S"@,
            *self == DataType::Control ==> s@ == "C"@,
            *self == DataType::Adjustment ==> s@ == "A"@,
    {
        match self {
            DataType::Telemetry => "T",
            DataType::Signal => "S",
            DataType::Control => "C",
            DataType::Adjustment => "A",
        }
    }

    /// Input types carry data from the device to the system.
    pub fn is_input(&self) -> (r: bool)
        ensures
            r == (*self == DataType::Telemetry || *self == DataType::Signal),
    {
        matches!(self, DataType::Telemetry | DataType::Signal)
    }

    /// Output types carry data from the system to the device.
    pub fn is_output(&self) -> (r: bool)
        ensures
            r == (*self == DataType::Control || *self == DataType::Adjustment),
    {
        matches!(self, DataType::Control | DataType::Adjustment)
    }

    /// Analog types carry numeric values.
    pub fn is_analog(&self) -> (r: bool)
        ensures
            r == (*self == DataType::Telemetry || *self == DataType::Adjustment),
    {
        matches!(self, DataType::Telemetry | DataType::Adjustment)
    }

    /// Digital types carry boolean values.
    pub fn is_digital(&self) -> (r: bool)
        ensures
            r == (*self == DataType::Signal || *self == DataType::Control),
    {
        matches!(self, DataType::Signal | DataType::Control)
    }
}

/// Abstract value of a [`Value`], with collection contents spelled out as
/// mathematical sequences.
pub enum ValueV {
    /// An exact rational `n / d`.
    Num { n: int, d: int },
    /// A 64-bit integer.
    Int(int),
    /// A boolean.
    Bool(bool),
    /// A text string.
    Text(Seq<char>),
    /// Raw bytes.
    Bytes(Seq<u8>),
    /// No value.
    Null,
}

impl ValueV {
    /// Value equality: numbers compare as rationals, everything else
    /// structurally. Different variants never compare equal.
    pub open spec fn eq_val(self, other: ValueV) -> bool {
        match (self, other) {
            (ValueV::Num { n: n1, d: d1 }, ValueV::Num { n: n2, d: d2 }) => n1 * d2 == n2 * d1,
            (ValueV::Int(a), ValueV::Int(b)) => a == b,
            (ValueV::Bool(a), ValueV::Bool(b)) => a == b,
            (ValueV::Text(a), ValueV::Text(b)) => a == b,
            (ValueV::Bytes(a), ValueV::Bytes(b)) => a == b,
            (ValueV::Null, ValueV::Null) => true,
            _ => false,
        }
    }
}

/// A protocol-agnostic value.
///
/// Analog quantities are exact rationals; the lossy coercions between the
/// numeric variants follow fixed rules and failure to coerce yields no
/// value, never an error.
#[derive(Debug)]
pub enum Value {
    /// An exact rational number, the common carrier for analog values.
    Num(Rat),
    /// Integer value.
    Integer(i64),
    /// Boolean value.
    Bool(bool),
    /// Text value.
    Text(String),
    /// Raw bytes.
    Bytes(Vec<u8>),
    /// Null / missing value.
    Null,
}

impl View for Value {
    type V = ValueV;

    open spec fn view(&self) -> ValueV {
        match self {
            Value::Num(r) => ValueV::Num { n: r.n(), d: r.d() },
            Value::Integer(v) => ValueV::Int(*v as int),
            Value::Bool(b) => ValueV::Bool(*b),
            Value::Text(s) => ValueV::Text(s@),
            Value::Bytes(b) => ValueV::Bytes(b@),
            Value::Null => ValueV::Null,
        }
    }
}

impl Clone for Value {
    /// Cloning keeps the abstract value.
    fn clone(&self) -> (r: Value)
        ensures
            r@ == self@,
            self.wf() ==> r.wf(),
    {
        match self {
            Value::Num(x) => Value::Num(*x),
            Value::Integer(v) => Value::Integer(*v),
            Value::Bool(b) => Value::Bool(*b),
            Value::Text(s) => Value::Text(s.clone()),
            Value::Bytes(b) => {
                let c = clone_bytes(b);
                Value::Bytes(c)
            },
            Value::Null => Value::Null,
        }
    }
}

/// Byte-for-byte copy of a byte vector.
fn clone_bytes(b: &Vec<u8>) -> (r: Vec<u8>)
    ensures
        r@ == b@,
{
    let mut out: Vec<u8> = Vec::new();
    let mut i: usize = 0;
    while i < b.len()
        invariant
            i <= b.len(),
            out@ == b@.subrange(0, i as int),
        decreases b.len() - i,
    {
        out.push(b[i]);
        i += 1;
        proof {
            assert(out@ =~= b@.subrange(0, i as int));
        }
    }
    proof {
        assert(out@ =~= b@);
    }
    out
}

impl Value {
    /// Well-formedness: a numeric value carries a valid rational.
    pub open spec fn wf(self) -> bool {
        match self {
            Value::Num(r) => r.wf(),
            _ => true,
        }
    }

    /// Coerce to a rational number, if this value is numeric.
    ///
    /// Integers convert exactly; booleans become 0 or 1; everything else
    /// has no numeric reading.
    pub fn as_num(&self) -> (r: Option<Rat>)
        requires
            self.wf(),
        ensures
            match *self {
                Value::Num(x) => r == Some(x),
                Value::Integer(v) => r matches Some(q) && q.num == v && q.den == 1,
                Value::Bool(b) => r matches Some(q) && q.num == (if b {
                    1int
                } else {
                    0int
                }) && q.den == 1,
                _ => r is None,
            },
    {
        match self {
            Value::Num(x) => Some(*x),
            Value::Integer(v) => Some(Rat::from_i64(*v)),
            Value::Bool(b) => Some(Rat::from_i64(if *b {
                1
            } else {
                0
            })),
            _ => None,
        }
    }

    /// Coerce to a 64-bit integer: rationals truncate toward zero,
    /// booleans become 0 or 1.
    pub fn as_i64(&self) -> (r: Option<i64>)
        requires
            self.wf(),
        ensures
            match *self {
                Value::Integer(v) => r == Some(v),
                Value::Num(x) => r matches Some(v) && v as int == x.spec_trunc(),
                Value::Bool(b) => r == Some(
                    if b {
                        1i64
                    } else {
                        0i64
                    },
                ),
                _ => r is None,
            },
    {
        match self {
            Value::Integer(v) => Some(*v),
            Value::Num(x) => Some(x.trunc()),
            Value::Bool(b) => Some(
                if *b {
                    1
                } else {
                    0
                },
            ),
            _ => None,
        }
    }

    /// Coerce to a boolean: nonzero numerics are true.
    pub fn as_bool(&self) -> (r: Option<bool>)
        requires
            self.wf(),
        ensures
            match *self {
                Value::Bool(b) => r == Some(b),
                Value::Integer(v) => r == Some(v != 0),
                Value::Num(x) => r == Some(x.num != 0),
                _ => r is None,
            },
    {
        match self {
            Value::Bool(b) => Some(*b),
            Value::Integer(v) => Some(*v != 0),
            Value::Num(x) => Some(!x.is_zero()),
            _ => None,
        }
    }

    /// Borrow the text content, if this is a text value.
    pub fn as_string(&self) -> (r: Option<&str>)
        ensures
            match *self {
                Value::Text(_) => r matches Some(s) && self@ == ValueV::Text(s@),
                _ => r is None,
            },
    {
        match self {
            Value::Text(s) => Some(s.as_str()),
            _ => None,
        }
    }

    /// Whether this is the null value.
    pub fn is_null(&self) -> (r: bool)
        ensures
            r == (self@ == ValueV::Null),
    {
        matches!(self, Value::Null)
    }

    /// Value equality test matching [`ValueV::eq_val`].
    pub fn eq_val(&self, other: &Value) -> (r: bool)
        requires
            self.wf(),
            other.wf(),
        ensures
            r == self@.eq_val(other@),
    {
        match self {
            Value::Num(a) => match other {
                Value::Num(b) => a.eq_val(b),
                _ => false,
            },
            Value::Integer(a) => match other {
                Value::Integer(b) => *a == *b,
                _ => false,
            },
            Value::Bool(a) => match other {
                Value::Bool(b) => *a == *b,
                _ => false,
            },
            Value::Text(a) => match other {
                Value::Text(b) => a.eq(b),
                _ => false,
            },
            Value::Bytes(a) => match other {
                Value::Bytes(b) => bytes_eq(a, b),
                _ => false,
            },
            Value::Null => match other {
                Value::Null => true,
                _ => false,
            },
        }
    }
}

/// Byte-for-byte comparison of two byte vectors.
fn bytes_eq(a: &Vec<u8>, b: &Vec<u8>) -> (r: bool)
    ensures
        r == (a@ == b@),
{
    if a.len() != b.len() {
        proof {
            assert(a@.len() != b@.len());
        }
        return false;
    }
    let mut i: usize = 0;
    while i < a.len()
        invariant
            i <= a.len(),
            a@.len() == b@.len(),
            forall|j: int| 0 <= j < i ==> a@[j] == b@[j],
        decreases a.len() - i,
    {
        if a[i] != b[i] {
            proof {
                assert(a@[i as int] != b@[i as int]);
            }
            return false;
        }
        i += 1;
    }
    proof {
        assert(a@ =~= b@);
    }
    true
}

/// Milliseconds of the gateway clock.
///
/// Relies on `std::time::SystemTime::now` for the current wall-clock
/// time, read as an offset from the Unix epoch; instants before the epoch
/// clamp to zero and offsets beyond the 64-bit range saturate.
#[verifier::external_body]
pub(crate) fn now_ms() -> u64 {
    match std::time::SystemTime::now().duration_since(std::time::UNIX_EPOCH) {
        Ok(d) => u64::try_from(d.as_millis()).unwrap_or(u64::MAX),
        Err(_) => 0,
    }
}

/// Abstract value of a [`DataPoint`].
pub struct DataPointV {
    /// Point identifier.
    pub id: int,
    /// Data type tag.
    pub data_type: DataType,
    /// Carried value.
    pub value: ValueV,
    /// Quality tag.
    pub quality: Quality,
    /// Server timestamp in milliseconds.
    pub timestamp_ms: int,
    /// Device timestamp in milliseconds, when the device supplied one.
    pub source_timestamp_ms: Option<int>,
}

/// A single sample: a value with identity, quality and timestamps.
#[derive(Debug)]
pub struct DataPoint {
    /// Numeric point identifier, application-level.
    pub id: u32,
    /// Data type (T/S/C/A).
    pub data_type: DataType,
    /// The value.
    pub value: Value,
    /// Data quality indicator.
    pub quality: Quality,
    /// Server timestamp: when the gateway received the data, in
    /// milliseconds since the Unix epoch.
    pub timestamp_ms: u64,
    /// Source timestamp: when the device generated the data, if known.
    pub source_timestamp_ms: Option<u64>,
}

impl View for DataPoint {
    type V = DataPointV;

    open spec fn view(&self) -> DataPointV {
        DataPointV {
            id: self.id as int,
            data_type: self.data_type,
            value: self.value@,
            quality: self.quality,
            timestamp_ms: self.timestamp_ms as int,
            source_timestamp_ms: match self.source_timestamp_ms {
                Some(t) => Some(t as int),
                None => None,
            },
        }
    }
}

impl Clone for DataPoint {
    /// Cloning keeps the abstract value.
    fn clone(&self) -> (r: DataPoint)
        ensures
            r@ == self@,
            self.wf() ==> r.wf(),
    {
        DataPoint {
            id: self.id,
            data_type: self.data_type,
            value: self.value.clone(),
            quality: self.quality,
            timestamp_ms: self.timestamp_ms,
            source_timestamp_ms: self.source_timestamp_ms,
        }
    }
}

impl DataPoint {
    /// Well-formedness: the carried value is well-formed.
    pub open spec fn wf(self) -> bool {
        self.value.wf()
    }

    /// Create a new data point stamped with the current time.
    pub fn new(id: u32, data_type: DataType, value: Value) -> (p: DataPoint)
        requires
            value.wf(),
        ensures
            p.id == id,
            p.data_type == data_type,
            p.value == value,
            p.quality == Quality::Good,
            p.source_timestamp_ms is None,
            p.wf(),
    {
        DataPoint {
            id,
            data_type,
            value,
            quality: Quality::Good,
            timestamp_ms: now_ms(),
            source_timestamp_ms: None,
        }
    }

    /// Create a telemetry point.
    pub fn telemetry(id: u32, value: Value) -> (p: DataPoint)
        requires
            value.wf(),
        ensures
            p.id == id,
            p.data_type == DataType::Telemetry,
            p.value == value,
            p.quality == Quality::Good,
            p.wf(),
    {
        Self::new(id, DataType::Telemetry, value)
    }

    /// Create a signal point.
    pub fn signal(id: u32, value: bool) -> (p: DataPoint)
        ensures
            p.id == id,
            p.data_type == DataType::Signal,
            p.value == Value::Bool(value),
            p.quality == Quality::Good,
            p.wf(),
    {
        Self::new(id, DataType::Signal, Value::Bool(value))
    }

    /// Create a control point.
    pub fn control(id: u32, value: bool) -> (p: DataPoint)
        ensures
            p.id == id,
            p.data_type == DataType::Control,
            p.value == Value::Bool(value),
            p.quality == Quality::Good,
            p.wf(),
    {
        Self::new(id, DataType::Control, Value::Bool(value))
    }

    /// Create an adjustment point.
    pub fn adjustment(id: u32, value: Value) -> (p: DataPoint)
        requires
            value.wf(),
        ensures
            p.id == id,
            p.data_type == DataType::Adjustment,
            p.value == value,
            p.quality == Quality::Good,
            p.wf(),
    {
        Self::new(id, DataType::Adjustment, value)
    }

    /// Replace the quality.
    pub fn with_quality(self, quality: Quality) -> (p: DataPoint)
        ensures
            p == (DataPoint { quality, ..self }),
    {
        DataPoint { quality, ..self }
    }

    /// Attach a source timestamp.
    pub fn with_source_timestamp(self, ts_ms: u64) -> (p: DataPoint)
        ensures
            p == (DataPoint { source_timestamp_ms: Some(ts_ms), ..self }),
    {
        DataPoint { source_timestamp_ms: Some(ts_ms), ..self }
    }
}

/// A batch of data points, held in four lists by data type.
#[derive(Debug)]
pub struct DataBatch {
    /// Telemetry points.
    pub telemetry: Vec<DataPoint>,
    /// Signal points.
    pub signal: Vec<DataPoint>,
    /// Control points.
    pub control: Vec<DataPoint>,
    /// Adjustment points.
    pub adjustment: Vec<DataPoint>,
}

impl DataBatch {
    /// Well-formedness of every carried point.
    pub open spec fn wf(self) -> bool {
        &&& forall|i: int| 0 <= i < self.telemetry@.len() ==> self.telemetry@[i].wf()
        &&& forall|i: int| 0 <= i < self.signal@.len() ==> self.signal@[i].wf()
        &&& forall|i: int| 0 <= i < self.control@.len() ==> self.control@[i].wf()
        &&& forall|i: int| 0 <= i < self.adjustment@.len() ==> self.adjustment@[i].wf()
    }

    /// Total number of points, as a mathematical integer.
    pub open spec fn spec_len(self) -> int {
        self.telemetry@.len() + self.signal@.len() + self.control@.len()
            + self.adjustment@.len() as int
    }

    /// All points in batch order: telemetry, signal, control, adjustment.
    pub open spec fn spec_points(self) -> Seq<DataPoint> {
        self.telemetry@ + self.signal@ + self.control@ + self.adjustment@
    }

    /// Create an empty batch.
    pub fn new() -> (b: DataBatch)
        ensures
            b.telemetry@ =~= Seq::<DataPoint>::empty(),
            b.signal@ =~= Seq::<DataPoint>::empty(),
            b.control@ =~= Seq::<DataPoint>::empty(),
            b.adjustment@ =~= Seq::<DataPoint>::empty(),
            b.spec_len() == 0,
            b.wf(),
    {
        DataBatch { telemetry: Vec::new(), signal: Vec::new(), control: Vec::new(), adjustment: Vec::new() }
    }

    /// Add a point to the list matching its data type; the other lists are
    /// untouched and insertion order is preserved.
    pub fn add(&mut self, point: DataPoint)
        ensures
            final(self).telemetry@ == (if point.data_type == DataType::Telemetry {
                old(self).telemetry@.push(point)
            } else {
                old(self).telemetry@
            }),
            final(self).signal@ == (if point.data_type == DataType::Signal {
                old(self).signal@.push(point)
            } else {
                old(self).signal@
            }),
            final(self).control@ == (if point.data_type == DataType::Control {
                old(self).control@.push(point)
            } else {
                old(self).control@
            }),
            final(self).adjustment@ == (if point.data_type == DataType::Adjustment {
                old(self).adjustment@.push(point)
            } else {
                old(self).adjustment@
            }),
            final(self).spec_len() == old(self).spec_len() + 1,
            old(self).wf() && point.wf() ==> final(self).wf(),
    {
        match point.data_type {
            DataType::Telemetry => self.telemetry.push(point),
            DataType::Signal => self.signal.push(point),
            DataType::Control => self.control.push(point),
            DataType::Adjustment => self.adjustment.push(point),
        }
    }

    /// Total number of points.
    pub fn len(&self) -> (n: usize)
        requires
            self.spec_len() <= usize::MAX,
        ensures
            n == self.spec_len(),
    {
        self.telemetry.len() + self.signal.len() + self.control.len() + self.adjustment.len()
    }

    /// Whether the batch holds no points.
    pub fn is_empty(&self) -> (r: bool)
        ensures
            r == (self.spec_len() == 0),
    {
        self.telemetry.is_empty() && self.signal.is_empty() && self.control.is_empty()
            && self.adjustment.is_empty()
    }

    /// Merge another batch into this one, list by list, keeping order.
    pub fn merge(&mut self, other: DataBatch)
        ensures
            final(self).telemetry@ == old(self).telemetry@ + other.telemetry@,
            final(self).signal@ == old(self).signal@ + other.signal@,
            final(self).control@ == old(self).control@ + other.control@,
            final(self).adjustment@ == old(self).adjustment@ + other.adjustment@,
    {
        let DataBatch { mut telemetry, mut signal, mut control, mut adjustment } = other;
        self.telemetry.append(&mut telemetry);
        self.signal.append(&mut signal);
        self.control.append(&mut control);
        self.adjustment.append(&mut adjustment);
    }

    /// All points of the batch, grouped by data type in the order
    /// telemetry, signal, control, adjustment; insertion order is kept
    /// within each group.
    pub fn iter(self) -> (r: Vec<DataPoint>)
        ensures
            r@ == self.spec_points(),
    {
        let DataBatch { mut telemetry, mut signal, mut control, mut adjustment } = self;
        telemetry.append(&mut signal);
        telemetry.append(&mut control);
        telemetry.append(&mut adjustment);
        telemetry
    }
}

impl Clone for DataBatch {
    /// Cloning keeps every point's abstract value, list by list.
    fn clone(&self) -> (r: DataBatch)
        ensures
            r.telemetry@.len() == self.telemetry@.len(),
            forall|i: int|
                0 <= i < self.telemetry@.len() ==> r.telemetry@[i]@ == self.telemetry@[i]@,
            r.signal@.len() == self.signal@.len(),
            forall|i: int| 0 <= i < self.signal@.len() ==> r.signal@[i]@ == self.signal@[i]@,
            r.control@.len() == self.control@.len(),
            forall|i: int| 0 <= i < self.control@.len() ==> r.control@[i]@ == self.control@[i]@,
            r.adjustment@.len() == self.adjustment@.len(),
            forall|i: int|
                0 <= i < self.adjustment@.len() ==> r.adjustment@[i]@ == self.adjustment@[i]@,
    {
        DataBatch {
            telemetry: clone_points(&self.telemetry),
            signal: clone_points(&self.signal),
            control: clone_points(&self.control),
            adjustment: clone_points(&self.adjustment),
        }
    }
}

/// Clone a list of points, keeping each point's abstract value.
pub fn clone_points(v: &Vec<DataPoint>) -> (r: Vec<DataPoint>)
    ensures
        r@.len() == v@.len(),
        forall|i: int| 0 <= i < v@.len() ==> r@[i]@ == v@[i]@ && (v@[i].wf() ==> r@[i].wf()),
{
    let mut out: Vec<DataPoint> = Vec::new();
    let mut i: usize = 0;
    while i < v.len()
        invariant
            i <= v.len(),
            out@.len() == i,
            forall|j: int| 0 <= j < i ==> out@[j]@ == v@[j]@ && (v@[j].wf() ==> out@[j].wf()),
        decreases v.len() - i,
    {
        out.push(v[i].clone());
        i += 1;
    }
    out
}


} // verus!
