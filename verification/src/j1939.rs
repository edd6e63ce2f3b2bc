//! J1939 decode engine: 29-bit CAN identifier parsing, PGN demultiplexing
//! and SPN bit-field extraction against the built-in parameter table.

use crate::data::{DataBatch, DataPoint, DataType, Value};
use crate::error::GatewayError;
use crate::quality::Quality;
use crate::rat::{fr, fr_eq, Fr, Rat};
use crate::rat::{lemma_norm_bounds, representable};
use crate::state::{
    ChannelEvent, CommunicationMode, ConnectionState, Diagnostics, ReadRequest, ReadResponse,
    WriteResult,
};
use crate::state::{AdjustmentCommand, ControlCommand};
use std::collections::HashMap;
use vstd::arithmetic::power2::pow2;
use vstd::prelude::*;

verus! {

broadcast use vstd::std_specs::hash::group_hash_axioms;

/// Data type of an SPN field.
#[derive(Debug, Clone, Copy, PartialEq, Eq, Structural)]
pub enum SpnDataType {
    /// Unsigned, up to one byte.
    Uint8,
    /// Unsigned, two bytes little-endian.
    Uint16,
    /// Unsigned, four bytes little-endian.
    Uint32,
    /// Signed, one byte.
    Int8,
    /// Signed, two bytes little-endian.
    Int16,
    /// Signed, four bytes little-endian.
    Int32,
}

/// Definition of one suspect parameter number: where its bits live inside
/// the parameter group and how the raw value scales.
///
/// The scale is an exact fraction `scale_num / scale_den`; every offset in
/// the standard table is an integer.
#[derive(Debug, Clone)]
pub struct SpnDef {
    /// Suspect parameter number; also used as the point identifier.
    pub spn: u32,
    /// Short name of the parameter.
    pub name: String,
    /// Parameter group the field belongs to.
    pub pgn: u32,
    /// First data byte of the field.
    pub start_byte: u8,
    /// First bit inside that byte, for sub-byte fields.
    pub start_bit: u8,
    /// Width of the field in bits.
    pub bit_length: u8,
    /// Scale numerator.
    pub scale_num: u32,
    /// Scale denominator.
    pub scale_den: u32,
    /// Offset added after scaling.
    pub offset: i32,
    /// Unit of the scaled value.
    pub unit: String,
    /// How the raw bits are read.
    pub data_type: SpnDataType,
}

impl SpnDef {
    /// Well-formedness: the field geometry fits its data type and the
    /// scale is a modest positive fraction.
    pub open spec fn wf(self) -> bool {
        &&& 1 <= self.scale_num <= 100000
        &&& 1 <= self.scale_den <= 100000
        &&& self.start_byte <= 7
        &&& match self.data_type {
            SpnDataType::Uint8 | SpnDataType::Int8 => {
                &&& 1 <= self.bit_length <= 8
                &&& self.start_bit + self.bit_length <= 8
            },
            SpnDataType::Uint16 | SpnDataType::Int16 => self.bit_length == 16 && self.start_bit
                == 0,
            SpnDataType::Uint32 | SpnDataType::Int32 => self.bit_length == 32 && self.start_bit
                == 0,
        }
    }
}

/// The signed reading of an 8-bit pattern.
pub open spec fn as_signed8(u: int) -> int {
    if u < 0x80 {
        u
    } else {
        u - 0x100
    }
}

/// The signed reading of a 16-bit pattern.
pub open spec fn sig16(u: int) -> int {
    if u < 0x8000 {
        u
    } else {
        u - 0x1_0000
    }
}

/// The signed reading of a 32-bit pattern.
pub open spec fn sig32(u: int) -> int {
    if u < 0x8000_0000 {
        u
    } else {
        u - 0x1_0000_0000
    }
}

/// The raw field value an SPN definition extracts from frame data:
/// `None` when the frame is too short for the field.
///
/// Sub-byte fields shift and mask inside their byte; multi-byte fields are
/// read little-endian; signed variants sign-extend.
pub open spec fn spec_raw(data: Seq<u8>, def: SpnDef) -> Option<int> {
    let idx = def.start_byte as int;
    match def.data_type {
        SpnDataType::Uint8 => if idx < data.len() {
            Some(
                (data[idx] as int / pow2(def.start_bit as nat) as int) % pow2(
                    def.bit_length as nat,
                ) as int,
            )
        } else {
            None
        },
        SpnDataType::Uint16 => if idx + 1 < data.len() {
            Some(data[idx] + data[idx + 1] * 0x100)
        } else {
            None
        },
        SpnDataType::Uint32 => if idx + 3 < data.len() {
            Some(data[idx] + data[idx + 1] * 0x100 + data[idx + 2] * 0x1_0000 + data[idx + 3]
                * 0x100_0000)
        } else {
            None
        },
        SpnDataType::Int8 => if idx < data.len() {
            Some(as_signed8(data[idx] as int))
        } else {
            None
        },
        SpnDataType::Int16 => if idx + 1 < data.len() {
            Some(sig16(data[idx] + data[idx + 1] * 0x100))
        } else {
            None
        },
        SpnDataType::Int32 => if idx + 3 < data.len() {
            Some(
                sig32(
                    data[idx] + data[idx + 1] * 0x100 + data[idx + 2] * 0x1_0000 + data[idx + 3]
                        * 0x100_0000,
                ),
            )
        } else {
            None
        },
    }
}

/// The largest raw pattern of the field: all bits set.
pub open spec fn spec_max(def: SpnDef) -> int {
    pow2(def.bit_length as nat) - 1
}

/// Whether the frame carries an available value for the SPN: the field is
/// inside the data and its raw pattern is below `max - 1`.
pub open spec fn spn_available(data: Seq<u8>, def: SpnDef) -> bool {
    match spec_raw(data, def) {
        Some(raw) => raw < spec_max(def) - 1,
        None => false,
    }
}

/// The exact scaled value of a raw field: `raw * scale + offset` as one
/// fraction over the scale denominator.
pub open spec fn spn_value_fr(raw: int, def: SpnDef) -> Fr {
    Fr { n: raw * def.scale_num + def.offset * def.scale_den, d: def.scale_den as int }
}

/// Two raised to `k`, as a machine word.
fn pow2_u64(k: u8) -> (p: u64)
    requires
        k <= 63,
    ensures
        p == pow2(k as nat),
        p >= 1,
{
    let mut p: u64 = 1;
    let mut i: u8 = 0;
    proof {
        vstd::arithmetic::power2::lemma2_to64();
    }
    while i < k
        invariant
            i <= k <= 63,
            p == pow2(i as nat),
            p >= 1,
            p <= 0x8000_0000_0000_0000u64,
        decreases k - i,
    {
        proof {
            vstd::arithmetic::power2::lemma_pow2_strictly_increases(i as nat, 63);
            vstd::arithmetic::power2::lemma2_to64_rest();
            vstd::arithmetic::power2::lemma_pow2_adds(i as nat, 1);
            vstd::arithmetic::power2::lemma2_to64();
        }
        p = p * 2;
        i += 1;
    }
    p
}

/// Decode one SPN from frame data.
///
/// Returns nothing when the frame is too short for the field, and nothing
/// when the raw pattern is `max` or `max - 1`, the not-available sentinels.
/// An available raw pattern of zero therefore decodes exactly to the
/// offset.
pub fn decode_spn(data: &Vec<u8>, def: &SpnDef) -> (r: Option<Rat>)
    requires
        def.wf(),
    ensures
        spec_raw(data@, *def) is None ==> r is None,
        !spn_available(data@, *def) ==> r is None,
        spn_available(data@, *def) ==> (r matches Some(v) && v.wf() && fr_eq(
            fr(v),
            spn_value_fr(spec_raw(data@, *def).unwrap(), *def),
        )),
{
    let idx = def.start_byte as usize;
    let n = data.len();
    // raw extraction, sign-extended into an i64
    let raw: i64 = match def.data_type {
        SpnDataType::Uint8 => {
            if idx >= n {
                return None;
            }
            let sh = pow2_u64(def.start_bit);
            let mk = pow2_u64(def.bit_length);
            proof {
                vstd::arithmetic::power2::lemma2_to64();
                if (def.bit_length as nat) < 8 {
                    vstd::arithmetic::power2::lemma_pow2_strictly_increases(
                        def.bit_length as nat,
                        8,
                    );
                }
            }
            (((data[idx] as u64) / sh) % mk) as i64
        },
        SpnDataType::Uint16 => {
            if idx + 1 >= n {
                return None;
            }
            (data[idx] as i64) + (data[idx + 1] as i64) * 0x100
        },
        SpnDataType::Uint32 => {
            if idx + 3 >= n {
                return None;
            }
            (data[idx] as i64) + (data[idx + 1] as i64) * 0x100 + (data[idx + 2] as i64) * 0x1_0000
                + (data[idx + 3] as i64) * 0x100_0000
        },
        SpnDataType::Int8 => {
            if idx >= n {
                return None;
            }
            let u: i64 = data[idx] as i64;
            if u < 0x80 {
                u
            } else {
                u - 0x100
            }
        },
        SpnDataType::Int16 => {
            if idx + 1 >= n {
                return None;
            }
            let u: i64 = (data[idx] as i64) + (data[idx + 1] as i64) * 0x100;
            if u < 0x8000 {
                u
            } else {
                u - 0x1_0000
            }
        },
        SpnDataType::Int32 => {
            if idx + 3 >= n {
                return None;
            }
            let u: i64 = (data[idx] as i64) + (data[idx + 1] as i64) * 0x100 + (data[idx
                + 2] as i64) * 0x1_0000 + (data[idx + 3] as i64) * 0x100_0000;
            if u < 0x8000_0000 {
                u
            } else {
                u - 0x1_0000_0000
            }
        },
    };
    proof {
        assert(spec_raw(data@, *def) == Some(raw as int));
    }
    // not-available sentinels
    proof {
        vstd::arithmetic::power2::lemma2_to64();
        vstd::arithmetic::power2::lemma2_to64_rest();
        if (def.bit_length as nat) < 32 {
            vstd::arithmetic::power2::lemma_pow2_strictly_increases(def.bit_length as nat, 32);
        }
    }
    let mx: i64 = (pow2_u64(def.bit_length) - 1) as i64;
    if raw >= mx - 1 {
        return None;
    }
    // value = raw * scale + offset, exactly
    proof {
        lemma_spn_value_bounds(raw as int, *def);
    }
    let num: i64 = raw * (def.scale_num as i64) + (def.offset as i64) * (def.scale_den as i64);
    let den: i64 = def.scale_den as i64;
    proof {
        lemma_norm_bounds(num as int, den as int);
    }
    match Rat::new(num, den) {
        Some(v) => Some(v),
        None => {
            proof {
                assert(representable(num as int, den as int));
            }
            None
        },
    }
}

/// The scaled value of a raw field stays comfortably inside the stored
/// range: the numerator and denominator of `raw * scale + offset` fit.
proof fn lemma_spn_value_bounds(raw: int, def: SpnDef)
    by (nonlinear_arith)
    requires
        def.wf(),
        -0x1_0000_0000 <= raw <= 0x1_0000_0000,
    ensures
        -0x7FFF_FFFF_FFFF_FFFF <= raw * def.scale_num + def.offset * def.scale_den
            <= 0x7FFF_FFFF_FFFF_FFFF,
        -0x2000_0000_0000_0000 <= raw * def.scale_num <= 0x2000_0000_0000_0000,
        -0x2000_0000_0000_0000 <= def.offset * def.scale_den <= 0x2000_0000_0000_0000,
{
}

/// Parse a 29-bit extended CAN identifier into priority, parameter group
/// number, PDU-specific byte and source address.
///
/// For PDU2 frames (`pf >= 240`, broadcast) the PGN includes the specific
/// byte; for PDU1 frames it does not, and the specific byte is the
/// destination address.
pub fn parse_can_id(can_id: u32) -> (r: (u8, u32, u8, u8))
    ensures
        r.0 as int == (can_id as int / 0x400_0000) % 8,
        r.1 as int == spec_pgn(can_id),
        r.2 as int == (can_id as int / 0x100) % 0x100,
        r.3 as int == can_id as int % 0x100,
{
    let sa: u8 = (can_id % 0x100) as u8;
    let ps: u8 = ((can_id / 0x100) % 0x100) as u8;
    let pf: u8 = ((can_id / 0x1_0000) % 0x100) as u8;
    let dp: u8 = ((can_id / 0x100_0000) % 2) as u8;
    let priority: u8 = ((can_id / 0x400_0000) % 8) as u8;
    let pgn: u32 = if pf >= 240 {
        (dp as u32) * 0x1_0000 + (pf as u32) * 0x100 + (ps as u32)
    } else {
        (dp as u32) * 0x1_0000 + (pf as u32) * 0x100
    };
    (priority, pgn, ps, sa)
}

/// The parameter group number encoded in a CAN identifier.
pub open spec fn spec_pgn(can_id: u32) -> int {
    let dp = (can_id as int / 0x100_0000) % 2;
    let pf = (can_id as int / 0x1_0000) % 0x100;
    let ps = (can_id as int / 0x100) % 0x100;
    if pf >= 240 {
        dp * 0x1_0000 + pf * 0x100 + ps
    } else {
        dp * 0x1_0000 + pf * 0x100
    }
}

/// Whether every definition list in a PGN map is well-formed and filed
/// under its own parameter group.
pub open spec fn pgn_map_wf(m: Map<u32, Vec<SpnDef>>) -> bool {
    forall|p: u32|
        m.contains_key(p) ==> forall|i: int|
            0 <= i < m[p]@.len() ==> (#[trigger] m[p]@[i]).wf() && m[p]@[i].pgn == p
}

/// Whether the built-in table lists a definition under the parameter
/// group.
pub open spec fn table_has_pgn(defs: Seq<SpnDef>, pgn: u32) -> bool {
    exists|i: int| 0 <= i < defs.len() && (#[trigger] defs[i]).pgn == pgn
}

/// Build the PGN-to-definitions map from the built-in table: the map
/// holds exactly the parameter groups the table lists.
pub fn build_pgn_database() -> (m: HashMap<u32, Vec<SpnDef>>)
    ensures
        pgn_map_wf(m@),
        m@.len() >= 1,
        exists|defs: Seq<SpnDef>|
            {
                &&& #[trigger] spn_table_shape(defs)
                &&& (forall|p: u32| m@.contains_key(p) <==> table_has_pgn(defs, p))
            },
{
    let defs = crate::j1939_table::spn_definitions();
    let mut m: HashMap<u32, Vec<SpnDef>> = HashMap::new();
    let mut i: usize = 0;
    while i < defs.len()
        invariant
            i <= defs@.len(),
            pgn_map_wf(m@),
            forall|k: int| 0 <= k < defs@.len() ==> (#[trigger] defs@[k]).wf(),
            defs@.len() == 86,
            forall|k: int| 0 <= k < i ==> m@.contains_key((#[trigger] defs@[k]).pgn),
            forall|p: u32| m@.contains_key(p) ==> table_has_pgn(defs@.take(i as int), p),
        decreases defs@.len() - i,
    {
        let def = defs[i].clone_def();
        let pgn = def.pgn;
        let mut list = match m.remove(&pgn) {
            Some(v) => v,
            None => Vec::new(),
        };
        proof {
            assert(defs@.take(i + 1).drop_last() =~= defs@.take(i as int));
        }
        list.push(def);
        m.insert(pgn, list);
        proof {
            assert forall|p: u32| m@.contains_key(p) implies table_has_pgn(
                defs@.take(i + 1),
                p,
            ) by {
                if p == defs@[i as int].pgn {
                    assert(defs@.take(i + 1)[i as int].pgn == p);
                } else {
                    let j = choose|j: int|
                        0 <= j < defs@.take(i as int).len() && (#[trigger] defs@.take(
                            i as int,
                        )[j]).pgn == p;
                    assert(defs@.take(i + 1)[j].pgn == p);
                }
            }
        }
        i += 1;
    }
    proof {
        assert(m@.contains_key(defs@[0].pgn));
        if m@.len() == 0 {
            m@.dom().lemma_len0_is_empty();
        }
        assert(defs@.take(defs@.len() as int) =~= defs@);
        assert(spn_table_shape(defs@));
        assert forall|p: u32| m@.contains_key(p) <==> table_has_pgn(defs@, p) by {
            if table_has_pgn(defs@, p) {
                let j = choose|j: int| 0 <= j < defs@.len() && (#[trigger] defs@[j]).pgn == p;
                assert(m@.contains_key(defs@[j].pgn));
            }
        }
    }
    m
}

/// Whether the built-in table lists a definition for the SPN.
pub open spec fn table_has_spn(defs: Seq<SpnDef>, spn: u32) -> bool {
    exists|i: int| 0 <= i < defs.len() && (#[trigger] defs[i]).spn == spn
}

/// Build the SPN-to-definition map from the built-in table: the map holds
/// exactly the SPN numbers the table lists. Where the standard would list
/// one SPN twice, the table already keeps only the first listing; the
/// per-number uniqueness invariant itself is exercised by the tests.
pub fn build_spn_database() -> (m: HashMap<u32, SpnDef>)
    ensures
        forall|k: u32| m@.contains_key(k) ==> (#[trigger] m@[k]).wf() && m@[k].spn == k,
        exists|defs: Seq<SpnDef>|
            {
                &&& #[trigger] spn_table_shape(defs)
                &&& (forall|k: u32| m@.contains_key(k) <==> table_has_spn(defs, k))
            },
{
    let defs = crate::j1939_table::spn_definitions();
    let mut m: HashMap<u32, SpnDef> = HashMap::new();
    let mut i: usize = 0;
    while i < defs.len()
        invariant
            i <= defs@.len(),
            forall|k: u32| m@.contains_key(k) ==> (#[trigger] m@[k]).wf() && m@[k].spn == k,
            forall|k: int| 0 <= k < defs@.len() ==> (#[trigger] defs@[k]).wf(),
            defs@.len() == 86,
            forall|k: u32| m@.contains_key(k) ==> table_has_spn(defs@.take(i as int), k),
            forall|k: int| 0 <= k < i ==> m@.contains_key((#[trigger] defs@[k]).spn),
        decreases defs@.len() - i,
    {
        let def = defs[i].clone_def();
        proof {
            assert(defs@.take(i + 1).drop_last() =~= defs@.take(i as int));
        }
        m.insert(def.spn, def);
        proof {
            assert forall|k: u32| m@.contains_key(k) implies table_has_spn(
                defs@.take(i + 1),
                k,
            ) by {
                if k == defs@[i as int].spn {
                    assert(defs@.take(i + 1)[i as int].spn == k);
                } else {
                    let j = choose|j: int|
                        0 <= j < defs@.take(i as int).len() && (#[trigger] defs@.take(
                            i as int,
                        )[j]).spn == k;
                    assert(defs@.take(i + 1)[j].spn == k);
                }
            }
        }
        i += 1;
    }
    proof {
        assert(defs@.take(defs@.len() as int) =~= defs@);
        assert(spn_table_shape(defs@));
        assert forall|k: u32| m@.contains_key(k) <==> table_has_spn(defs@, k) by {
            if table_has_spn(defs@, k) {
                let j = choose|j: int| 0 <= j < defs@.len() && (#[trigger] defs@[j]).spn == k;
                assert(m@.contains_key(defs@[j].spn));
            }
        }
    }
    m
}

/// The shape of the built-in table: 86 well-formed definitions.
pub open spec fn spn_table_shape(defs: Seq<SpnDef>) -> bool {
    defs.len() == 86 && forall|i: int| 0 <= i < defs.len() ==> (#[trigger] defs[i]).wf()
}

/// All definitions for one parameter group, or nothing when the group is
/// not in the table: a list comes back exactly for the parameter groups
/// the table lists.
pub fn get_spns_for_pgn(pgn: u32) -> (r: Option<Vec<SpnDef>>)
    ensures
        r matches Some(v) ==> forall|i: int|
            0 <= i < v@.len() ==> (#[trigger] v@[i]).wf() && v@[i].pgn == pgn,
        exists|defs: Seq<SpnDef>|
            #[trigger] spn_table_shape(defs) && (r is Some <==> table_has_pgn(defs, pgn)),
{
    let mut m = build_pgn_database();
    m.remove(&pgn)
}

/// The definition of one suspect parameter number, or nothing when it is
/// not in the table: a definition comes back exactly for the SPN numbers
/// the table lists.
pub fn get_spn_def(spn: u32) -> (r: Option<SpnDef>)
    ensures
        r matches Some(d) ==> d.wf() && d.spn == spn,
        exists|defs: Seq<SpnDef>|
            #[trigger] spn_table_shape(defs) && (r is Some <==> table_has_spn(defs, spn)),
{
    let mut m = build_spn_database();
    m.remove(&spn)
}

/// Table statistics: the number of parameter groups and the number of
/// suspect parameter numbers in the built-in table.
///
/// The SPN count is the table size; the group count is the number of
/// distinct parameter groups, at most the SPN count.
pub fn database_stats() -> (r: (usize, usize))
    ensures
        r.1 == 86,
        1 <= r.0 <= r.1,
{
    let m = build_pgn_database();
    let defs = crate::j1939_table::spn_definitions();
    let pgns = m.len();
    let spns = defs.len();
    if pgns <= spns {
        (pgns, spns)
    } else {
        (spns, spns)
    }
}

impl SpnDef {
    /// Copy a definition, field by field.
    pub fn clone_def(&self) -> (r: SpnDef)
        ensures
            r.spn == self.spn,
            r.name@ == self.name@,
            r.pgn == self.pgn,
            r.start_byte == self.start_byte,
            r.start_bit == self.start_bit,
            r.bit_length == self.bit_length,
            r.scale_num == self.scale_num,
            r.scale_den == self.scale_den,
            r.offset == self.offset,
            r.unit@ == self.unit@,
            r.data_type == self.data_type,
            self.wf() ==> r.wf(),
    {
        SpnDef {
            spn: self.spn,
            name: self.name.clone(),
            pgn: self.pgn,
            start_byte: self.start_byte,
            start_bit: self.start_bit,
            bit_length: self.bit_length,
            scale_num: self.scale_num,
            scale_den: self.scale_den,
            offset: self.offset,
            unit: self.unit.clone(),
            data_type: self.data_type,
        }
    }
}

/// J1939 client configuration.
#[derive(Debug, Clone)]
pub struct J1939Config {
    /// CAN interface name, such as `can0`.
    pub can_interface: String,
    /// Source address of the observed device.
    pub source_address: u8,
    /// Our address for sending request PGNs.
    pub our_address: u8,
    /// Request interval for on-demand PGNs, in milliseconds.
    pub request_interval_ms: u64,
}

impl Default for J1939Config {
    /// Listen on `can0` for the engine at address 0.
    fn default() -> (c: J1939Config)
        ensures
            c.can_interface@ == "can0"@,
            c.source_address == 0,
            c.our_address == 0xFE,
            c.request_interval_ms == 1000,
    {
        J1939Config {
            can_interface: String::from_str("can0"),
            source_address: 0x00,
            our_address: 0xFE,
            request_interval_ms: 1000,
        }
    }
}

/// The identifiers and exact values the engine decodes from one frame's
/// data, over a definition list, in list order.
pub open spec fn spec_decode_frame(defs: Seq<SpnDef>, data: Seq<u8>) -> Seq<(u32, Fr)>
    decreases defs.len(),
{
    if defs.len() == 0 {
        Seq::empty()
    } else {
        spec_decode_frame(defs.drop_last(), data) + (if spn_available(data, defs.last()) {
            seq![
                (defs.last().spn, spn_value_fr(spec_raw(data, defs.last()).unwrap(), defs.last())),
            ]
        } else {
            Seq::<(u32, Fr)>::empty()
        })
    }
}

/// Decoding an all-zero frame yields exactly the offset, for every
/// definition whose field lies inside the frame and is wide enough to
/// clear the not-available sentinels: the raw pattern is zero, so the
/// scaled value `0 * scale + offset` is the offset itself.
pub proof fn lemma_zero_frame_decodes_offset(def: SpnDef, data: Seq<u8>)
    requires
        def.wf(),
        forall|i: int| 0 <= i < data.len() ==> data[i] == 0u8,
        spec_raw(data, def) is Some,
        spec_max(def) - 1 > 0,
    ensures
        spec_raw(data, def) == Some(0int),
        spn_available(data, def),
        fr_eq(spn_value_fr(0, def), Fr { n: def.offset as int, d: 1 }),
{
    vstd::arithmetic::power2::lemma_pow2_pos(def.start_bit as nat);
    vstd::arithmetic::power2::lemma_pow2_pos(def.bit_length as nat);
    let sb = pow2(def.start_bit as nat) as int;
    let bl = pow2(def.bit_length as nat) as int;
    let idx = def.start_byte as int;
    match def.data_type {
        SpnDataType::Uint8 => {
            assert(data[idx] == 0);
            assert(0int / sb == 0) by (nonlinear_arith)
                requires
                    sb >= 1,
            ;
            assert(0int % bl == 0) by (nonlinear_arith)
                requires
                    bl >= 1,
            ;
        },
        SpnDataType::Uint16 => {
            assert(data[idx] == 0 && data[idx + 1] == 0);
        },
        SpnDataType::Uint32 => {
            assert(data[idx] == 0 && data[idx + 1] == 0 && data[idx + 2] == 0 && data[idx + 3]
                == 0);
        },
        SpnDataType::Int8 => {
            assert(data[idx] == 0);
        },
        SpnDataType::Int16 => {
            assert(data[idx] == 0 && data[idx + 1] == 0);
        },
        SpnDataType::Int32 => {
            assert(data[idx] == 0 && data[idx + 1] == 0 && data[idx + 2] == 0 && data[idx + 3]
                == 0);
        },
    }
    let v = spn_value_fr(0, def);
    assert(0 * def.scale_num == 0) by (nonlinear_arith);
    assert((def.offset * def.scale_den) * 1 == def.offset * (def.scale_den as int))
        by (nonlinear_arith);
}

/// The cache hits of a lookup: the listed identifiers that are cached
/// and match the requested data type, in list order.
pub open spec fn spec_cache_hits(
    ids: Seq<u32>,
    cache: Map<u32, DataPoint>,
    dt: Option<DataType>,
) -> Seq<u32>
    decreases ids.len(),
{
    if ids.len() == 0 {
        Seq::empty()
    } else {
        spec_cache_hits(ids.drop_last(), cache, dt) + (if cache.contains_key(ids.last()) && (match dt {
            Some(t) => cache[ids.last()].data_type == t,
            None => true,
        }) {
            seq![ids.last()]
        } else {
            Seq::<u32>::empty()
        })
    }
}

/// Whether every point of a batch is selected by a read request.
pub open spec fn batch_selected(b: DataBatch, req: ReadRequest) -> bool {
    &&& forall|i: int|
        0 <= i < b.telemetry@.len() ==> req.selects(
            (#[trigger] b.telemetry@[i]).id,
            b.telemetry@[i].data_type,
        )
    &&& forall|i: int|
        0 <= i < b.signal@.len() ==> req.selects(
            (#[trigger] b.signal@[i]).id,
            b.signal@[i].data_type,
        )
    &&& forall|i: int|
        0 <= i < b.control@.len() ==> req.selects(
            (#[trigger] b.control@[i]).id,
            b.control@[i].data_type,
        )
    &&& forall|i: int|
        0 <= i < b.adjustment@.len() ==> req.selects(
            (#[trigger] b.adjustment@[i]).id,
            b.adjustment@[i].data_type,
        )
}

/// J1939 protocol client: decodes frames of the configured device into
/// telemetry points and keeps the latest value of each parameter.
///
/// The client owns the decision logic only; the caller runs the CAN socket
/// and feeds every received frame to [`J1939Client::handle_frame`].
pub struct J1939Client {
    /// Client configuration.
    pub config: J1939Config,
    /// Parameter definitions by PGN.
    pgn_points: HashMap<u32, Vec<SpnDef>>,
    /// Lifecycle state.
    connection_state: ConnectionState,
    /// Number of frames that produced at least one point.
    read_count: u64,
    /// Number of errors reported by the transport.
    error_count: u64,
    /// Last error message reported by the transport.
    last_error: Option<String>,
    /// Latest decoded value of each parameter, by SPN.
    cached: HashMap<u32, DataPoint>,
    /// The SPNs present in the cache, in first-seen order.
    cached_ids: Vec<u32>,
}

impl J1939Client {
    /// Invariants: the table is well-formed, cached points are well-formed
    /// and keyed by their identifier, and the key list mirrors the cache.
    pub closed spec fn wf(self) -> bool {
        &&& pgn_map_wf(self.pgn_points@)
        &&& forall|k: u32|
            self.cached@.contains_key(k) ==> (#[trigger] self.cached@[k]).wf()
                && self.cached@[k].id == k && self.cached@[k].data_type == DataType::Telemetry
        &&& forall|i: int|
            0 <= i < self.cached_ids@.len() ==> self.cached@.contains_key(
                #[trigger] self.cached_ids@[i],
            )
    }

    /// The cached SPNs, in first-seen order.
    pub closed spec fn spec_cache_ids(self) -> Seq<u32> {
        self.cached_ids@
    }

    /// The decode table: definitions by parameter group.
    pub closed spec fn spec_table(self) -> Map<u32, Vec<SpnDef>> {
        self.pgn_points@
    }

    /// The latest-value cache.
    pub closed spec fn spec_cache(self) -> Map<u32, DataPoint> {
        self.cached@
    }

    /// Current lifecycle state.
    pub closed spec fn spec_state(self) -> ConnectionState {
        self.connection_state
    }

    /// The client configuration.
    pub closed spec fn spec_config(self) -> J1939Config {
        self.config
    }

    /// Number of frames that produced at least one point.
    pub closed spec fn spec_read_count(self) -> u64 {
        self.read_count
    }

    /// Number of transport errors recorded.
    pub closed spec fn spec_error_count(self) -> u64 {
        self.error_count
    }

    /// The last transport error message recorded.
    pub closed spec fn spec_last_error(self) -> Option<String> {
        self.last_error
    }

    /// Create a new client over the built-in parameter table.
    pub fn new(config: J1939Config) -> (c: J1939Client)
        ensures
            c.wf(),
            c.spec_state() == ConnectionState::Disconnected,
            c.spec_config() == config,
    {
        J1939Client {
            config,
            pgn_points: build_pgn_database(),
            connection_state: ConnectionState::Disconnected,
            read_count: 0,
            error_count: 0,
            last_error: None,
            cached: HashMap::new(),
            cached_ids: Vec::new(),
        }
    }

    /// Protocol name.
    pub fn name(&self) -> (s: &'static str)
        ensures
            s@ == "J1939"@,
    {
        "J1939"
    }

    /// The client is event-driven only.
    pub fn supported_modes(&self) -> (m: Vec<CommunicationMode>)
        ensures
            m@ == seq![CommunicationMode::EventDriven],
    {
        let mut v: Vec<CommunicationMode> = Vec::new();
        v.push(CommunicationMode::EventDriven);
        proof {
            assert(v@ =~= seq![CommunicationMode::EventDriven]);
        }
        v
    }

    /// Current connection state.
    pub fn connection_state(&self) -> (s: ConnectionState)
        ensures
            s == self.spec_state(),
    {
        self.connection_state
    }

    /// Mark the transport connected: the caller has opened the CAN socket.
    ///
    /// Moves along `Connecting` to `Connected`, edges of the lifecycle
    /// machine.
    pub fn connect(&mut self)
        requires
            old(self).wf(),
        ensures
            final(self).wf(),
            final(self).spec_state() == ConnectionState::Connected,
            crate::state::valid_transition(
                old(self).spec_state(),
                old(self).spec_state().spec_step(ChannelEvent::ConnectRequested),
            ),
            crate::state::valid_transition(
                old(self).spec_state().spec_step(ChannelEvent::ConnectRequested),
                ConnectionState::Connected,
            ),
            final(self).spec_config() == old(self).spec_config(),
            final(self).spec_cache() == old(self).spec_cache(),
            final(self).spec_table() == old(self).spec_table(),
    {
        let s1 = self.connection_state.step(ChannelEvent::ConnectRequested);
        let s2 = s1.step(ChannelEvent::Established);
        self.connection_state = s2;
    }

    /// Mark the transport disconnected: the caller has stopped the
    /// receive loop. The latest-value cache is preserved.
    pub fn disconnect(&mut self)
        requires
            old(self).wf(),
        ensures
            final(self).wf(),
            final(self).spec_state() == ConnectionState::Disconnected,
            crate::state::valid_transition(old(self).spec_state(), ConnectionState::Disconnected),
            final(self).spec_config() == old(self).spec_config(),
            final(self).spec_cache() == old(self).spec_cache(),
            final(self).spec_table() == old(self).spec_table(),
    {
        self.connection_state = self.connection_state.step(ChannelEvent::DisconnectRequested);
    }

    /// Record a transport error message.
    pub fn record_error(&mut self, msg: &str)
        requires
            old(self).wf(),
        ensures
            final(self).wf(),
            final(self).spec_error_count() as int == (if old(self).spec_error_count() < u64::MAX {
                old(self).spec_error_count() + 1
            } else {
                old(self).spec_error_count() as int
            }),
            final(self).spec_last_error() matches Some(m) && m@ == msg@,
            final(self).spec_cache() == old(self).spec_cache(),
            final(self).spec_state() == old(self).spec_state(),
            final(self).spec_config() == old(self).spec_config(),
    {
        if self.error_count < u64::MAX {
            self.error_count = self.error_count + 1;
        }
        self.last_error = Some(msg.to_owned());
    }

    /// Decode one received frame.
    ///
    /// Frames from other source addresses and unknown parameter groups
    /// produce nothing. Otherwise the available SPNs of the group become
    /// telemetry points in table order, with the SPN as identifier and
    /// the exact scaled value; the batch is returned when nonempty and
    /// the latest-value cache keeps the decoded points.
    pub fn handle_frame(&mut self, can_id: u32, data: &Vec<u8>) -> (r: Option<DataBatch>)
        requires
            old(self).wf(),
        ensures
            final(self).wf(),
            final(self).spec_state() == old(self).spec_state(),
            final(self).spec_config() == old(self).spec_config(),
            final(self).spec_table() == old(self).spec_table(),
            can_id as int % 0x100 != old(self).spec_config().source_address ==> r is None
                && final(self).spec_cache() == old(self).spec_cache(),
            ({
                let pgn = (spec_pgn(can_id) as u32);
                let sa = can_id as int % 0x100;
                (sa == old(self).spec_config().source_address
                    && !old(self).spec_table().contains_key(pgn)) ==> r is None
                    && final(self).spec_cache() == old(self).spec_cache()
            }),
            ({
                let pgn = (spec_pgn(can_id) as u32);
                let sa = can_id as int % 0x100;
                (sa == old(self).spec_config().source_address
                    && old(self).spec_table().contains_key(pgn)) ==> {
                    let decoded = spec_decode_frame(old(self).spec_table()[pgn]@, data@);
                    &&& (decoded.len() == 0 ==> r is None)
                    &&& (decoded.len() > 0 ==> (forall|i: int|
                        0 <= i < decoded.len() ==> final(self).spec_cache().contains_key(
                            (#[trigger] decoded[i]).0,
                        )))
                    &&& (decoded.len() > 0 ==> (r matches Some(b) && b.wf() && b.signal@.len() == 0
                        && b.control@.len() == 0 && b.adjustment@.len() == 0 && b.telemetry@.len()
                        == decoded.len() && (forall|i: int|
                        0 <= i < decoded.len() ==> (#[trigger] b.telemetry@[i]).id == decoded[i].0
                            && b.telemetry@[i].data_type == DataType::Telemetry
                            && b.telemetry@[i].quality == Quality::Good && (b.telemetry@[i].value@
                            matches crate::data::ValueV::Num { n, d } && crate::rat::fr_eq(
                            Fr { n, d },
                            decoded[i].1,
                        )))))
                }
            }),
    {
        let (_prio, pgn, _ps, sa) = parse_can_id(can_id);
        if sa != self.config.source_address {
            return None;
        }
        let defs = match self.pgn_points.get(&pgn) {
            Some(v) => v,
            None => {
                return None;
            },
        };
        let ghost decoded = spec_decode_frame(defs@, data@);
        let mut batch = DataBatch::new();
        let mut i: usize = 0;
        while i < defs.len()
            invariant
                i <= defs@.len(),
                forall|k: int| 0 <= k < defs@.len() ==> (#[trigger] defs@[k]).wf(),
                batch.wf(),
                batch.signal@.len() == 0,
                batch.control@.len() == 0,
                batch.adjustment@.len() == 0,
                batch.telemetry@.len() == spec_decode_frame(defs@.take(i as int), data@).len(),
                forall|k: int|
                    0 <= k < batch.telemetry@.len() ==> {
                        let part = spec_decode_frame(defs@.take(i as int), data@);
                        (#[trigger] batch.telemetry@[k]).id == part[k].0 && batch.telemetry@[k].data_type
                            == DataType::Telemetry && batch.telemetry@[k].quality == Quality::Good
                            && batch.telemetry@[k].wf() && (batch.telemetry@[k].value@
                            matches crate::data::ValueV::Num { n, d } && crate::rat::fr_eq(
                            Fr { n, d },
                            part[k].1,
                        ))
                    },
            decreases defs@.len() - i,
        {
            let def = &defs[i];
            proof {
                assert(defs@.take(i + 1).drop_last() =~= defs@.take(i as int));
                assert(defs@.take(i + 1).last() == defs@[i as int]);
            }
            match decode_spn(data, def) {
                Some(value) => {
                    let point = DataPoint::new(def.spn, DataType::Telemetry, Value::Num(value));
                    batch.add(point);
                },
                None => {},
            }
            i += 1;
        }
        proof {
            assert(defs@.take(defs@.len() as int) =~= defs@);
        }
        if batch.is_empty() {
            return None;
        }
        // refresh the latest-value cache
        let ghost snapshot = batch.telemetry@;
        let mut j: usize = 0;
        while j < batch.telemetry.len()
            invariant
                j <= batch.telemetry@.len(),
                batch.telemetry@ == snapshot,
                forall|k: int|
                    0 <= k < j ==> self.cached@.contains_key((#[trigger] snapshot[k]).id),
                forall|k: u32| old(self).cached@.contains_key(k) ==> self.cached@.contains_key(k),
                batch.signal@.len() == 0,
                batch.control@.len() == 0,
                batch.adjustment@.len() == 0,
                batch.wf(),
                forall|k: int|
                    0 <= k < batch.telemetry@.len() ==> (#[trigger] batch.telemetry@[k]).wf()
                        && batch.telemetry@[k].data_type == DataType::Telemetry,
                forall|k: u32|
                    self.cached@.contains_key(k) ==> (#[trigger] self.cached@[k]).wf()
                        && self.cached@[k].id == k && self.cached@[k].data_type
                        == DataType::Telemetry,
                forall|k: int|
                    0 <= k < self.cached_ids@.len() ==> self.cached@.contains_key(
                        #[trigger] self.cached_ids@[k],
                    ),
                self.connection_state == old(self).connection_state,
                self.config == old(self).config,
                self.pgn_points@ == old(self).pgn_points@,
            decreases batch.telemetry@.len() - j,
        {
            let p = batch.telemetry[j].clone();
            if !self.cached.contains_key(&p.id) {
                self.cached_ids.push(p.id);
            }
            self.cached.insert(p.id, p);
            j += 1;
        }
        if self.read_count < u64::MAX {
            self.read_count = self.read_count + 1;
        }
        proof {
            assert forall|k: int| 0 <= k < decoded.len() implies self.cached@.contains_key(
                (#[trigger] decoded[k]).0,
            ) by {
                assert(batch.telemetry@[k].id == decoded[k].0);
                assert(self.cached@.contains_key(snapshot[k].id));
            }
        }
        Some(batch)
    }

    /// Read the latest cached values matching a request.
    ///
    /// Points come from the latest-value cache: when the request lists
    /// identifiers, the hits in list order; otherwise every cached value
    /// in first-seen order. A requested data type filters either way.
    pub fn read(&self, request: &ReadRequest) -> (r: ReadResponse)
        requires
            self.wf(),
        ensures
            r.failed_count == 0,
            r.data.wf(),
            batch_selected(r.data, *request),
            ({
                let wanted = match request.point_ids {
                    Some(ids) => ids@,
                    None => self.spec_cache_ids(),
                };
                let hits = spec_cache_hits(wanted, self.spec_cache(), request.data_type);
                &&& r.data.signal@.len() == 0
                &&& r.data.control@.len() == 0
                &&& r.data.adjustment@.len() == 0
                &&& r.data.telemetry@.len() == hits.len()
                &&& (forall|i: int|
                    0 <= i < hits.len() ==> (#[trigger] r.data.telemetry@[i])@ == self.spec_cache()[
                    hits[i]]@)
            }),
    {
        let mut batch = DataBatch::new();
        let ghost cache0 = self.cached@;
        let ids: &Vec<u32> = match &request.point_ids {
            Some(v) => v,
            None => &self.cached_ids,
        };
        let mut i: usize = 0;
        while i < ids.len()
            invariant
                i <= ids@.len(),
                self.wf(),
                cache0 == self.cached@,
                batch.wf(),
                batch_selected(batch, *request),
                match request.point_ids {
                    Some(v) => v@ == ids@,
                    None => self.cached_ids@ == ids@,
                },
                batch.signal@.len() == 0,
                batch.control@.len() == 0,
                batch.adjustment@.len() == 0,
                batch.telemetry@.len() == spec_cache_hits(
                    ids@.take(i as int),
                    cache0,
                    request.data_type,
                ).len(),
                forall|k: int|
                    0 <= k < batch.telemetry@.len() ==> {
                        let part = spec_cache_hits(ids@.take(i as int), cache0, request.data_type);
                        (#[trigger] batch.telemetry@[k])@ == cache0[part[k]]@
                    },
            decreases ids@.len() - i,
        {
            let id = ids[i];
            proof {
                assert(ids@.take(i + 1).drop_last() =~= ids@.take(i as int));
                assert(ids@.take(i + 1).last() == ids@[i as int]);
                if request.point_ids is Some {
                    assert(ids@.contains(ids@[i as int]));
                }
            }
            match self.cached.get(&id) {
                Some(p) => {
                    let matches_type = match &request.data_type {
                        Some(t) => p.data_type == *t,
                        None => true,
                    };
                    if matches_type {
                        let q = p.clone();
                        proof {
                            assert(q@ == p@);
                            assert(q.id == p.id && q.data_type == p.data_type);
                        }
                        batch.add(q);
                    }
                },
                None => {},
            }
            i += 1;
        }
        proof {
            assert(ids@.take(ids@.len() as int) =~= ids@);
        }
                ReadResponse::success(batch)
    }

    /// J1939 is listen-only: control commands are not supported.
    pub fn write_control(&mut self, _commands: &Vec<ControlCommand>) -> (r: Result<
        WriteResult,
        GatewayError,
    >)
        ensures
            r matches Err(e) && e is Unsupported,
            *final(self) == *old(self),
    {
        Err(GatewayError::Unsupported(String::from_str("J1939 control requires proprietary PGNs")))
    }

    /// J1939 is listen-only: adjustment commands are not supported.
    pub fn write_adjustment(&mut self, _adjustments: &Vec<AdjustmentCommand>) -> (r: Result<
        WriteResult,
        GatewayError,
    >)
        ensures
            r matches Err(e) && e is Unsupported,
            *final(self) == *old(self),
    {
        Err(
            GatewayError::Unsupported(
                String::from_str("J1939 adjustment requires proprietary PGNs"),
            ),
        )
    }

    /// Diagnostics snapshot.
    pub fn diagnostics(&self) -> (d: Diagnostics)
        ensures
            d.protocol@ == "J1939"@,
            d.connection_state == self.spec_state(),
            d.read_count == self.spec_read_count(),
            d.write_count == 0,
            d.error_count == self.spec_error_count(),
    {
        let mut d = Diagnostics::new("J1939");
        d.connection_state = self.connection_state;
        d.read_count = self.read_count;
        d.error_count = self.error_count;
        d.last_error = match &self.last_error {
            Some(m) => Some(m.clone()),
            None => None,
        };
        let mut extra: Vec<(String, String)> = Vec::new();
        extra.push((String::from_str("can_interface"), self.config.can_interface.clone()));
        d.extra = extra;
        d
    }
}

} // verus!
