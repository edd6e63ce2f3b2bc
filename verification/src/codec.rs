//! Register codec: 16-, 32- and 64-bit values from Modbus register arrays
//! under the four byte orders.
//!
//! A register is a 16-bit word transmitted big-endian. A byte order first
//! optionally reverses the word sequence, then optionally swaps the two
//! bytes inside each word; the arranged byte string is read big-endian.
//! Float formats are carried by their IEEE-754 bit patterns: the codec
//! moves bits, the consumer interprets them.

use crate::point::ByteOrder;
use vstd::prelude::*;

verus! {

/// High byte of a register word.
pub open spec fn word_hi(w: u16) -> u8 {
    (w / 256) as u8
}

/// Low byte of a register word.
pub open spec fn word_lo(w: u16) -> u8 {
    (w % 256) as u8
}

/// The byte string that a register sequence denotes under a byte order.
pub open spec fn spec_arranged_bytes(regs: Seq<u16>, order: ByteOrder) -> Seq<u8> {
    Seq::new(
        2 * regs.len(),
        |i: int|
            {
                let w = if order.spec_words_reversed() {
                    regs[regs.len() - 1 - i / 2]
                } else {
                    regs[i / 2]
                };
                if (i % 2 == 0) == !order.spec_bytes_swapped() {
                    word_hi(w)
                } else {
                    word_lo(w)
                }
            },
    )
}

/// Big-endian value of a byte string.
pub open spec fn be_value(bytes: Seq<u8>) -> int
    decreases bytes.len(),
{
    if bytes.len() == 0 {
        0
    } else {
        be_value(bytes.drop_last()) * 256 + bytes.last()
    }
}

/// The two big-endian bytes of a 16-bit value.
pub open spec fn spec_be2(v: int) -> Seq<u8> {
    seq![((v / 0x100) % 0x100) as u8, (v % 0x100) as u8]
}

/// The four big-endian bytes of a 32-bit value.
pub open spec fn spec_be4(v: int) -> Seq<u8> {
    seq![
        ((v / 0x100_0000) % 0x100) as u8,
        ((v / 0x1_0000) % 0x100) as u8,
        ((v / 0x100) % 0x100) as u8,
        (v % 0x100) as u8,
    ]
}

/// The eight big-endian bytes of a 64-bit value.
pub open spec fn spec_be8(v: int) -> Seq<u8> {
    seq![
        ((v / 0x100_0000_0000_0000) % 0x100) as u8,
        ((v / 0x1_0000_0000_0000) % 0x100) as u8,
        ((v / 0x100_0000_0000) % 0x100) as u8,
        ((v / 0x1_0000_0000) % 0x100) as u8,
        ((v / 0x100_0000) % 0x100) as u8,
        ((v / 0x1_0000) % 0x100) as u8,
        ((v / 0x100) % 0x100) as u8,
        (v % 0x100) as u8,
    ]
}

/// Big-endian value of two explicit bytes.
proof fn lemma_be_value2(b0: u8, b1: u8)
    ensures
        be_value(seq![b0, b1]) == b0 * 0x100 + b1,
{
    let s = seq![b0, b1];
    assert(seq![b0].drop_last() =~= Seq::<u8>::empty());
    assert(be_value(Seq::<u8>::empty()) == 0);
    assert(be_value(seq![b0]) == b0);
    assert(s.drop_last() =~= seq![b0]);
    assert(be_value(s) == be_value(seq![b0]) * 0x100 + b1);
}

/// Big-endian value of four explicit bytes.
proof fn lemma_be_value4(b0: u8, b1: u8, b2: u8, b3: u8)
    ensures
        be_value(seq![b0, b1, b2, b3]) == ((b0 * 0x100 + b1) * 0x100 + b2) * 0x100 + b3,
{
    let s = seq![b0, b1, b2, b3];
    lemma_be_value2(b0, b1);
    assert(seq![b0, b1, b2].drop_last() =~= seq![b0, b1]);
    assert(be_value(seq![b0, b1, b2]) == be_value(seq![b0, b1]) * 0x100 + b2);
    assert(s.drop_last() =~= seq![b0, b1, b2]);
    assert(be_value(s) == be_value(seq![b0, b1, b2]) * 0x100 + b3);
}

/// Big-endian value of eight explicit bytes.
proof fn lemma_be_value8(b0: u8, b1: u8, b2: u8, b3: u8, b4: u8, b5: u8, b6: u8, b7: u8)
    ensures
        be_value(seq![b0, b1, b2, b3, b4, b5, b6, b7]) == ((((((b0 * 0x100 + b1) * 0x100 + b2)
            * 0x100 + b3) * 0x100 + b4) * 0x100 + b5) * 0x100 + b6) * 0x100 + b7,
{
    let s = seq![b0, b1, b2, b3, b4, b5, b6, b7];
    lemma_be_value4(b0, b1, b2, b3);
    assert(seq![b0, b1, b2, b3, b4].drop_last() =~= seq![b0, b1, b2, b3]);
    assert(be_value(seq![b0, b1, b2, b3, b4]) == be_value(seq![b0, b1, b2, b3]) * 0x100 + b4);
    assert(seq![b0, b1, b2, b3, b4, b5].drop_last() =~= seq![b0, b1, b2, b3, b4]);
    assert(be_value(seq![b0, b1, b2, b3, b4, b5]) == be_value(seq![b0, b1, b2, b3, b4]) * 0x100
        + b5);
    assert(seq![b0, b1, b2, b3, b4, b5, b6].drop_last() =~= seq![b0, b1, b2, b3, b4, b5]);
    assert(be_value(seq![b0, b1, b2, b3, b4, b5, b6]) == be_value(seq![b0, b1, b2, b3, b4, b5])
        * 0x100 + b6);
    assert(s.drop_last() =~= seq![b0, b1, b2, b3, b4, b5, b6]);
    assert(be_value(s) == be_value(seq![b0, b1, b2, b3, b4, b5, b6]) * 0x100 + b7);
}

/// Reading back the big-endian bytes of a 16-bit value gives the value:
/// together with the contracts of [`encode_u16`] and [`decode_u16`], the
/// codec round-trips every 16-bit integer under every byte order.
pub proof fn lemma_be_round_trip2(v: u16)
    ensures
        be_value(spec_be2(v as int)) == v,
{
    lemma_be_value2(((v as int / 0x100) % 0x100) as u8, (v as int % 0x100) as u8);
    assert(((v / 0x100) % 0x100) * 0x100 + v % 0x100 == v) by (bit_vector);
}

/// Reading back the big-endian bytes of a 32-bit value gives the value:
/// together with the contracts of [`encode_u32`] and [`decode_u32`], the
/// codec round-trips every 32-bit integer — and so every IEEE-754 single
/// bit pattern — under every byte order.
pub proof fn lemma_be_round_trip4(v: u32)
    ensures
        be_value(spec_be4(v as int)) == v,
{
    let n = v as int;
    lemma_be_value4(
        ((n / 0x100_0000) % 0x100) as u8,
        ((n / 0x1_0000) % 0x100) as u8,
        ((n / 0x100) % 0x100) as u8,
        (n % 0x100) as u8,
    );
    assert((((v / 0x100_0000) % 0x100) * 0x100 + (v / 0x1_0000) % 0x100) * 0x100_00 + ((v / 0x100)
        % 0x100) * 0x100 + v % 0x100 == v + ((v / 0x100_0000) % 0x100) * 0x100_0000 + ((v
        / 0x1_0000) % 0x100) * 0x1_0000 - ((v / 0x100_0000) % 0x100) * 0x100_0000 - ((v / 0x1_0000)
        % 0x100) * 0x1_0000) by (bit_vector);
    assert(((v / 0x100_0000) % 0x100) * 0x100_0000 + ((v / 0x1_0000) % 0x100) * 0x1_0000 + ((v
        / 0x100) % 0x100) * 0x100 + v % 0x100 == v) by (bit_vector);
}

/// Reading back the big-endian bytes of a 64-bit value gives the value:
/// together with the contracts of [`encode_u64`] and [`decode_u64`], the
/// codec round-trips every 64-bit integer — and so every IEEE-754 double
/// bit pattern — under every byte order.
pub proof fn lemma_be_round_trip8(v: u64)
    ensures
        be_value(spec_be8(v as int)) == v,
{
    let n = v as int;
    lemma_be_value8(
        ((n / 0x100_0000_0000_0000) % 0x100) as u8,
        ((n / 0x1_0000_0000_0000) % 0x100) as u8,
        ((n / 0x100_0000_0000) % 0x100) as u8,
        ((n / 0x1_0000_0000) % 0x100) as u8,
        ((n / 0x100_0000) % 0x100) as u8,
        ((n / 0x1_0000) % 0x100) as u8,
        ((n / 0x100) % 0x100) as u8,
        (n % 0x100) as u8,
    );
    assert(((v / 0x100_0000_0000_0000) % 0x100) * 0x100_0000_0000_0000 + ((v / 0x1_0000_0000_0000)
        % 0x100) * 0x1_0000_0000_0000 + ((v / 0x100_0000_0000) % 0x100) * 0x100_0000_0000 + ((v
        / 0x1_0000_0000) % 0x100) * 0x1_0000_0000 + ((v / 0x100_0000) % 0x100) * 0x100_0000 + ((v
        / 0x1_0000) % 0x100) * 0x1_0000 + ((v / 0x100) % 0x100) * 0x100 + v % 0x100 == v)
        by (bit_vector);
}

/// The codec round-trips 16-bit values: registers produced by
/// [`encode_u16`] — any registers whose arranged bytes are the value's
/// big-endian bytes — decode back to the value under the same order.
pub proof fn lemma_codec_round_trip2(v: u16, order: ByteOrder, regs: Seq<u16>)
    requires
        spec_arranged_bytes(regs, order) == spec_be2(v as int),
    ensures
        be_value(spec_arranged_bytes(regs, order)) == v,
{
    lemma_be_round_trip2(v);
}

/// The codec round-trips 32-bit values — and so every IEEE-754 single bit
/// pattern — under every byte order: registers produced by [`encode_u32`]
/// decode back to the value.
pub proof fn lemma_codec_round_trip4(v: u32, order: ByteOrder, regs: Seq<u16>)
    requires
        spec_arranged_bytes(regs, order) == spec_be4(v as int),
    ensures
        be_value(spec_arranged_bytes(regs, order)) == v,
{
    lemma_be_round_trip4(v);
}

/// The codec round-trips 64-bit values — and so every IEEE-754 double bit
/// pattern — under every byte order: registers produced by [`encode_u64`]
/// decode back to the value.
pub proof fn lemma_codec_round_trip8(v: u64, order: ByteOrder, regs: Seq<u16>)
    requires
        spec_arranged_bytes(regs, order) == spec_be8(v as int),
    ensures
        be_value(spec_arranged_bytes(regs, order)) == v,
{
    lemma_be_round_trip8(v);
}

/// Split a register into its two bytes, optionally swapped.
fn word_bytes(w: u16, swapped: bool) -> (r: (u8, u8))
    ensures
        !swapped ==> r.0 == word_hi(w) && r.1 == word_lo(w),
        swapped ==> r.0 == word_lo(w) && r.1 == word_hi(w),
{
    let hi: u8 = (w / 256) as u8;
    let lo: u8 = (w % 256) as u8;
    if swapped {
        (lo, hi)
    } else {
        (hi, lo)
    }
}

/// Whether this order reverses the word sequence.
fn words_reversed(order: ByteOrder) -> (r: bool)
    ensures
        r == order.spec_words_reversed(),
{
    matches!(order, ByteOrder::Dcba | ByteOrder::Cdab)
}

/// Whether this order swaps the bytes inside each word.
fn bytes_swapped(order: ByteOrder) -> (r: bool)
    ensures
        r == order.spec_bytes_swapped(),
{
    matches!(order, ByteOrder::Dcba | ByteOrder::Badc)
}

/// Decode one register as a 16-bit unsigned integer.
pub fn decode_u16(regs: &Vec<u16>, start: usize, order: ByteOrder) -> (v: u16)
    requires
        start + 1 <= regs@.len(),
    ensures
        v as int == be_value(spec_arranged_bytes(regs@.subrange(start as int, start as int + 1), order)),
{
    let sw = bytes_swapped(order);
    let (b0, b1) = word_bytes(regs[start], sw);
    let v: u16 = (b0 as u16) * 0x100 + (b1 as u16);
    proof {
        let s = regs@.subrange(start as int, start as int + 1);
        assert(spec_arranged_bytes(s, order) =~= seq![b0, b1]);
        lemma_be_value2(b0, b1);
    }
    v
}

/// Decode two registers as a 32-bit unsigned integer.
pub fn decode_u32(regs: &Vec<u16>, start: usize, order: ByteOrder) -> (v: u32)
    requires
        start + 2 <= regs@.len(),
    ensures
        v as int == be_value(spec_arranged_bytes(regs@.subrange(start as int, start as int + 2), order)),
{
    proof {
        assert(regs.len() == regs@.len());
    }
    let rev = words_reversed(order);
    let sw = bytes_swapped(order);
    let r0: u16 = regs[start];
    let r1: u16 = regs[start + 1];
    let (w0, w1) = if rev {
        (r1, r0)
    } else {
        (r0, r1)
    };
    let (b0, b1) = word_bytes(w0, sw);
    let (b2, b3) = word_bytes(w1, sw);
    let v: u32 = ((b0 as u32) * 0x100_0000) + ((b1 as u32) * 0x1_0000) + ((b2 as u32) * 0x100) + (
    b3 as u32);
    proof {
        let s = regs@.subrange(start as int, start as int + 2);
        assert(spec_arranged_bytes(s, order) =~= seq![b0, b1, b2, b3]);
        lemma_be_value4(b0, b1, b2, b3);
    }
    v
}

/// Decode four registers as a 64-bit unsigned integer.
pub fn decode_u64(regs: &Vec<u16>, start: usize, order: ByteOrder) -> (v: u64)
    requires
        start + 4 <= regs@.len(),
    ensures
        v as int == be_value(spec_arranged_bytes(regs@.subrange(start as int, start as int + 4), order)),
{
    proof {
        assert(regs.len() == regs@.len());
    }
    let rev = words_reversed(order);
    let sw = bytes_swapped(order);
    let r0: u16 = regs[start];
    let r1: u16 = regs[start + 1];
    let r2: u16 = regs[start + 2];
    let r3: u16 = regs[start + 3];
    let (w0, w1, w2, w3) = if rev {
        (r3, r2, r1, r0)
    } else {
        (r0, r1, r2, r3)
    };
    let (b0, b1) = word_bytes(w0, sw);
    let (b2, b3) = word_bytes(w1, sw);
    let (b4, b5) = word_bytes(w2, sw);
    let (b6, b7) = word_bytes(w3, sw);
    let v: u64 = ((b0 as u64) * 0x100_0000_0000_0000) + ((b1 as u64) * 0x1_0000_0000_0000) + ((
    b2 as u64) * 0x100_0000_0000) + ((b3 as u64) * 0x1_0000_0000) + ((b4 as u64) * 0x100_0000) + ((
    b5 as u64) * 0x1_0000) + ((b6 as u64) * 0x100) + (b7 as u64);
    proof {
        let s = regs@.subrange(start as int, start as int + 4);
        assert(spec_arranged_bytes(s, order) =~= seq![b0, b1, b2, b3, b4, b5, b6, b7]);
        lemma_be_value8(b0, b1, b2, b3, b4, b5, b6, b7);
    }
    v
}

/// The signed reading of a 16-bit pattern.
pub open spec fn as_signed16(u: int) -> int {
    if u < 0x8000 {
        u
    } else {
        u - 0x1_0000
    }
}

/// The signed reading of a 32-bit pattern.
pub open spec fn as_signed32(u: int) -> int {
    if u < 0x8000_0000 {
        u
    } else {
        u - 0x1_0000_0000
    }
}

/// The signed reading of a 64-bit pattern.
pub open spec fn as_signed64(u: int) -> int {
    if u < 0x8000_0000_0000_0000 {
        u
    } else {
        u - 0x1_0000_0000_0000_0000
    }
}

/// Decode one register as a 16-bit signed integer.
pub fn decode_i16(regs: &Vec<u16>, start: usize, order: ByteOrder) -> (v: i16)
    requires
        start + 1 <= regs@.len(),
    ensures
        v as int == as_signed16(
            be_value(spec_arranged_bytes(regs@.subrange(start as int, start as int + 1), order)),
        ),
{
    let u = decode_u16(regs, start, order);
    proof {
        assert(u as i16 as int == (if u < 0x8000 {
            u as int
        } else {
            u - 0x1_0000
        })) by (bit_vector);
    }
    u as i16
}

/// Decode two registers as a 32-bit signed integer.
pub fn decode_i32(regs: &Vec<u16>, start: usize, order: ByteOrder) -> (v: i32)
    requires
        start + 2 <= regs@.len(),
    ensures
        v as int == as_signed32(
            be_value(spec_arranged_bytes(regs@.subrange(start as int, start as int + 2), order)),
        ),
{
    let u = decode_u32(regs, start, order);
    proof {
        assert(u as i32 as int == (if u < 0x8000_0000 {
            u as int
        } else {
            u - 0x1_0000_0000
        })) by (bit_vector);
    }
    u as i32
}

/// Decode four registers as a 64-bit signed integer.
pub fn decode_i64(regs: &Vec<u16>, start: usize, order: ByteOrder) -> (v: i64)
    requires
        start + 4 <= regs@.len(),
    ensures
        v as int == as_signed64(
            be_value(spec_arranged_bytes(regs@.subrange(start as int, start as int + 4), order)),
        ),
{
    let u = decode_u64(regs, start, order);
    proof {
        assert(u as i64 as int == (if u < 0x8000_0000_0000_0000 {
            u as int
        } else {
            u - 0x1_0000_0000_0000_0000
        })) by (bit_vector);
    }
    u as i64
}

/// Decode two registers as the bit pattern of an IEEE-754 single.
pub fn decode_f32_bits(regs: &Vec<u16>, start: usize, order: ByteOrder) -> (v: u32)
    requires
        start + 2 <= regs@.len(),
    ensures
        v as int == be_value(spec_arranged_bytes(regs@.subrange(start as int, start as int + 2), order)),
{
    decode_u32(regs, start, order)
}

/// Decode four registers as the bit pattern of an IEEE-754 double.
pub fn decode_f64_bits(regs: &Vec<u16>, start: usize, order: ByteOrder) -> (v: u64)
    requires
        start + 4 <= regs@.len(),
    ensures
        v as int == be_value(spec_arranged_bytes(regs@.subrange(start as int, start as int + 4), order)),
{
    decode_u64(regs, start, order)
}

/// Build one register holding the two arranged bytes.
fn word_of_bytes(first: u8, second: u8, swapped: bool) -> (w: u16)
    ensures
        !swapped ==> word_hi(w) == first && word_lo(w) == second,
        swapped ==> word_hi(w) == second && word_lo(w) == first,
{
    if swapped {
        (second as u16) * 0x100 + (first as u16)
    } else {
        (first as u16) * 0x100 + (second as u16)
    }
}

/// Encode a 16-bit unsigned integer into one register.
pub fn encode_u16(v: u16, order: ByteOrder) -> (r: Vec<u16>)
    ensures
        r@.len() == 1,
        spec_arranged_bytes(r@, order) == spec_be2(v as int),
{
    let b0: u8 = (v / 0x100) as u8;
    let b1: u8 = (v % 0x100) as u8;
    let sw = bytes_swapped(order);
    let w = word_of_bytes(b0, b1, sw);
    let mut out: Vec<u16> = Vec::new();
    out.push(w);
    proof {
        assert(spec_arranged_bytes(out@, order) =~= spec_be2(v as int));
    }
    out
}

/// Encode a 32-bit unsigned integer into two registers.
pub fn encode_u32(v: u32, order: ByteOrder) -> (r: Vec<u16>)
    ensures
        r@.len() == 2,
        spec_arranged_bytes(r@, order) == spec_be4(v as int),
{
    let b0: u8 = (v / 0x100_0000) as u8;
    let b1: u8 = ((v / 0x1_0000) % 0x100) as u8;
    let b2: u8 = ((v / 0x100) % 0x100) as u8;
    let b3: u8 = (v % 0x100) as u8;
    proof {
        assert(v / 0x100_0000 < 0x100) by (bit_vector);
    }
    let rev = words_reversed(order);
    let sw = bytes_swapped(order);
    let w0 = word_of_bytes(b0, b1, sw);
    let w1 = word_of_bytes(b2, b3, sw);
    let mut out: Vec<u16> = Vec::new();
    if rev {
        out.push(w1);
        out.push(w0);
    } else {
        out.push(w0);
        out.push(w1);
    }
    proof {
        assert(spec_arranged_bytes(out@, order) =~= spec_be4(v as int));
    }
    out
}

/// Encode a 64-bit unsigned integer into four registers.
pub fn encode_u64(v: u64, order: ByteOrder) -> (r: Vec<u16>)
    ensures
        r@.len() == 4,
        spec_arranged_bytes(r@, order) == spec_be8(v as int),
{
    let b0: u8 = (v / 0x100_0000_0000_0000) as u8;
    let b1: u8 = ((v / 0x1_0000_0000_0000) % 0x100) as u8;
    let b2: u8 = ((v / 0x100_0000_0000) % 0x100) as u8;
    let b3: u8 = ((v / 0x1_0000_0000) % 0x100) as u8;
    let b4: u8 = ((v / 0x100_0000) % 0x100) as u8;
    let b5: u8 = ((v / 0x1_0000) % 0x100) as u8;
    let b6: u8 = ((v / 0x100) % 0x100) as u8;
    let b7: u8 = (v % 0x100) as u8;
    proof {
        assert(v / 0x100_0000_0000_0000 < 0x100) by (bit_vector);
    }
    let rev = words_reversed(order);
    let sw = bytes_swapped(order);
    let w0 = word_of_bytes(b0, b1, sw);
    let w1 = word_of_bytes(b2, b3, sw);
    let w2 = word_of_bytes(b4, b5, sw);
    let w3 = word_of_bytes(b6, b7, sw);
    let mut out: Vec<u16> = Vec::new();
    if rev {
        out.push(w3);
        out.push(w2);
        out.push(w1);
        out.push(w0);
    } else {
        out.push(w0);
        out.push(w1);
        out.push(w2);
        out.push(w3);
    }
    proof {
        assert(spec_arranged_bytes(out@, order) =~= spec_be8(v as int));
    }
    out
}

/// Encode the bit pattern of an IEEE-754 single into two registers.
pub fn encode_f32_bits(bits: u32, order: ByteOrder) -> (r: Vec<u16>)
    ensures
        r@.len() == 2,
        spec_arranged_bytes(r@, order) == spec_be4(bits as int),
{
    encode_u32(bits, order)
}

/// Encode the bit pattern of an IEEE-754 double into four registers.
pub fn encode_f64_bits(bits: u64, order: ByteOrder) -> (r: Vec<u16>)
    ensures
        r@.len() == 4,
        spec_arranged_bytes(r@, order) == spec_be8(bits as int),
{
    encode_u64(bits, order)
}

} // verus!
