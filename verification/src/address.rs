//! Shorthand address parsing.
//!
//! Converts per-protocol shorthand address strings into
//! [`ProtocolAddress`] values: `slave:register[:fc]` for Modbus,
//! `ioa[:type_id]` for IEC 104, `[ns=N;]i=...` for OPC UA, `pin`,
//! `chip:pin` or `chip:pin:direction` for GPIO, a raw string for CAN and a
//! plain tag for virtual points.

use crate::error::GatewayError;
use crate::point::{
    GpioAddress, GpioDirection, Iec104Address, ModbusAddress, OpcUaAddress, ProtocolAddress,
    VirtualAddress,
};
use crate::point::{ByteOrder, DataFormat};
use vstd::prelude::*;

verus! {

/// Whether a character is an ASCII decimal digit.
pub open spec fn is_digit(c: char) -> bool {
    48 <= c as u32 <= 57
}

/// Whether every character in `s[from..to]` is a decimal digit.
pub open spec fn digits_in(s: Seq<char>, from: int, to: int) -> bool {
    forall|j: int| from <= j < to ==> is_digit(#[trigger] s[j])
}

/// Decimal value of a digit string.
pub open spec fn dec_value(s: Seq<char>) -> int
    decreases s.len(),
{
    if s.len() == 0 {
        0
    } else {
        dec_value(s.drop_last()) * 10 + (s.last() as u32 - 48)
    }
}

/// A nonempty all-digit segment whose value is at most `max`.
pub open spec fn seg_number(s: Seq<char>, from: int, to: int, max: int) -> bool {
    &&& from < to
    &&& digits_in(s, from, to)
    &&& dec_value(s.subrange(from, to)) <= max
}

/// First position of `c` in `s` at or after `from`; the length if absent.
pub open spec fn spec_find(s: Seq<char>, from: int, c: char) -> int
    decreases s.len() - from,
{
    if from < 0 || from >= s.len() {
        s.len() as int
    } else if s[from] == c {
        from
    } else {
        spec_find(s, from + 1, c)
    }
}

/// The value of a digit string is never negative.
proof fn lemma_dec_nonneg(s: Seq<char>)
    requires
        digits_in(s, 0, s.len() as int),
    ensures
        dec_value(s) >= 0,
    decreases s.len(),
{
    if s.len() > 0 {
        assert(digits_in(s.drop_last(), 0, s.drop_last().len() as int));
        lemma_dec_nonneg(s.drop_last());
    }
}

/// A digit string is worth at least any of its prefixes.
proof fn lemma_dec_prefix(s: Seq<char>, k: int)
    requires
        digits_in(s, 0, s.len() as int),
        0 <= k <= s.len(),
    ensures
        dec_value(s.take(k)) <= dec_value(s),
    decreases s.len() - k,
{
    if k == s.len() {
        assert(s.take(k) =~= s);
    } else {
        lemma_dec_prefix(s, k + 1);
        assert(s.take(k + 1).drop_last() =~= s.take(k));
        assert(dec_value(s.take(k + 1)) == dec_value(s.take(k)) * 10 + (s[k] as u32 - 48));
        assert(digits_in(s.take(k), 0, k));
        lemma_dec_nonneg(s.take(k));
    }
}

/// Find the first `c` in `s` at or after `from`.
pub(crate) fn find_char(s: &str, from: usize, c: char) -> (i: usize)
    requires
        from <= s@.len(),
    ensures
        i == spec_find(s@, from as int, c),
        from <= i <= s@.len(),
        i < s@.len() ==> s@[i as int] == c,
{
    let n = s.unicode_len();
    let mut i: usize = from;
    while i < n
        invariant
            from <= i <= n,
            n == s@.len(),
            spec_find(s@, from as int, c) == spec_find(s@, i as int, c),
        decreases n - i,
    {
        if s.get_char(i) == c {
            return i;
        }
        i += 1;
    }
    i
}

/// Parse the digit segment `s[from..to]` as a number at most `max`.
///
/// Returns a value exactly when the segment is nonempty, all digits, and
/// its decimal value fits.
pub(crate) fn parse_number(s: &str, from: usize, to: usize, max: u32) -> (r: Option<u32>)
    requires
        from <= to <= s@.len(),
    ensures
        match r {
            Some(v) => seg_number(s@, from as int, to as int, max as int) && v as int == dec_value(
                s@.subrange(from as int, to as int),
            ) && v <= max,
            None => !seg_number(s@, from as int, to as int, max as int),
        },
{
    if from == to {
        return None;
    }
    let ghost seg = s@.subrange(from as int, to as int);
    let mut acc: u64 = 0;
    let mut i: usize = from;
    while i < to
        invariant
            from <= i <= to <= s@.len(),
            seg == s@.subrange(from as int, to as int),
            digits_in(s@, from as int, i as int),
            acc as int == dec_value(s@.subrange(from as int, i as int)),
            acc <= max,
            max <= u32::MAX,
        decreases to - i,
    {
        let c = s.get_char(i);
        let cu = c as u32;
        if cu < 48 || cu > 57 {
            assert(!is_digit(s@[i as int]));
            return None;
        }
        let d: u64 = (cu - 48) as u64;
        acc = acc * 10 + d;
        proof {
            assert(s@.subrange(from as int, i + 1 as int).drop_last() =~= s@.subrange(
                from as int,
                i as int,
            ));
        }
        i += 1;
        if acc > max as u64 {
            proof {
                if seg_number(s@, from as int, to as int, max as int) {
                    assert(digits_in(seg, 0, seg.len() as int));
                    lemma_dec_prefix(seg, i - from);
                    assert(seg.take(i - from) =~= s@.subrange(from as int, i as int));
                }
            }
            return None;
        }
    }
    proof {
        assert(s@.subrange(from as int, to as int) =~= seg);
    }
    Some(acc as u32)
}

/// Whether `c` is `k` or its uppercase form, `k` being a lowercase ASCII
/// letter.
pub open spec fn char_matches_lower(c: char, k: char) -> bool {
    c == k || c as u32 + 32 == k as u32
}

/// Case-insensitive match of `s` against a lowercase ASCII keyword.
pub open spec fn matches_keyword(s: Seq<char>, kw: Seq<char>) -> bool {
    &&& s.len() == kw.len()
    &&& forall|i: int| 0 <= i < s.len() ==> char_matches_lower(#[trigger] s[i], kw[i])
}

/// Case-insensitive comparison of `s[from..to]` against a lowercase ASCII
/// keyword.
fn segment_matches(s: &str, from: usize, to: usize, kw: &str) -> (r: bool)
    requires
        from <= to <= s@.len(),
    ensures
        r == matches_keyword(s@.subrange(from as int, to as int), kw@),
{
    let n = kw.unicode_len();
    if to - from != n {
        return false;
    }
    let mut i: usize = 0;
    while i < n
        invariant
            0 <= i <= n,
            n == kw@.len(),
            from + n <= to <= s@.len(),
            to - from == n,
            forall|j: int|
                0 <= j < i ==> char_matches_lower(
                    #[trigger] s@.subrange(from as int, to as int)[j],
                    kw@[j],
                ),
        decreases n - i,
    {
        let c = s.get_char(from + i);
        let k = kw.get_char(i);
        let cu = c as u32;
        let ku = k as u32;
        if !(cu == ku || (cu + 32 == ku)) {
            assert(!char_matches_lower(s@.subrange(from as int, to as int)[i as int], kw@[i as int]));
            return false;
        }
        assert(char_matches_lower(s@.subrange(from as int, to as int)[i as int], kw@[i as int]));
        i += 1;
    }
    true
}

/// Case-insensitive comparison of a whole string against a lowercase ASCII
/// keyword.
pub fn str_matches_keyword(s: &str, kw: &str) -> (r: bool)
    ensures
        r == matches_keyword(s@, kw@),
{
    let n = s.unicode_len();
    let r = segment_matches(s, 0, n, kw);
    proof {
        assert(s@.subrange(0, s@.len() as int) =~= s@);
    }
    r
}

/// The Modbus shorthand grammar accepts `slave:register` and
/// `slave:register:fc`, all parts decimal.
pub open spec fn modbus_shorthand_valid(s: Seq<char>) -> bool {
    let i = spec_find(s, 0, ':');
    let j = spec_find(s, i + 1, ':');
    let k = spec_find(s, j + 1, ':');
    &&& i < s.len()
    &&& seg_number(s, 0, i, 255)
    &&& seg_number(s, i + 1, j, 65535)
    &&& (j == s.len() || (k == s.len() && seg_number(s, j + 1, s.len() as int, 255)))
}

/// The address a valid Modbus shorthand denotes: default function code 3,
/// format `UInt16`, byte order `ABCD`, no bit position.
pub open spec fn modbus_shorthand_addr(s: Seq<char>, a: ModbusAddress) -> bool {
    let i = spec_find(s, 0, ':');
    let j = spec_find(s, i + 1, ':');
    &&& a.slave_id as int == dec_value(s.subrange(0, i))
    &&& a.register as int == dec_value(s.subrange(i + 1, j))
    &&& a.function_code as int == (if j == s.len() {
        3
    } else {
        dec_value(s.subrange(j + 1, s.len() as int))
    })
    &&& a.format == DataFormat::UInt16
    &&& a.byte_order == ByteOrder::Abcd
    &&& a.bit_position is None
}

/// Parse a Modbus shorthand address: `slave:register` or
/// `slave:register:function_code`.
pub fn parse_modbus_address(address: &str) -> (r: Result<ProtocolAddress, GatewayError>)
    ensures
        r is Ok <==> modbus_shorthand_valid(address@),
        r matches Ok(p) ==> p matches ProtocolAddress::Modbus(a) && modbus_shorthand_addr(
            address@,
            a,
        ),
        r matches Err(e) ==> e is Config,
{
    let n = address.unicode_len();
    let i = find_char(address, 0, ':');
    if i == n {
        return Err(GatewayError::config("invalid Modbus address: expected slave:register"));
    }
    let j = find_char(address, i + 1, ':');
    let slave = match parse_number(address, 0, i, 255) {
        Some(v) => v,
        None => {
            return Err(GatewayError::config("invalid Modbus slave id"));
        },
    };
    let register = match parse_number(address, i + 1, j, 65535) {
        Some(v) => v,
        None => {
            return Err(GatewayError::config("invalid Modbus register"));
        },
    };
    let fc: u32 = if j == n {
        3
    } else {
        let k = find_char(address, j + 1, ':');
        if k != n {
            return Err(GatewayError::config("invalid Modbus address: too many parts"));
        }
        match parse_number(address, j + 1, n, 255) {
            Some(v) => v,
            None => {
                return Err(GatewayError::config("invalid Modbus function code"));
            },
        }
    };
    Ok(
        ProtocolAddress::Modbus(
            ModbusAddress {
                slave_id: slave as u8,
                function_code: fc as u8,
                register: register as u16,
                format: DataFormat::UInt16,
                byte_order: ByteOrder::Abcd,
                bit_position: None,
            },
        ),
    )
}

/// The IEC 104 shorthand grammar accepts `ioa` and `ioa:type_id`.
pub open spec fn iec104_shorthand_valid(s: Seq<char>) -> bool {
    let i = spec_find(s, 0, ':');
    let j = spec_find(s, i + 1, ':');
    &&& seg_number(s, 0, i, 0xFFFF_FFFF)
    &&& (i == s.len() || (j == s.len() && seg_number(s, i + 1, s.len() as int, 255)))
}

/// The address a valid IEC 104 shorthand denotes: type identifier 0 when
/// absent, common address 1.
pub open spec fn iec104_shorthand_addr(s: Seq<char>, a: Iec104Address) -> bool {
    let i = spec_find(s, 0, ':');
    &&& a.ioa as int == dec_value(s.subrange(0, i))
    &&& a.type_id as int == (if i == s.len() {
        0
    } else {
        dec_value(s.subrange(i + 1, s.len() as int))
    })
    &&& a.common_address == 1u16
}

/// Parse an IEC 104 shorthand address: `ioa` or `ioa:type_id`.
pub fn parse_iec104_address(address: &str) -> (r: Result<ProtocolAddress, GatewayError>)
    ensures
        r is Ok <==> iec104_shorthand_valid(address@),
        r matches Ok(p) ==> p matches ProtocolAddress::Iec104(a) && iec104_shorthand_addr(
            address@,
            a,
        ),
        r matches Err(e) ==> e is Config,
{
    let n = address.unicode_len();
    let i = find_char(address, 0, ':');
    let ioa = match parse_number(address, 0, i, 0xFFFF_FFFF) {
        Some(v) => v,
        None => {
            return Err(GatewayError::config("invalid IEC 104 information object address"));
        },
    };
    let type_id: u32 = if i == n {
        0
    } else {
        let j = find_char(address, i + 1, ':');
        if j != n {
            return Err(GatewayError::config("invalid IEC 104 address: too many parts"));
        }
        match parse_number(address, i + 1, n, 255) {
            Some(v) => v,
            None => {
                return Err(GatewayError::config("invalid IEC 104 type identifier"));
            },
        }
    };
    Ok(
        ProtocolAddress::Iec104(
            Iec104Address { ioa, type_id: type_id as u8, common_address: 1 },
        ),
    )
}

/// Whether `s[from..]` opens with a node-identifier prefix: `i=`, `s=`,
/// `g=` or `b=`.
pub open spec fn opcua_node_prefix(s: Seq<char>, from: int) -> bool {
    &&& from + 2 <= s.len()
    &&& (s[from] == 'i' || s[from] == 's' || s[from] == 'g' || s[from] == 'b')
    &&& s[from + 1] == '='
}

/// Whether the address opens with the namespace marker `ns=`.
pub open spec fn opcua_has_ns(s: Seq<char>) -> bool {
    s.len() >= 3 && s[0] == 'n' && s[1] == 's' && s[2] == '='
}

/// The OPC UA shorthand grammar: a node identifier, optionally preceded by
/// `ns=N;`.
pub open spec fn opcua_shorthand_valid(s: Seq<char>) -> bool {
    if opcua_has_ns(s) {
        let semi = spec_find(s, 0, ';');
        &&& semi < s.len()
        &&& seg_number(s, 3, semi, 65535)
        &&& opcua_node_prefix(s, semi + 1)
    } else {
        opcua_node_prefix(s, 0)
    }
}

/// The address a valid OPC UA shorthand denotes: the node identifier with
/// the namespace prefix stripped, namespace 0 when absent.
pub open spec fn opcua_shorthand_addr(s: Seq<char>, a: OpcUaAddress) -> bool {
    if opcua_has_ns(s) {
        let semi = spec_find(s, 0, ';');
        &&& a.namespace_index as int == dec_value(s.subrange(3, semi))
        &&& a.node_id@ == s.subrange(semi + 1, s.len() as int)
    } else {
        &&& a.namespace_index == 0u16
        &&& a.node_id@ == s
    }
}

/// Parse an OPC UA shorthand address: `i=N`, `s=Name`, `g=GUID` or
/// `b=Base64`, optionally prefixed by `ns=N;`.
pub fn parse_opcua_address(address: &str) -> (r: Result<ProtocolAddress, GatewayError>)
    ensures
        r is Ok <==> opcua_shorthand_valid(address@),
        r matches Ok(p) ==> p matches ProtocolAddress::OpcUa(a) && opcua_shorthand_addr(
            address@,
            a,
        ),
        r matches Err(e) ==> e is Config,
{
    let n = address.unicode_len();
    let has_ns = n >= 3 && address.get_char(0) == 'n' && address.get_char(1) == 's'
        && address.get_char(2) == '=';
    let (ns, node_from): (u32, usize) = if has_ns {
        let semi = find_char(address, 0, ';');
        if semi == n {
            return Err(GatewayError::config("invalid OPC UA address: missing semicolon"));
        }
        let ns = match parse_number(address, 3, semi, 65535) {
            Some(v) => v,
            None => {
                return Err(GatewayError::config("invalid OPC UA namespace index"));
            },
        };
        (ns, semi + 1)
    } else {
        (0, 0)
    };
    if n - node_from < 2 {
        return Err(GatewayError::config("invalid OPC UA node identifier"));
    }
    let c0 = address.get_char(node_from);
    let c1 = address.get_char(node_from + 1);
    if !((c0 == 'i' || c0 == 's' || c0 == 'g' || c0 == 'b') && c1 == '=') {
        return Err(GatewayError::config("invalid OPC UA node identifier prefix"));
    }
    let node = address.substring_char(node_from, n).to_owned();
    proof {
        if !has_ns {
            assert(address@.subrange(0, address@.len() as int) =~= address@);
        }
    }
    Ok(ProtocolAddress::OpcUa(OpcUaAddress { node_id: node, namespace_index: ns as u16 }))
}

/// Parse a CAN shorthand address.
///
/// CAN addresses are kept verbatim as generic strings; their canonical
/// interpretation is the J1939 decoder's, driven by its parameter table.
pub fn parse_can_address(address: &str) -> (r: Result<ProtocolAddress, GatewayError>)
    ensures
        r matches Ok(p) && (p matches ProtocolAddress::Generic(g) && g@ == address@),
{
    Ok(ProtocolAddress::Generic(address.to_owned()))
}

/// The GPIO shorthand grammar: `pin`, `chip:pin` or `chip:pin:direction`,
/// the direction one of the input or output keywords.
pub open spec fn gpio_shorthand_valid(s: Seq<char>) -> bool {
    let i = spec_find(s, 0, ':');
    let j = spec_find(s, i + 1, ':');
    let k = spec_find(s, j + 1, ':');
    if i == s.len() {
        seg_number(s, 0, s.len() as int, 0xFFFF_FFFF)
    } else if j == s.len() {
        seg_number(s, i + 1, s.len() as int, 0xFFFF_FFFF)
    } else {
        &&& k == s.len()
        &&& seg_number(s, i + 1, j, 0xFFFF_FFFF)
        &&& (gpio_dir_input(s, j + 1) || gpio_dir_output(s, j + 1))
    }
}

/// Whether `s[from..]` is one of the input keywords: `input`, `in`, `di`.
pub open spec fn gpio_dir_input(s: Seq<char>, from: int) -> bool {
    ||| matches_keyword(s.subrange(from, s.len() as int), "input"@)
    ||| matches_keyword(s.subrange(from, s.len() as int), "in"@)
    ||| matches_keyword(s.subrange(from, s.len() as int), "di"@)
}

/// Whether `s[from..]` is one of the output keywords: `output`, `out`,
/// `do`.
pub open spec fn gpio_dir_output(s: Seq<char>, from: int) -> bool {
    ||| matches_keyword(s.subrange(from, s.len() as int), "output"@)
    ||| matches_keyword(s.subrange(from, s.len() as int), "out"@)
    ||| matches_keyword(s.subrange(from, s.len() as int), "do"@)
}

/// The address a valid GPIO shorthand denotes: default chip `gpiochip0`,
/// default direction input, never active-low.
pub open spec fn gpio_shorthand_addr(s: Seq<char>, a: GpioAddress) -> bool {
    let i = spec_find(s, 0, ':');
    let j = spec_find(s, i + 1, ':');
    if i == s.len() {
        &&& a.chip@ == "gpiochip0"@
        &&& a.pin as int == dec_value(s)
        &&& a.direction == GpioDirection::Input
        &&& !a.active_low
    } else {
        &&& a.chip@ == s.subrange(0, i)
        &&& a.pin as int == dec_value(s.subrange(i + 1, j))
        &&& a.direction == (if j == s.len() || gpio_dir_input(s, j + 1) {
            GpioDirection::Input
        } else {
            GpioDirection::Output
        })
        &&& !a.active_low
    }
}

/// Parse a GPIO shorthand address: `pin`, `chip:pin` or
/// `chip:pin:direction`.
pub fn parse_gpio_address(address: &str) -> (r: Result<ProtocolAddress, GatewayError>)
    ensures
        r is Ok <==> gpio_shorthand_valid(address@),
        r matches Ok(p) ==> p matches ProtocolAddress::Gpio(a) && gpio_shorthand_addr(address@, a),
        r matches Err(e) ==> e is Config,
{
    let n = address.unicode_len();
    let i = find_char(address, 0, ':');
    if i == n {
        let pin = match parse_number(address, 0, n, 0xFFFF_FFFF) {
            Some(v) => v,
            None => {
                return Err(GatewayError::config("invalid GPIO pin"));
            },
        };
        proof {
            assert(address@.subrange(0, address@.len() as int) =~= address@);
        }
        return Ok(
            ProtocolAddress::Gpio(GpioAddress::digital_input(String::from_str("gpiochip0"), pin)),
        );
    }
    let j = find_char(address, i + 1, ':');
    let pin = match parse_number(address, i + 1, j, 0xFFFF_FFFF) {
        Some(v) => v,
        None => {
            return Err(GatewayError::config("invalid GPIO pin"));
        },
    };
    let chip = address.substring_char(0, i).to_owned();
    if j == n {
        return Ok(ProtocolAddress::Gpio(GpioAddress::digital_input(chip, pin)));
    }
    let k = find_char(address, j + 1, ':');
    if k != n {
        return Err(GatewayError::config("invalid GPIO address: too many parts"));
    }
    let is_input = segment_matches(address, j + 1, n, "input") || segment_matches(
        address,
        j + 1,
        n,
        "in",
    ) || segment_matches(address, j + 1, n, "di");
    if is_input {
        return Ok(ProtocolAddress::Gpio(GpioAddress::digital_input(chip, pin)));
    }
    let is_output = segment_matches(address, j + 1, n, "output") || segment_matches(
        address,
        j + 1,
        n,
        "out",
    ) || segment_matches(address, j + 1, n, "do");
    if is_output {
        return Ok(ProtocolAddress::Gpio(GpioAddress::digital_output(chip, pin)));
    }
    Err(GatewayError::config("invalid GPIO direction"))
}

/// Parse a shorthand address for the named protocol. The protocol keyword
/// is matched case-insensitively; an unknown protocol is a configuration
/// error.
pub fn parse_address(protocol: &str, address: &str) -> (r: Result<ProtocolAddress, GatewayError>)
    ensures
        matches_keyword(protocol@, "modbus"@) ==> (r is Ok <==> modbus_shorthand_valid(address@))
            && (r matches Ok(p) ==> p matches ProtocolAddress::Modbus(a) && modbus_shorthand_addr(
            address@,
            a,
        )),
        matches_keyword(protocol@, "iec104"@) ==> (r is Ok <==> iec104_shorthand_valid(address@))
            && (r matches Ok(p) ==> p matches ProtocolAddress::Iec104(a) && iec104_shorthand_addr(
            address@,
            a,
        )),
        matches_keyword(protocol@, "opcua"@) ==> (r is Ok <==> opcua_shorthand_valid(address@)) && (
        r matches Ok(p) ==> p matches ProtocolAddress::OpcUa(a) && opcua_shorthand_addr(
            address@,
            a,
        )),
        matches_keyword(protocol@, "can"@) ==> (r matches Ok(p) && (p
            matches ProtocolAddress::Generic(g) && g@ == address@)),
        matches_keyword(protocol@, "gpio"@) ==> (r is Ok <==> gpio_shorthand_valid(address@)) && (
        r matches Ok(p) ==> p matches ProtocolAddress::Gpio(a) && gpio_shorthand_addr(address@, a)),
        matches_keyword(protocol@, "virtual"@) ==> (r matches Ok(p) && (p
            matches ProtocolAddress::Virtual(v) && v.group is None && v.tag@ == address@)),
        r matches Err(e) ==> e is Config,
        !(matches_keyword(protocol@, "modbus"@) || matches_keyword(protocol@, "iec104"@)
            || matches_keyword(protocol@, "opcua"@) || matches_keyword(protocol@, "can"@)
            || matches_keyword(protocol@, "gpio"@) || matches_keyword(protocol@, "virtual"@)) ==> (r
            matches Err(e) && e is Config),
{
    proof {
        reveal_strlit("modbus");
        reveal_strlit("iec104");
        reveal_strlit("opcua");
        reveal_strlit("can");
        reveal_strlit("gpio");
        reveal_strlit("virtual");
        assert(!(matches_keyword(protocol@, "modbus"@) && matches_keyword(protocol@, "iec104"@)))
            by {
            if matches_keyword(protocol@, "modbus"@) && matches_keyword(protocol@, "iec104"@) {
                assert(char_matches_lower(protocol@[0], "modbus"@[0]));
                assert(char_matches_lower(protocol@[0], "iec104"@[0]));
            }
        };
    }
    if str_matches_keyword(protocol, "modbus") {
        parse_modbus_address(address)
    } else if str_matches_keyword(protocol, "iec104") {
        parse_iec104_address(address)
    } else if str_matches_keyword(protocol, "opcua") {
        parse_opcua_address(address)
    } else if str_matches_keyword(protocol, "can") {
        parse_can_address(address)
    } else if str_matches_keyword(protocol, "gpio") {
        parse_gpio_address(address)
    } else if str_matches_keyword(protocol, "virtual") {
        Ok(ProtocolAddress::Virtual(VirtualAddress::new(address.to_owned())))
    } else {
        Err(GatewayError::config("unknown protocol"))
    }
}

} // verus!
