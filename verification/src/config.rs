//! Gateway configuration schema: global settings, channel list and point
//! definitions, and the decimal notation used for transform coefficients.

use crate::address::{dec_value, digits_in, spec_find};
use crate::rat::{fr_eq, representable, Fr, Rat};
use vstd::prelude::*;

verus! {

/// Gateway global settings.
#[derive(Debug, Clone)]
pub struct GatewayGlobalConfig {
    /// Gateway name for identification.
    pub name: String,
    /// Default polling interval in milliseconds.
    pub default_poll_interval_ms: u64,
    /// Diagnostics snapshot interval in milliseconds.
    pub diagnostics_interval_ms: u64,
    /// Emit JSON-lines output for events.
    pub jsonl_output: bool,
}

impl Default for GatewayGlobalConfig {
    /// One-second polling, five-second diagnostics, plain output.
    fn default() -> (c: GatewayGlobalConfig)
        ensures
            c.name@ == "IGW"@,
            c.default_poll_interval_ms == 1000,
            c.diagnostics_interval_ms == 5000,
            !c.jsonl_output,
    {
        GatewayGlobalConfig {
            name: String::from_str("IGW"),
            default_poll_interval_ms: 1000,
            diagnostics_interval_ms: 5000,
            jsonl_output: false,
        }
    }
}

/// Channel mode named in the configuration.
#[derive(Debug, Clone, Copy, PartialEq, Eq, Structural)]
pub enum ChannelModeConfig {
    /// Polling mode, the default for most protocols.
    Polling,
    /// Event-driven mode.
    Event,
    /// Both polling and events.
    Hybrid,
}

impl Default for ChannelModeConfig {
    /// Channels poll unless told otherwise.
    fn default() -> (m: ChannelModeConfig)
        ensures
            m == ChannelModeConfig::Polling,
    {
        ChannelModeConfig::Polling
    }
}

/// Point definition with the shorthand address notation.
#[derive(Debug, Clone)]
pub struct PointDef {
    /// Point identifier.
    pub id: u32,
    /// Point display name.
    pub name: String,
    /// Protocol-specific shorthand address.
    pub address: String,
    /// Data transformation configuration.
    pub transform: crate::point::TransformConfig,
    /// Whether this point is enabled.
    pub enabled: bool,
}

impl PointDef {
    /// Well-formedness of the transform.
    pub open spec fn wf(self) -> bool {
        self.transform.wf()
    }
}

/// Channel configuration.
#[derive(Debug, Clone)]
pub struct ChannelConfig {
    /// Channel unique identifier.
    pub id: u32,
    /// Channel display name.
    pub name: String,
    /// Protocol keyword: `modbus`, `iec104`, `opcua`, `can`, `gpio` or
    /// `virtual`.
    pub protocol: String,
    /// Whether this channel is enabled.
    pub enabled: bool,
    /// Channel mode.
    pub mode: ChannelModeConfig,
    /// Polling interval override in milliseconds, if any.
    pub poll_interval_ms: Option<u64>,
    /// Protocol-specific parameters as key-value text pairs.
    pub parameters: Vec<(String, String)>,
    /// Point definitions.
    pub points: Vec<PointDef>,
}

impl ChannelConfig {
    /// Well-formedness of every point definition.
    pub open spec fn wf(self) -> bool {
        forall|i: int| 0 <= i < self.points@.len() ==> (#[trigger] self.points@[i]).wf()
    }
}

/// Gateway configuration: global settings and the channel list.
#[derive(Debug, Clone)]
pub struct GatewayConfig {
    /// Gateway global settings.
    pub gateway: GatewayGlobalConfig,
    /// Channel configurations.
    pub channels: Vec<ChannelConfig>,
}

impl GatewayConfig {
    /// Well-formedness of every channel.
    pub open spec fn wf(self) -> bool {
        forall|i: int| 0 <= i < self.channels@.len() ==> (#[trigger] self.channels@[i]).wf()
    }

    /// The indices of the enabled channels, in configuration order.
    pub fn enabled_channels(&self) -> (r: Vec<usize>)
        ensures
            forall|i: int|
                0 <= i < r@.len() ==> (#[trigger] r@[i]) < self.channels@.len()
                    && self.channels@[r@[i] as int].enabled,
            r@.map_values(|v: usize| v as int) == enabled_channel_idxs(
                self.channels@,
                self.channels@.len() as int,
            ),
    {
        let mut out: Vec<usize> = Vec::new();
        let mut i: usize = 0;
        while i < self.channels.len()
            invariant
                i <= self.channels@.len(),
                forall|k: int|
                    0 <= k < out@.len() ==> (#[trigger] out@[k]) < self.channels@.len()
                        && self.channels@[out@[k] as int].enabled,
                out@.map_values(|v: usize| v as int) == enabled_channel_idxs(
                    self.channels@,
                    i as int,
                ),
            decreases self.channels@.len() - i,
        {
            if self.channels[i].enabled {
                out.push(i);
            }
            proof {
                assert(out@.map_values(|v: usize| v as int) =~= enabled_channel_idxs(
                    self.channels@,
                    i + 1,
                ));
            }
            i += 1;
        }
        out
    }
}

/// The indices below `n` of the enabled channels, in order.
pub open spec fn enabled_channel_idxs(channels: Seq<ChannelConfig>, n: int) -> Seq<int>
    decreases n,
{
    if n <= 0 {
        Seq::empty()
    } else {
        enabled_channel_idxs(channels, n - 1) + (if channels[n - 1].enabled {
            seq![n - 1]
        } else {
            Seq::<int>::empty()
        })
    }
}

/// Configuration error.
#[derive(Debug, Clone)]
pub enum ConfigError {
    /// Reading the file failed.
    Io(String),
    /// The file does not parse.
    Parse(String),
    /// The parsed configuration is invalid.
    Validation(String),
}

/// Ten to the `k`.
pub open spec fn pow10(k: nat) -> int
    decreases k,
{
    if k == 0 {
        1
    } else {
        10 * pow10((k - 1) as nat)
    }
}

/// The decimal-notation grammar: an optional minus, a nonempty digit
/// string, optionally a dot and a second nonempty digit string.
pub open spec fn decimal_valid(s: Seq<char>) -> bool {
    let from: int = if s.len() > 0 && s[0] == '-' {
        1
    } else {
        0
    };
    let dot = spec_find(s, from, '.');
    &&& from < dot
    &&& digits_in(s, from, dot)
    &&& (dot == s.len() || (dot + 1 < s.len() && digits_in(s, dot + 1, s.len() as int)
        && spec_find(s, dot + 1, '.') == s.len()))
}

/// The exact fraction a valid decimal string denotes.
pub open spec fn decimal_fr(s: Seq<char>) -> Fr {
    let neg = s.len() > 0 && s[0] == '-';
    let from: int = if neg {
        1
    } else {
        0
    };
    let dot = spec_find(s, from, '.');
    let ip = dec_value(s.subrange(from, dot));
    if dot == s.len() {
        Fr {
            n: if neg {
                -ip
            } else {
                ip
            },
            d: 1,
        }
    } else {
        let k = (s.len() - dot - 1) as nat;
        let fp = dec_value(s.subrange(dot + 1, s.len() as int));
        let mag = ip * pow10(k) + fp;
        Fr {
            n: if neg {
                -mag
            } else {
                mag
            },
            d: pow10(k),
        }
    }
}

/// Ten to the `k`, as a machine word.
fn pow10_u64(k: usize) -> (p: u64)
    requires
        k <= 9,
    ensures
        p as int == pow10(k as nat),
        1 <= p <= 1_000_000_000,
{
    proof {
        reveal_with_fuel(pow10, 11);
    }
    match k {
        0 => 1,
        1 => 10,
        2 => 100,
        3 => 1_000,
        4 => 10_000,
        5 => 100_000,
        6 => 1_000_000,
        7 => 10_000_000,
        8 => 100_000_000,
        _ => 1_000_000_000,
    }
}

/// The decimal strings the parser accepts: grammar-valid, with the
/// integer part fitting 32 bits and at most nine fraction digits.
pub open spec fn decimal_accepted(s: Seq<char>) -> bool {
    let from: int = if s.len() > 0 && s[0] == '-' {
        1
    } else {
        0
    };
    let dot = spec_find(s, from, '.');
    &&& decimal_valid(s)
    &&& dec_value(s.subrange(from, dot)) <= 0xFFFF_FFFF
    &&& (dot == s.len() || s.len() - (dot + 1) <= 9)
}

/// Parse a decimal string into an exact rational.
///
/// Accepts an optional leading minus, an integer part and optionally a
/// dot with a fraction part: a value comes back exactly for the accepted
/// strings, and it is the exact decimal value.
pub fn parse_decimal(s: &str) -> (r: Option<Rat>)
    ensures
        r matches Some(v) ==> v.wf() && decimal_valid(s@) && fr_eq(crate::rat::fr(v), decimal_fr(s@)),
        r is Some <==> decimal_accepted(s@),
{
    let n = s.unicode_len();
    let neg = n > 0 && s.get_char(0) == '-';
    let from: usize = if neg {
        1
    } else {
        0
    };
    let dot = crate::address::find_char(s, from, '.');
    let ip = match crate::address::parse_number(s, from, dot, 0xFFFF_FFFF) {
        Some(v) => v,
        None => {
            return None;
        },
    };
    if dot == n {
        let num: i64 = if neg {
            -(ip as i64)
        } else {
            ip as i64
        };
        proof {
            crate::rat::lemma_norm_bounds(num as int, 1);
        }
        return Rat::new(num, 1);
    }
    if dot + 1 >= n {
        return None;
    }
    let k: usize = n - dot - 1;
    if k > 9 {
        return None;
    }
    // refuse a second dot
    let dot2 = crate::address::find_char(s, dot + 1, '.');
    if dot2 != n {
        return None;
    }
    let fp = match crate::address::parse_number(s, dot + 1, n, 0xFFFF_FFFF) {
        Some(v) => v,
        None => {
            proof {
                if decimal_accepted(s@) {
                    let frac = s@.subrange(dot + 1, n as int);
                    assert(digits_in(frac, 0, frac.len() as int));
                    lemma_dec_value_bound(frac);
                    lemma_pow10_le(frac.len(), 9);
                    reveal_with_fuel(pow10, 11);
                }
            }
            return None;
        },
    };
    let den = pow10_u64(k);
    proof {
        lemma_decimal_mag_bounds(ip as int, den as int, fp as int);
    }
    let mag: u64 = (ip as u64) * den + (fp as u64);
    let num: i64 = if neg {
        -(mag as i64)
    } else {
        mag as i64
    };
    proof {
        assert((-(ip as int)) * 1 == -(ip as int)) by (nonlinear_arith);
        crate::rat::lemma_norm_bounds(num as int, den as int);
    }
    Rat::new(num, den as i64)
}

/// A digit string's value is below ten to its length.
proof fn lemma_dec_value_bound(s: Seq<char>)
    requires
        digits_in(s, 0, s.len() as int),
    ensures
        0 <= dec_value(s) < pow10(s.len()),
    decreases s.len(),
{
    if s.len() > 0 {
        assert(digits_in(s.drop_last(), 0, s.drop_last().len() as int));
        lemma_dec_value_bound(s.drop_last());
        let dl = dec_value(s.drop_last());
        assert(dl * 10 <= (pow10((s.len() - 1) as nat) - 1) * 10) by (nonlinear_arith)
            requires
                dl <= pow10((s.len() - 1) as nat) - 1,
        ;
    }
}

/// Ten to the power is monotone and at least one.
proof fn lemma_pow10_le(a: nat, b: nat)
    requires
        a <= b,
    ensures
        1 <= pow10(a) <= pow10(b),
    decreases b,
{
    if a == b {
        lemma_pow10_pos(a);
    } else {
        lemma_pow10_le(a, (b - 1) as nat);
    }
}

/// Ten to the power is positive.
proof fn lemma_pow10_pos(a: nat)
    ensures
        pow10(a) >= 1,
    decreases a,
{
    if a > 0 {
        lemma_pow10_pos((a - 1) as nat);
    }
}

/// The magnitude of a parsed decimal fits the word: the integer part
/// scaled by at most ten to the ninth, plus the fraction part.
proof fn lemma_decimal_mag_bounds(ip: int, den: int, fp: int)
    by (nonlinear_arith)
    requires
        0 <= ip <= 0xFFFF_FFFF,
        1 <= den <= 1_000_000_000,
        0 <= fp <= 0xFFFF_FFFF,
    ensures
        0 <= ip * den + fp < 0x4000_0000_0000_0000,
{
}

} // verus!
